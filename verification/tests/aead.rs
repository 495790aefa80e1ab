use sponges::aead::AsconAead;

#[test]
fn round_trip() {
    let key = [0; 16];
    let nonce = [0; 16];
    let aad = [0; 16];
    let message = [0; 64];

    let aead = AsconAead::new(&key);
    let mut buffer = message.to_vec();

    let tag = aead.encrypt_in_place_detached(&nonce, &aad, &mut buffer);
    aead.decrypt_in_place_detached(&nonce, &aad, &mut buffer, &tag)
        .unwrap();

    assert_eq!(&message[..], &buffer[..]);
}

#[test]
fn test_vectors() {
    const KEY: [u8; 16] = [0; 16];
    const NONCE: [u8; 16] = [0; 16];
    const AAD: &[u8; 5] = b"ASCON";
    const PLAINTEXT: &[u8; 5] = b"ascon";
    const CIPHERTEXT: &[u8; 5] = &[0x4c, 0x8c, 0x42, 0x89, 0x49];
    const TAG: &[u8; 16] = &[
        0x65, 0xfd, 0x17, 0xb6, 0xd3, 0x0c, 0xd8, 0x76, 0xa0, 0x5a, 0x8e, 0xfc, 0xec, 0xad, 0x99,
        0x3a,
    ];

    let aead = AsconAead::new(&KEY);
    let mut buffer = PLAINTEXT.to_vec();

    let tag = aead.encrypt_in_place_detached(&NONCE, AAD, &mut buffer);

    assert_eq!(CIPHERTEXT, &buffer[..]);
    assert_eq!(TAG, &tag[..]);

    aead.decrypt_in_place_detached(&NONCE, AAD, &mut buffer, &tag)
        .unwrap();

    assert_eq!(PLAINTEXT, &buffer[..]);
}

/// A wrong tag is rejected and the ciphertext is left in place.
#[test]
fn reject_bad_tag() {
    let key = [7; 16];
    let nonce = [9; 16];
    let aad = b"header";
    let message = b"a short message";

    let aead = AsconAead::new(&key);
    let mut buffer = message.to_vec();
    let mut tag = aead.encrypt_in_place_detached(&nonce, aad, &mut buffer);
    let ciphertext = buffer.clone();

    tag[0] ^= 1;
    let result = aead.decrypt_in_place_detached(&nonce, aad, &mut buffer, &tag);
    assert!(result.is_err());
    assert_eq!(buffer, ciphertext);

    tag[0] ^= 1;
    aead.decrypt_in_place_detached(&nonce, aad, &mut buffer, &tag)
        .unwrap();
    assert_eq!(&message[..], &buffer[..]);
}
