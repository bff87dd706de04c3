use polykit::polybase::encryption::{decrypt_batch, encrypt_batch, Encryption, EncryptionError, UserUuid};

fn enc() -> Encryption {
    Encryption::new("test-secret-1234").unwrap()
}

fn user() -> UserUuid {
    Encryption::key_user_uuid("11111111-2222-3333-4444-555555555555")
}

#[test]
fn empty_secret_rejected() {
    assert!(matches!(Encryption::new(""), Err(EncryptionError::EmptySecret)));
}

#[test]
fn round_trip_string() {
    let e = enc();
    let u = user();
    let cipher = e.encrypt("hello world", u).unwrap();
    assert!(cipher.starts_with("enc:"));
    let plain = e.decrypt(&cipher, u).unwrap();
    assert_eq!(plain, "hello world");
}

#[test]
fn empty_string_passes_through() {
    let e = enc();
    let u = user();
    assert_eq!(e.encrypt("", u).unwrap(), "");
    assert_eq!(e.decrypt("", u).unwrap(), "");
}

#[test]
fn decrypt_unprefixed_returns_input() {
    let e = enc();
    let u = user();
    assert_eq!(e.decrypt("not encrypted", u).unwrap(), "not encrypted");
}

#[test]
fn round_trip_binary() {
    let e = enc();
    let u = user();
    let blob = b"\x00\x01\x02\x03binary data".to_vec();
    let cipher = e.encrypt_data(&blob, u).unwrap();
    assert!(cipher.starts_with(b"ENC\0"));
    let plain = e.decrypt_data(&cipher, u).unwrap();
    assert_eq!(plain, blob);
}

#[test]
fn binary_passthrough_without_header() {
    let e = enc();
    let u = user();
    let blob = b"raw bytes".to_vec();
    assert_eq!(e.decrypt_data(&blob, u).unwrap(), blob);
}

#[test]
fn decrypt_with_healing_flags_legacy_plaintext() {
    let e = enc();
    let u = user();
    let (text, was_encrypted) = e.decrypt_with_healing("legacy plaintext", u).unwrap();
    assert_eq!(text, "legacy plaintext");
    assert!(!was_encrypted);
}

#[test]
fn decrypt_optional_with_healing_handles_none_and_some() {
    let e = enc();
    let u = user();

    assert!(e.decrypt_optional_with_healing(None, u).unwrap().is_none());

    let cipher = e.encrypt("payload", u).unwrap();
    let (text, was_encrypted) = e.decrypt_optional_with_healing(Some(cipher.as_str()), u).unwrap().unwrap();
    assert_eq!(text, "payload");
    assert!(was_encrypted);

    let (text, was_encrypted) = e.decrypt_optional_with_healing(Some("legacy"), u).unwrap().unwrap();
    assert_eq!(text, "legacy");
    assert!(!was_encrypted);
}

#[test]
fn user_uuid_falls_back_to_v5_for_non_uuid_input() {
    let id_a = Encryption::key_user_uuid("not a uuid");
    let id_b = Encryption::key_user_uuid("not a uuid");
    let id_c = Encryption::key_user_uuid("also not a uuid");
    assert_eq!(id_a, id_b);
    assert_ne!(id_a, id_c);
}

#[test]
fn uuid_input_is_used_as_is() {
    let u = Encryption::key_user_uuid("11111111-2222-3333-4444-555555555555");
    assert_eq!(u.bits, 0x11111111_2222_3333_4444_555555555555u128);
}

#[test]
fn fingerprint_is_first_twelve_hex_of_sha256() {
    let e = Encryption::new("abc").unwrap();
    assert_eq!(e.fingerprint(), "ba7816bf8f01");
}

#[test]
fn other_users_key_does_not_decrypt() {
    let e = enc();
    let cipher = e.encrypt("private", user()).unwrap();
    let other = Encryption::key_user_uuid("22222222-2222-3333-4444-555555555555");
    match e.decrypt(&cipher, other) {
        Err(EncryptionError::OperationFailed(m)) => assert_eq!(m, "decrypt: aead::Error"),
        other => panic!("unexpected {other:?}"),
    }
}

#[test]
fn malformed_ciphertexts_are_reported() {
    let e = enc();
    let u = user();
    match e.decrypt("enc:AAAA", u) {
        Err(EncryptionError::OperationFailed(m)) => assert_eq!(m, "ciphertext too short"),
        other => panic!("unexpected {other:?}"),
    }
    match e.decrypt("enc:!!!", u) {
        Err(EncryptionError::OperationFailed(m)) => assert!(m.starts_with("base64: ")),
        other => panic!("unexpected {other:?}"),
    }
    match e.decrypt_data(b"ENC\0short", u) {
        Err(EncryptionError::OperationFailed(m)) => assert_eq!(m, "encrypted data too short"),
        other => panic!("unexpected {other:?}"),
    }
}

#[test]
fn detection_of_prefix_and_header() {
    let e = enc();
    assert!(e.is_encrypted("enc:abc"));
    assert!(!e.is_encrypted("en"));
    assert!(e.is_data_encrypted(b"ENC\0xyz"));
    assert!(!e.is_data_encrypted(b"ENC"));
}

#[test]
fn batch_encrypt_then_decrypt_round_trips_in_order() {
    let e = enc();
    let u = user();
    let plain = vec!["alpha".to_string(), "".to_string(), "gamma ✓".to_string()];
    let sealed = encrypt_batch(&e, &plain, u).unwrap();
    assert_eq!(sealed.len(), 3);
    assert!(sealed[0].starts_with("enc:"));
    assert_eq!(sealed[1], "");
    let opened = decrypt_batch(&e, &sealed, u);
    assert_eq!(opened, vec![Some("alpha".to_string()), Some("".to_string()), Some("gamma ✓".to_string())]);
}

#[test]
fn batch_decrypt_keeps_going_past_a_bad_slot() {
    let e = enc();
    let u = user();
    let good = e.encrypt("fine", u).unwrap();
    let texts = vec!["enc:not-base64!!".to_string(), good, "plain text".to_string()];
    let opened = decrypt_batch(&e, &texts, u);
    assert_eq!(opened, vec![None, Some("fine".to_string()), Some("plain text".to_string())]);
}

#[test]
fn batch_decrypt_under_another_user_fails_per_slot() {
    let e = enc();
    let sealed = encrypt_batch(&e, &["secret".to_string()], user()).unwrap();
    let other = Encryption::key_user_uuid("99999999-2222-3333-4444-555555555555");
    assert_eq!(decrypt_batch(&e, &sealed, other), vec![None]);
}
