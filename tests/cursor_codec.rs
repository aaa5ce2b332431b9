use trailbase::cursor::{decrypt_cursor, encrypt_cursor, generate_cursor_key, CursorError, KEY_LEN};

#[test]
fn test_cursor_encryption() {
    let api_name = "test".to_string();
    let key = generate_cursor_key();

    let value = "secret cursor";
    let encrypted = encrypt_cursor(&key, api_name.as_bytes(), &value).unwrap();
    let decrypted = decrypt_cursor(&key, api_name.as_bytes(), &encrypted).unwrap();

    assert_eq!(value, decrypted);
}

#[test]
fn cursor_is_scoped_to_its_api() {
    let key = generate_cursor_key();
    let sealed = encrypt_cursor(&key, b"messages_api", "42").unwrap();
    assert_eq!(decrypt_cursor(&key, b"messages_api", &sealed).unwrap(), "42");
    assert_eq!(decrypt_cursor(&key, b"other_api", &sealed), Err(CursorError::BadSeal));
}

#[test]
fn cursor_is_bound_to_its_key() {
    let key = generate_cursor_key();
    let other = vec![7u8; KEY_LEN];
    let sealed = encrypt_cursor(&key, b"api", "7").unwrap();
    assert_eq!(decrypt_cursor(&other, b"api", &sealed), Err(CursorError::BadSeal));
}

#[test]
fn cursor_layout_is_unpadded_base64url() {
    let key = vec![1u8; KEY_LEN];
    let sealed = encrypt_cursor(&key, b"api", "12345").unwrap();
    // 12 nonce bytes, 5 plaintext bytes, 16 tag bytes: 33 bytes, 44 characters.
    assert_eq!(sealed.len(), 44);
    assert!(!sealed.contains('='));
    assert!(!sealed.contains('+') && !sealed.contains('/'));
}

#[test]
fn tampered_cursor_is_rejected() {
    let key = generate_cursor_key();
    let sealed = encrypt_cursor(&key, b"messages_api", "3").unwrap();
    let mut chars: Vec<char> = sealed.chars().collect();
    let last = chars.len() - 1;
    chars[last] = if chars[last] == 'A' { 'B' } else { 'A' };
    let tampered: String = chars.into_iter().collect();
    assert!(decrypt_cursor(&key, b"messages_api", &tampered).is_err());
}

#[test]
fn cursor_errors_by_kind() {
    let key = generate_cursor_key();
    assert_eq!(decrypt_cursor(&key, b"api", "not base64!"), Err(CursorError::BadBase64));
    assert_eq!(decrypt_cursor(&key, b"api", "AAAA"), Err(CursorError::ShortData));
    assert_eq!(decrypt_cursor(&key, b"api", "AAAAAAAAAAAAAAAAAAAAAAAAAAAAAAAAAAAAAAAAAAA"), Err(CursorError::BadSeal));
}

#[test]
fn fresh_nonce_per_seal() {
    let key = generate_cursor_key();
    let a = encrypt_cursor(&key, b"api", "1").unwrap();
    let b = encrypt_cursor(&key, b"api", "1").unwrap();
    assert_ne!(a, b);
    assert_eq!(decrypt_cursor(&key, b"api", &a).unwrap(), "1");
    assert_eq!(decrypt_cursor(&key, b"api", &b).unwrap(), "1");
}
