use loknext::cipher::Cipher;
use loknext::cipher::encrypt_then_decrypt;

#[test]
fn round_trip_same_token() {
    let cipher = Cipher::new("s3cr3t".to_string());
    let ciphertext = cipher.encrypt("hunter2");
    assert_ne!(ciphertext, "hunter2");
    let plain = cipher.decrypt(&ciphertext);
    assert_eq!(plain.ok(), Some("hunter2".to_string()));
}

#[test]
fn round_trip_helper() {
    let cipher = Cipher::new("another token".to_string());
    let r = encrypt_then_decrypt(&cipher, "a secret with spaces and unicode: \u{00e9}");
    assert_eq!(r.ok(), Some("a secret with spaces and unicode: \u{00e9}".to_string()));
}

#[test]
fn round_trip_empty_plaintext() {
    let cipher = Cipher::new("s3cr3t".to_string());
    let ciphertext = cipher.encrypt("");
    let plain = cipher.decrypt(&ciphertext);
    assert_eq!(plain.ok(), Some(String::new()));
}

#[test]
fn cross_key_fails() {
    let c1 = Cipher::new("s3cr3t".to_string());
    let c2 = Cipher::new("t0ps3cr3t".to_string());
    let ciphertext = c1.encrypt("hunter2");
    assert!(c2.decrypt(&ciphertext).is_err());
}

#[test]
fn ciphertext_is_single_line() {
    let cipher = Cipher::new("s3cr3t".to_string());
    let ciphertext = cipher.encrypt("a rather long secret, long enough for several blocks of the cipher");
    assert!(!ciphertext.contains('\n'));
}

#[test]
fn corrupted_ciphertext_fails() {
    let cipher = Cipher::new("s3cr3t".to_string());
    let ciphertext = cipher.encrypt("hunter2");
    let mut chars: Vec<char> = ciphertext.chars().collect();
    let mid = chars.len() / 2;
    chars[mid] = if chars[mid] == 'A' { 'B' } else { 'A' };
    let corrupted: String = chars.iter().collect();
    assert!(cipher.decrypt(&corrupted).is_err());
}

#[test]
fn malformed_base64_fails() {
    let cipher = Cipher::new("s3cr3t".to_string());
    assert!(cipher.decrypt("not base64 at all!").is_err());
}
