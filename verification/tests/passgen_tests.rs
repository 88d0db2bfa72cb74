use loknext::passgen::{generate, generate_checked, DEFAULT_PASSWORD_LENGTH};

#[test]
fn generated_length_is_exact() {
    let p = generate(8);
    assert_eq!(p.chars().count(), 8);
    assert!(p.chars().all(|c| c.is_ascii_alphanumeric()));
}

#[test]
fn default_length_is_twelve() {
    assert_eq!(DEFAULT_PASSWORD_LENGTH, 12);
    let p = generate(DEFAULT_PASSWORD_LENGTH);
    assert_eq!(p.chars().count(), 12);
    assert!(p.chars().all(|c| c.is_ascii_alphanumeric()));
}

#[test]
fn length_one_works() {
    let p = generate(1);
    assert_eq!(p.chars().count(), 1);
    assert!(p.chars().all(|c| c.is_ascii_alphanumeric()));
}

#[test]
fn zero_length_is_rejected() {
    assert!(generate_checked(0).is_none());
}

#[test]
fn checked_generation_serves_positive_lengths() {
    let p = generate_checked(20).expect("a positive length must be served");
    assert_eq!(p.chars().count(), 20);
    assert!(p.chars().all(|c| c.is_ascii_alphanumeric()));
}
