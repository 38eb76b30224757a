use easy_password::{generate_password, EasyPasswordError, PasswordConfig};

fn options(length: usize, digit: bool, symbol: bool) -> PasswordConfig {
    PasswordConfig { length, require_digit: digit, require_symbol: symbol }
}

#[test]
fn generation_is_deterministic() {
    let o = options(16, true, true);
    let a = generate_password("master", "example.com", &o).unwrap();
    let b = generate_password("master", "example.com", &o).unwrap();
    assert_eq!(a, b);
}

#[test]
fn output_depends_on_every_input() {
    let o = options(16, true, true);
    let base = generate_password("master", "example.com", &o).unwrap();
    let other_secret = generate_password("master2", "example.com", &o).unwrap();
    let other_context = generate_password("master", "example.org", &o).unwrap();
    let other_length = generate_password("master", "example.com", &options(17, true, true)).unwrap();
    assert_ne!(base, other_secret);
    assert_ne!(base, other_context);
    assert_ne!(base, other_length);
}

#[test]
fn empty_secret_is_rejected() {
    let r = generate_password("", "example.com", &options(12, true, true));
    assert_eq!(r, Err(EasyPasswordError::MasterKeyNotSet));
}

#[test]
fn requested_length_and_classes_are_met() {
    let o = options(12, true, true);
    let p = generate_password("abc123", "example.com", &o).unwrap();
    assert_eq!(p.chars().count(), 12);
    assert!(p.chars().any(|c| c.is_ascii_digit()));
    assert!(p.chars().any(|c| "!@#$%^&*-_=+?".contains(c)));
    assert!(p.chars().all(|c| c.is_ascii_graphic()));
}

#[test]
fn classes_hold_across_many_contexts() {
    let o = options(10, true, true);
    for i in 0..50 {
        let context = format!("site-{}.example", i);
        let p = generate_password("master", &context, &o).unwrap();
        assert_eq!(p.chars().count(), 10);
        assert!(p.chars().any(|c| c.is_ascii_digit()), "no digit for {}", context);
        assert!(
            p.chars().any(|c| "!@#$%^&*-_=+?".contains(c)),
            "no symbol for {}",
            context
        );
    }
}

#[test]
fn unsatisfiable_classes_report_generation_failure() {
    // A zero-length password can never contain a digit: every attempt is
    // rejected and the bounded rehash loop gives up.
    let r = generate_password("master", "example.com", &options(0, true, false));
    assert!(matches!(r, Err(EasyPasswordError::PasswordGeneration(_))));
}

#[test]
fn generation_does_not_echo_its_inputs() {
    // Guards the keyed-hash step: if the digest were just the message bytes,
    // two different secrets would derive the same password.
    let o = options(20, false, false);
    let a = generate_password("secret-one", "same-context", &o).unwrap();
    let b = generate_password("secret-two", "same-context", &o).unwrap();
    assert_ne!(a, b);
    assert!(!a.contains("same-context"));
}

#[test]
fn unicode_inputs_are_accepted() {
    let o = options(12, true, true);
    let a = generate_password("pässwörter", "bücher.de", &o).unwrap();
    let b = generate_password("pässwörter", "bücher.de", &o).unwrap();
    assert_eq!(a, b);
    assert_eq!(a.chars().count(), 12);
}
