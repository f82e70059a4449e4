use coding_plan_manager::token::{generate_token, hex_digit};

#[test]
fn token_format() {
    let t = generate_token();
    assert!(t.starts_with("cpm-"));
    assert_eq!(t.len(), 4 + 32);
    let t2 = generate_token();
    assert_ne!(t, t2);
}

#[test]
fn token_digits_are_lower_case_hex() {
    let t = generate_token();
    assert!(t[4..].chars().all(|c| c.is_ascii_hexdigit() && !c.is_ascii_uppercase()));
    let digits: String = (0..16).map(hex_digit).collect();
    assert_eq!(digits, "0123456789abcdef");
}
