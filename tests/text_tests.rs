use autoservice::text::{concat3, decimal_string, sanitize_name, starts_with};

#[test]
fn test_sanitize_name() {
    assert_eq!(sanitize_name("John Doe"), "John_Doe");
    assert_eq!(sanitize_name("PC-123"), "PC-123");
    assert_eq!(sanitize_name("Test@#$PC"), "Test___PC");
    assert_eq!(sanitize_name("  spaces  "), "spaces");
}

#[test]
fn sanitize_keeps_fifty_characters_before_trimming() {
    let long = "a".repeat(60);
    assert_eq!(sanitize_name(&long), "a".repeat(50));
    let padded = format!("{}b", "_".repeat(49));
    assert_eq!(sanitize_name(&padded), "b");
    let cut = format!("{}{}", "x".repeat(49), "__y");
    assert_eq!(sanitize_name(&cut), "x".repeat(49));
}

#[test]
fn sanitize_keeps_unicode_letters_and_empties_symbols() {
    assert_eq!(sanitize_name("Café Ünï"), "Café_Ünï");
    assert_eq!(sanitize_name("@@@"), "");
    assert_eq!(sanitize_name(""), "");
}

#[test]
fn decimal_writes_digits() {
    assert_eq!(decimal_string(0), "0");
    assert_eq!(decimal_string(7), "7");
    assert_eq!(decimal_string(1760000000), "1760000000");
    assert_eq!(decimal_string(u64::MAX), "18446744073709551615");
}

#[test]
fn prefixes_and_concatenation() {
    assert!(starts_with("run_plan_1.json", "run_plan_"));
    assert!(!starts_with("run", "run_plan_"));
    assert!(starts_with("abc", ""));
    assert_eq!(concat3("a", "bc", "d"), "abcd");
}
