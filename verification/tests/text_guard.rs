use bastion::text_guard::Sanitizer;

#[test]
fn test_dos_protection() {
    let sanitizer = Sanitizer::new().max_len(5);
    assert_eq!(sanitizer.sanitize("longstring"), "longs");
}

#[test]
fn test_bidi_removal() {
    let sanitizer = Sanitizer::new();
    let input = "evil\u{202E}txt.exe";
    let output = sanitizer.sanitize(input);
    assert!(!output.contains('\u{202E}'));
    assert_eq!(output, "eviltxt.exe");
}

#[test]
fn test_windows_reserved() {
    let sanitizer = Sanitizer::new();
    assert_eq!(sanitizer.sanitize("CON"), "_CON");
    assert_eq!(sanitizer.sanitize("com1"), "_com1");
    assert_eq!(sanitizer.sanitize("safe"), "safe");
}

#[test]
fn test_edge_cases() {
    let sanitizer = Sanitizer::new();
    assert_eq!(sanitizer.sanitize("."), "file_dot");
    assert_eq!(sanitizer.sanitize(".."), "file_dot_dot");
}

#[test]
fn test_path_char_removal() {
    let sanitizer = Sanitizer::new();
    assert_eq!(sanitizer.sanitize("file/name.txt"), "filename.txt");
    assert_eq!(sanitizer.sanitize("a<b>c:d*e?f|g"), "abcdefg");
}

#[test]
fn test_nfc_normalization() {
    let sanitizer = Sanitizer::new();
    assert_eq!(sanitizer.sanitize("e\u{0301}vil"), "\u{E9}vil");
}

#[test]
fn test_reserved_masking_other_devices() {
    let sanitizer = Sanitizer::new();
    assert_eq!(sanitizer.sanitize("NUL"), "_NUL");
    assert_eq!(sanitizer.sanitize("lpt9"), "_lpt9");
    assert_eq!(sanitizer.sanitize("com0"), "com0");
    assert_eq!(sanitizer.sanitize("CONS"), "CONS");
}

#[test]
fn test_control_char_removal() {
    let sanitizer = Sanitizer::new();
    assert_eq!(sanitizer.sanitize("a\u{0007}b\u{007F}c"), "abc");
}

#[test]
fn test_max_len_builder() {
    let sanitizer = Sanitizer::new().max_len(3);
    assert_eq!(sanitizer.sanitize("abcdef"), "abc");
    assert_eq!(sanitizer.sanitize("ab"), "ab");
}
