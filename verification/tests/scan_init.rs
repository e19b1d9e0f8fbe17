use bastion::init::{parse_language, template_target, InitLanguage};
use bastion::scan::{find_secret_lines, is_hidden_name, is_scannable_extension};

#[test]
fn test_find_secret_lines() {
    let lines = vec![
        String::from("api_key = \"abcdef123456\""),
        String::from("let x = 5;"),
        String::from("PASSWORD = 'hunter2hunter2'"),
        String::from("token: none"),
    ];
    assert_eq!(find_secret_lines(&lines), vec![0, 2]);
}

#[test]
fn test_find_secret_lines_empty() {
    let lines: Vec<String> = Vec::new();
    assert!(find_secret_lines(&lines).is_empty());
}

#[test]
fn test_is_hidden_name() {
    assert!(is_hidden_name(".git"));
    assert!(is_hidden_name(".venv"));
    assert!(is_hidden_name("target"));
    assert!(is_hidden_name("node_modules"));
    assert!(is_hidden_name("venv"));
    assert!(!is_hidden_name("src"));
    assert!(!is_hidden_name(""));
}

#[test]
fn test_is_scannable_extension() {
    assert!(is_scannable_extension("rs"));
    assert!(is_scannable_extension("py"));
    assert!(is_scannable_extension("yml"));
    assert!(!is_scannable_extension("md"));
    assert!(!is_scannable_extension("lock"));
}

#[test]
fn test_parse_language() {
    assert_eq!(parse_language("rust"), Some(InitLanguage::Rust));
    assert_eq!(parse_language("python"), Some(InitLanguage::Python));
    assert_eq!(parse_language("go"), None);
    assert_eq!(parse_language(""), None);
}

#[test]
fn test_template_target() {
    assert_eq!(template_target(InitLanguage::Rust), "src/guardrails.rs");
    assert_eq!(template_target(InitLanguage::Python), "secure_requirements.txt");
}
