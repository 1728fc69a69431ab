use rootcause::cli_args::{extract_note, has_flag, option_value};

fn args(items: &[&str]) -> Vec<String> {
    items.iter().map(|s| s.to_string()).collect()
}

#[test]
fn option_values() {
    let a = args(&["snapshot", "--note", "lento", "--json"]);
    assert_eq!(option_value(&a, "--note"), Some("lento"));
    assert_eq!(option_value(&a, "--json"), None);
    assert_eq!(option_value(&a, "--missing"), None);
}

#[test]
fn flags() {
    let a = args(&["status", "--json"]);
    assert!(has_flag(&a, "--json"));
    assert!(!has_flag(&a, "--verbose"));
}

#[test]
fn notes() {
    assert_eq!(extract_note(&args(&["snapshot", "--note", "pico de CPU"])), "pico de CPU");
    assert_eq!(extract_note(&args(&["snapshot"])), "Captura desde CLI");
}
