use rmkit::placeholder::{is_rewrite_target, rewrite_placeholders, token_of, PLACEHOLDER};

#[test]
fn overlay_then_rewrite_normalises_the_name() {
    let content = "name = \"{{ project_name }}\"\n";
    assert_eq!(
        rewrite_placeholders(content, "My Board"),
        Some("name = \"My_Board\"\n".to_string())
    );
}

#[test]
fn text_without_placeholder_is_not_rewritten() {
    assert_eq!(rewrite_placeholders("name = \"x\"\n", "My Board"), None);
    assert_eq!(rewrite_placeholders("", "abc"), None);
    assert_eq!(rewrite_placeholders("{{ project_name }", "abc"), None);
}

#[test]
fn every_occurrence_is_replaced() {
    let content = "{{ project_name }}-{{ project_name }}{{ project_name }}";
    assert_eq!(rewrite_placeholders(content, "kb"), Some("kb-kbkb".to_string()));
}

#[test]
fn replacement_may_be_empty_or_hold_the_token() {
    assert_eq!(rewrite_placeholders("a{{ project_name }}b", ""), Some("ab".to_string()));
    assert_eq!(
        rewrite_placeholders("{{ project_name }}", PLACEHOLDER),
        Some("{{_project_name_}}".to_string())
    );
}

#[test]
fn non_ascii_text_is_preserved() {
    assert_eq!(
        rewrite_placeholders("ä{{ project_name }}ö", "Ünï code"),
        Some("äÜnï_codeö".to_string())
    );
}

#[test]
fn token_turns_spaces_into_underscores() {
    assert_eq!(token_of("My Board"), "My_Board");
    assert_eq!(token_of("  a b "), "__a_b_");
    assert_eq!(token_of(""), "");
}

#[test]
fn only_toml_files_are_rewritten() {
    assert!(is_rewrite_target("keyboard.toml"));
    assert!(is_rewrite_target("a.b.toml"));
    assert!(is_rewrite_target("..toml"));
    assert!(!is_rewrite_target(".toml"));
    assert!(!is_rewrite_target("toml"));
    assert!(!is_rewrite_target("vial.json"));
    assert!(!is_rewrite_target("main.rs"));
    assert!(!is_rewrite_target("keyboard.TOML"));
    assert!(!is_rewrite_target(""));
}
