use petridish::invocation::{entry_dir_name_of, entry_dir_var_name, is_cache_name, parse_auth, trim};

#[test]
fn parse_auth_splits_username_and_password() {
    let (user, pass) = parse_auth("alice:s3cret").unwrap();
    assert_eq!(user, "alice");
    assert_eq!(pass, "s3cret");
}

#[test]
fn parse_auth_rejects_missing_colon() {
    let err = parse_auth("alice").err().unwrap();
    assert_eq!(
        err.message(),
        "auth 'alice' is invalid, should be like <username>:<password>"
    );
}

#[test]
fn parse_auth_rejects_two_colons() {
    let err = parse_auth("alice:a:b").err().unwrap();
    assert_eq!(
        err.message(),
        "auth 'alice:a:b' is invalid, should be like <username>:<password>"
    );
}

#[test]
fn cache_names_are_word_like() {
    assert!(is_cache_name("my-template_2"));
    assert!(!is_cache_name(""));
    assert!(!is_cache_name("a/b"));
    assert!(!is_cache_name("gh:rust-lang/rust"));
}

#[test]
fn entry_dir_name_wraps_variable() {
    assert_eq!(entry_dir_name_of("project"), "{{ project }}");
}

#[test]
fn entry_dir_var_name_unwraps() {
    assert_eq!(
        entry_dir_var_name("{{ repo_name }}"),
        Some("repo_name".to_string())
    );
    assert_eq!(entry_dir_var_name("{{repo_name}}"), Some("repo_name".to_string()));
    assert_eq!(entry_dir_var_name("repo_name"), None);
    assert_eq!(entry_dir_var_name("{{ repo_name"), None);
}

#[test]
fn trim_strips_whitespace() {
    assert_eq!(trim("  a b\t"), "a b");
    assert_eq!(trim("\n\r\t "), "");
    assert_eq!(trim("abc"), "abc");
}
