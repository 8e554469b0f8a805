use petridish::cache::Cache;
use petridish::source::templates_cache_dir;
use petridish::strutil::{
    concat3, contains_str, count_char, ends_with, find_char, rfind_char, starts_with, str_eq,
    strip_leading_char, strip_prefix_rep, strip_suffix_rep, to_owned_string,
};

#[test]
fn suffix_stripping_is_repeated() {
    assert_eq!(strip_suffix_rep("hello.git", ".git"), "hello");
    assert_eq!(strip_suffix_rep("hello.git.git", ".git"), "hello");
    assert_eq!(strip_suffix_rep("hello", ".git"), "hello");
    assert_eq!(strip_suffix_rep("", ".git"), "");
}

#[test]
fn prefix_stripping_is_repeated() {
    assert_eq!(strip_prefix_rep("gh:gh:x", "gh:"), "x");
    assert_eq!(strip_prefix_rep("abc", "gh:"), "abc");
    assert_eq!(strip_leading_char("///a/b", '/'), "a/b");
}

#[test]
fn searching_and_counting() {
    assert_eq!(find_char("a:b:c", ':'), Some(1));
    assert_eq!(rfind_char("a:b:c", ':'), Some(3));
    assert_eq!(find_char("abc", ':'), None);
    assert_eq!(count_char("a:b:c", ':'), 2);
    assert!(starts_with("https://x", "https://"));
    assert!(!starts_with("http://x", "https://"));
    assert!(ends_with("repo.git", ".git"));
    assert!(str_eq("same", "same"));
    assert!(!str_eq("same", "sane"));
    assert_eq!(concat3("a", "/", "b"), "a/b");
    assert_eq!(to_owned_string("x"), "x");
    let v = vec!["a".to_string(), "b".to_string()];
    assert!(contains_str(&v, "b"));
    assert!(!contains_str(&v, "c"));
}

#[test]
fn cache_layout() {
    if let Some(dir) = Cache::cache_dir() {
        assert!(dir.ends_with("/petridish/repositories"));
    }
    if let Some(dir) = templates_cache_dir() {
        assert!(dir.ends_with("/petridish/templates"));
    }
    assert!(Cache::get("no-such-cached-template-name-xyzzy").is_none());
}
