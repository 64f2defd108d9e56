use twig::text::{eq_ignore_ascii_case, split_str, str_eq, str_lt};

#[test]
fn string_equality_is_exact() {
    assert!(str_eq("a@x.com", "a@x.com"));
    assert!(!str_eq("a@x.com", "b@x.com"));
    assert!(!str_eq("abc", "ab"));
    assert!(str_eq("", ""));
}

#[test]
fn lexicographic_order_on_keys() {
    assert!(str_lt("alpha", "beta"));
    assert!(!str_lt("beta", "alpha"));
    assert!(str_lt("ab", "abc"));
    assert!(!str_lt("abc", "ab"));
    assert!(!str_lt("same", "same"));
    assert!(str_lt("", "a"));
}

#[test]
fn case_folding_covers_ascii_only() {
    assert!(eq_ignore_ascii_case("A@X.COM", "a@x.com"));
    assert!(eq_ignore_ascii_case("MiXeD", "mIxEd"));
    assert!(!eq_ignore_ascii_case("a@x.com", "b@x.com"));
    assert!(eq_ignore_ascii_case("", ""));
}

#[test]
fn comma_splitting_keeps_every_segment() {
    assert_eq!(
        split_str("main,develop"),
        vec!["main".to_string(), "develop".to_string()]
    );
    assert_eq!(split_str("main"), vec!["main".to_string()]);
    assert_eq!(
        split_str("a,,b"),
        vec!["a".to_string(), "".to_string(), "b".to_string()]
    );
    assert_eq!(split_str(""), vec!["".to_string()]);
    assert_eq!(
        split_str(",x"),
        vec!["".to_string(), "x".to_string()]
    );
}
