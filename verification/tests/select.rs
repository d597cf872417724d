use healthcheck::select::{label_name, list_value, regex_value, term, ListMatcher, Matcher, RegexMatcher};

fn labels() -> Vec<(String, String)> {
    vec![
        ("hostname".to_owned(), "test-host".to_owned()),
        ("role".to_owned(), "web".to_owned()),
        ("rack".to_owned(), "23".to_owned()),
    ]
}

#[test]
fn test_label_names() {
    assert!(label_name("").is_none());
    assert!(label_name("foo").is_some());
    assert!(label_name("foo3").is_some());
    assert!(label_name("3foo3").is_some());
    // "foo-" parses as "foo" with "-" left over, so it is not a full parse.
    let (rest, name) = label_name("foo-").unwrap();
    assert_eq!(name, "foo");
    assert!(!rest.is_empty());
    assert!(label_name("foo-bar").is_some());
    assert!(label_name("foo--bar").is_some());
    assert!(label_name("-foo").is_none());
}

#[test]
fn test_regex_matcher() {
    let (rest, matcher) = regex_value("/^rack203-.*/").unwrap();
    assert_eq!(rest, "");

    assert!(matcher.matches("rack203-cl14"));
    assert!(!matcher.matches("arack20-cl140"));
}

#[test]
fn test_list_matcher() {
    let (rest, matcher) = list_value("foo,bar,baz").unwrap();
    assert_eq!(rest, "");

    assert!(matcher.matches("foo"));
    assert!(!matcher.matches("fooo"));
    assert!(matcher.matches("baz"));
}

#[test]
fn test_terms() {
    let labels = labels();

    let (rest, t) = term("hostname:test-host").unwrap();
    assert_eq!(rest, "");
    assert!(t.matches(&labels));

    let (rest, t) = term("hostname:test-host,test-host2").unwrap();
    assert_eq!(rest, "");
    assert!(t.matches(&labels));

    let (rest, t) = term("hostname:other-host,some-other-host").unwrap();
    assert_eq!(rest, "");
    assert!(!t.matches(&labels));

    let (rest, t) = term("hostname:/test-/").unwrap();
    assert_eq!(rest, "");
    assert!(t.matches(&labels));

    let (rest, t) = term("hostname:/test-$/").unwrap();
    assert_eq!(rest, "");
    assert!(!t.matches(&labels));
}

#[test]
fn term_matches_exact_host_not_other() {
    let (rest, t) = term("hostname:test-host").unwrap();
    assert_eq!(rest, "");
    assert!(t.matches(&vec![("hostname".to_owned(), "test-host".to_owned())]));
    assert!(!t.matches(&vec![("hostname".to_owned(), "other-host".to_owned())]));
}

#[test]
fn term_regex_prefix_matches_host2() {
    let (_, t) = term("hostname:/test-.*/").unwrap();
    assert!(t.matches(&vec![("hostname".to_owned(), "test-host2".to_owned())]));
}

#[test]
fn term_absent_label_is_no_match() {
    let (_, t) = term("hostname:test-host").unwrap();
    assert!(!t.matches(&vec![("role".to_owned(), "web".to_owned())]));
    assert!(!t.matches(&Vec::new()));
}

#[test]
fn term_parse_failures() {
    // No colon, or nothing usable before it.
    assert!(term("hostname").is_none());
    assert!(term(":web").is_none());
    assert!(term("hostname:").is_none());
    assert!(term("-foo:web").is_none());
    // A name may not end in a hyphen, so the colon is never reached.
    assert!(term("foo-:web").is_none());
}

#[test]
fn term_invalid_regex_falls_back_to_list() {
    // The regex does not compile, so the whole "/.../" text reads as a list item.
    let (rest, t) = term("hostname:/te(st-/").unwrap();
    assert_eq!(rest, "");
    match t.matcher {
        Matcher::List(ref m) => {
            assert!(m.matches("/te(st-/"));
            assert!(!m.matches("test-host"));
        },
        Matcher::Regex(_) => panic!("expected the list fallback"),
    }
}

#[test]
fn list_matcher_new_owns_items() {
    let m = ListMatcher::new(vec!["a", "b"]);
    assert!(m.matches("a"));
    assert!(m.matches("b"));
    assert!(!m.matches("c"));
    let empty = ListMatcher::new(Vec::new());
    assert!(!empty.matches("a"));
}

#[test]
fn regex_matcher_rejects_bad_patterns() {
    assert!(RegexMatcher::new("te(st-".to_owned()).is_none());
    let m = RegexMatcher::new("^a+$".to_owned()).unwrap();
    assert!(m.matches("aaa"));
    assert!(!m.matches("aab"));
}

#[test]
fn term_leaves_trailing_input() {
    let (rest, t) = term("role:web extra").unwrap();
    assert_eq!(rest, " extra");
    assert!(t.matches(&labels()));
}
