use newsboat_archiver::StringExtensions;
use newsboat_archiver::sanitize_str;

#[test]
fn replaces_space_and_drops_comma() {
    assert_eq!(sanitize_str("Hello, World!"), "Hello-World-");
    let out = sanitize_str("Hello, World!");
    assert!(!out.contains(','));
    assert!(!out.contains(' '));
}

#[test]
fn collapses_consecutive_hyphens() {
    assert_eq!(sanitize_str("a--b"), "a-b");
    assert_eq!(sanitize_str("a----b"), "a-b");
    assert_eq!(sanitize_str("a - b"), "a-b");
}

#[test]
fn removes_punctuation_set() {
    assert_eq!(sanitize_str("Title: Part (1)"), "Title-Part-1");
    assert_eq!(sanitize_str("it's"), "its");
    assert_eq!(sanitize_str("a*b|c;d"), "abcd");
    assert_eq!(sanitize_str("<a> & \"b\""), "a-b");
    assert_eq!(sanitize_str("$5, ok!"), "5-ok-");
}

#[test]
fn removes_smart_quotes_and_ellipsis() {
    assert_eq!(sanitize_str("\u{201C}Hi\u{201D}"), "Hi");
    assert_eq!(sanitize_str("don\u{2019}t"), "dont");
    assert_eq!(sanitize_str("wait\u{2026}"), "wait");
}

#[test]
fn slash_and_bang_become_hyphens() {
    assert_eq!(sanitize_str("a/b"), "a-b");
    assert_eq!(sanitize_str("really?!"), "really?-");
}

#[test]
fn drops_hyphen_before_dot() {
    assert_eq!(sanitize_str("End -."), "End.");
    assert_eq!(sanitize_str("name -.txt"), "name.txt");
}

#[test]
fn empty_input_stays_empty() {
    assert_eq!(sanitize_str(""), "");
}

#[test]
fn idempotent_on_samples() {
    let samples = [
        "Hello, World!",
        "a -- b \u{2026} ",
        "--a--. x",
        "\u{201C}Ti tle\u{201D}: (pt. 2) / done!",
        "",
        "plain",
        "!!!...",
    ];
    for s in samples.iter() {
        let once = sanitize_str(s);
        let twice = sanitize_str(&once);
        assert_eq!(twice, once);
    }
}

#[test]
fn trait_matches_free_function() {
    let mut title = String::from("My Feed: Part (1)");
    let through_trait = title.sanitize();
    assert_eq!(through_trait, sanitize_str("My Feed: Part (1)"));
    assert_eq!(title, "My Feed: Part (1)");
}
