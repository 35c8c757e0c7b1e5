use newsboat_archiver::is_url_in_blacklist;

#[test]
fn partial_domain_match_excludes() {
    let list = vec!["youtube.com".to_string()];
    assert!(is_url_in_blacklist("https://www.youtube.com/watch?v=1", &list));
}

#[test]
fn any_entry_anywhere_in_url_excludes() {
    let list = vec!["nomatch.site".to_string(), "tracker".to_string()];
    assert!(is_url_in_blacklist("https://example.com/tracker/feed", &list));
}

#[test]
fn no_entry_no_exclusion() {
    let list = vec!["youtube.com".to_string()];
    assert!(!is_url_in_blacklist("https://example.com/feed", &list));
    let empty: Vec<String> = Vec::new();
    assert!(!is_url_in_blacklist("https://example.com/feed", &empty));
}
