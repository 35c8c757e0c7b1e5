use newsboat_archiver::path_candidates;

#[test]
fn joins_every_path_entry_with_the_program() {
    let got = path_candidates("/usr/bin:/usr/local/bin", "monolith");
    assert_eq!(
        got,
        vec!["/usr/bin/monolith".to_string(), "/usr/local/bin/monolith".to_string()]
    );
}

#[test]
fn empty_entries_are_kept() {
    let got = path_candidates(":/bin", "lynx");
    assert_eq!(got, vec!["/lynx".to_string(), "/bin/lynx".to_string()]);
}
