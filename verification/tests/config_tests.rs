use newsboat_archiver::get_blacklist;
use newsboat_archiver::get_settings;
use newsboat_archiver::split_fields;
use newsboat_archiver::split_lines;

#[test]
fn blacklist_reads_one_entry_per_line() {
    let content = "youtube.com\nexample.org\n";
    let list = get_blacklist("exclusions.txt", Some(content));
    assert_eq!(list, vec!["youtube.com".to_string(), "example.org".to_string()]);
}

#[test]
fn blacklist_empty_path_yields_empty_list() {
    let list = get_blacklist("", Some("youtube.com\n"));
    assert!(list.is_empty());
}

#[test]
fn blacklist_missing_file_yields_empty_list() {
    let list = get_blacklist("exclusions.txt", None);
    assert!(list.is_empty());
}

#[test]
fn settings_reads_three_field_lines() {
    let content = "monolith|example.com|G\nlynx|text.site|x\n";
    let settings = get_settings("rules.txt", Some(content));
    assert_eq!(settings.len(), 2);
    assert_eq!(settings[0].cmd, "monolith");
    assert_eq!(settings[0].url, "example.com");
    assert_eq!(settings[0].args, "G");
    assert_eq!(settings[1].cmd, "lynx");
    assert_eq!(settings[1].url, "text.site");
    assert_eq!(settings[1].args, "x");
}

#[test]
fn settings_drops_malformed_lines() {
    let content = "justoneword\na|b\na|b|c|d\nmonolith|ok.site|s\n";
    let settings = get_settings("rules.txt", Some(content));
    assert_eq!(settings.len(), 1);
    assert_eq!(settings[0].url, "ok.site");
}

#[test]
fn settings_accepts_empty_fields() {
    let settings = get_settings("rules.txt", Some("||"));
    assert_eq!(settings.len(), 1);
    assert_eq!(settings[0].cmd, "");
    assert_eq!(settings[0].url, "");
    assert_eq!(settings[0].args, "");
}

#[test]
fn settings_empty_path_or_missing_file_yields_empty_list() {
    assert!(get_settings("", Some("a|b|c")).is_empty());
    assert!(get_settings("rules.txt", None).is_empty());
}

#[test]
fn split_lines_handles_crlf_and_final_line() {
    assert_eq!(split_lines("a\r\nb"), vec!["a".to_string(), "b".to_string()]);
    assert_eq!(split_lines("a\n\nb\n"), vec!["a".to_string(), "".to_string(), "b".to_string()]);
    assert_eq!(split_lines(""), Vec::<String>::new());
}

#[test]
fn split_fields_keeps_empty_fields() {
    assert_eq!(split_fields("a|b|c"), vec!["a".to_string(), "b".to_string(), "c".to_string()]);
    assert_eq!(split_fields("ab"), vec!["ab".to_string()]);
    assert_eq!(split_fields("|"), vec!["".to_string(), "".to_string()]);
}
