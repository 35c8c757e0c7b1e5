use newsboat_archiver::Setting;
use newsboat_archiver::feed_directory;
use newsboat_archiver::plan_item;
use newsboat_archiver::should_capture;

fn rule(cmd: &str, url: &str, args: &str) -> Setting {
    Setting { cmd: cmd.to_string(), url: url.to_string(), args: args.to_string() }
}

#[test]
fn existing_non_empty_file_is_skipped() {
    assert!(!should_capture(Some(17)));
}

#[test]
fn existing_zero_length_file_is_captured_again() {
    assert!(should_capture(Some(0)));
}

#[test]
fn missing_file_is_captured() {
    assert!(should_capture(None));
}

#[test]
fn monolith_rule_builds_html_capture() {
    let r = rule("monolith", "example.com", "G");
    let p = plan_item("out/Blog", "My Title", "https://example.com/a", Ok(&r));
    assert_eq!(p.outfile, "out/Blog/My-Title.html");
    assert_eq!(p.cmd, "monolith -G https://example.com/a > out/Blog/My-Title.html");
}

#[test]
fn lynx_rule_builds_text_dump() {
    let r = rule("lynx", "text.site", "x");
    let p = plan_item("out/Blog", "My Title", "https://text.site/a", Ok(&r));
    assert_eq!(p.outfile, "out/Blog/My-Title.txt");
    assert_eq!(p.cmd, "lynx https://text.site/a -dump > out/Blog/My-Title.txt");
}

#[test]
fn unknown_tool_falls_back_to_default() {
    let r = rule("wget", "example.com", "q");
    let p = plan_item("out/Blog", "My Title", "https://example.com/a", Ok(&r));
    assert_eq!(p.outfile, "out/Blog/My-Title.html");
    assert_eq!(p.cmd, "monolith -s https://example.com/a > out/Blog/My-Title.html");
}

#[test]
fn no_rule_takes_the_default_capture() {
    let p = plan_item("out/Blog", "My Title", "https://example.com/a", Err(()));
    assert_eq!(p.outfile, "out/Blog/My-Title.html");
    assert_eq!(p.cmd, "monolith -s https://example.com/a > out/Blog/My-Title.html");
}

#[test]
fn item_title_is_sanitized_into_the_path() {
    let p = plan_item("out/Blog", "A: strange / title!", "u", Err(()));
    assert_eq!(p.outfile, "out/Blog/A-strange-title-.html");
}

#[test]
fn feed_directory_joins_and_sanitizes() {
    assert_eq!(feed_directory("out", "My Feed"), "out/My-Feed");
    assert_eq!(feed_directory("out", "News: Daily"), "out/News-Daily");
}
