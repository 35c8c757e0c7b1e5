use newsboat_archiver::Feed;
use newsboat_archiver::FeedItem;
use newsboat_archiver::Setting;
use newsboat_archiver::feed_directories;
use newsboat_archiver::plan_run;

fn feed(title: &str, url: &str, rssurl: &str) -> Feed {
    Feed {
        rssurl: Some(rssurl.to_string()),
        url: Some(url.to_string()),
        title: Some(title.to_string()),
        lastmodified: None,
        is_rtl: None,
        etag: None,
    }
}

fn item(title: &str, url: &str, feedurl: &str) -> FeedItem {
    FeedItem {
        id: None,
        guid: None,
        title: Some(title.to_string()),
        author: None,
        url: Some(url.to_string()),
        feedurl: Some(feedurl.to_string()),
        pubdate: None,
        content: None,
        unread: None,
        enclosure_url: None,
        enclosure_type: None,
        enqueued: None,
        flags: None,
        deleted: None,
        base: None,
    }
}

#[test]
fn one_feed_one_item_empty_config_yields_one_default_capture() {
    let feeds = vec![feed(
        "example feed title",
        "https://example.com/feed",
        "https://example.com/rss.xml",
    )];
    let items = vec![item(
        "a post",
        "https://example.com/a",
        "wrap https://example.com/feed wrap",
    )];
    let blacklist: Vec<String> = Vec::new();
    let settings: Vec<Setting> = Vec::new();

    let plan = plan_run("out", &feeds, &items, &blacklist, &settings);
    assert_eq!(plan.len(), 1);
    assert_eq!(plan[0].outfile, "out/example-feed-title/a-post.html");
    assert_eq!(
        plan[0].cmd,
        "monolith -s https://example.com/a > out/example-feed-title/a-post.html"
    );

    let dirs = feed_directories("out", &feeds, &blacklist);
    assert_eq!(dirs, vec!["out/example-feed-title".to_string()]);
}

#[test]
fn excluded_feed_contributes_nothing() {
    let feeds = vec![feed("t", "https://example.com/feed", "https://example.com/rss.xml")];
    let items = vec![item("a post", "https://example.com/a", "https://example.com/feed")];
    let blacklist = vec!["example.com".to_string()];
    let settings: Vec<Setting> = Vec::new();

    let plan = plan_run("out", &feeds, &items, &blacklist, &settings);
    assert!(plan.is_empty());
    let dirs = feed_directories("out", &feeds, &blacklist);
    assert!(dirs.is_empty());
}

#[test]
fn rules_steer_each_item_of_a_run() {
    let feeds = vec![feed("Mixed", "https://example.com", "https://example.com/rss.xml")];
    let items = vec![
        item("page", "https://example.com/page", "https://example.com"),
        item("text", "https://text.example.com/doc", "https://example.com"),
    ];
    let blacklist: Vec<String> = Vec::new();
    let settings = vec![
        Setting {
            cmd: "lynx".to_string(),
            url: "text.".to_string(),
            args: "x".to_string(),
        },
        Setting {
            cmd: "monolith".to_string(),
            url: "example.com".to_string(),
            args: "G".to_string(),
        },
    ];

    let plan = plan_run("out", &feeds, &items, &blacklist, &settings);
    assert_eq!(plan.len(), 2);
    assert_eq!(plan[0].outfile, "out/Mixed/page.html");
    assert_eq!(plan[0].cmd, "monolith -G https://example.com/page > out/Mixed/page.html");
    assert_eq!(plan[1].outfile, "out/Mixed/text.txt");
    assert_eq!(plan[1].cmd, "lynx https://text.example.com/doc -dump > out/Mixed/text.txt");
}
