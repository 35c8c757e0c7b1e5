use newsboat_archiver::Feed;
use newsboat_archiver::FeedItem;
use newsboat_archiver::items_for;

fn feed(title: &str, url: &str, rssurl: &str) -> Feed {
    Feed {
        rssurl: Some(rssurl.to_string()),
        url: Some(url.to_string()),
        title: Some(title.to_string()),
        lastmodified: None,
        is_rtl: None,
        etag: None,
    }
}

fn item(title: &str, url: &str, feedurl: &str) -> FeedItem {
    FeedItem {
        id: None,
        guid: None,
        title: Some(title.to_string()),
        author: None,
        url: Some(url.to_string()),
        feedurl: Some(feedurl.to_string()),
        pubdate: None,
        content: None,
        unread: None,
        enclosure_url: None,
        enclosure_type: None,
        enqueued: None,
        flags: None,
        deleted: None,
        base: None,
    }
}

#[test]
fn selects_items_whose_feedurl_contains_either_feed_url() {
    let f = feed("Blog", "https://example.com", "https://example.com/rss.xml");
    let items = vec![
        item("by site url", "https://example.com/a", "https://example.com/"),
        item("other feed", "https://other.net/x", "https://other.net/rss"),
        item("by rss url", "https://example.com/b", "https://example.com/rss.xml?x=1"),
    ];
    let got = items_for(&f, &items);
    assert_eq!(got.len(), 2);
    assert_eq!(got[0].title.as_deref(), Some("by site url"));
    assert_eq!(got[1].title.as_deref(), Some("by rss url"));
}

#[test]
fn preserves_original_order() {
    let f = feed("Blog", "https://example.com", "https://example.com/rss.xml");
    let items = vec![
        item("one", "u1", "x https://example.com y"),
        item("two", "u2", "https://example.com"),
        item("three", "u3", "pre https://example.com/rss.xml"),
    ];
    let got = items_for(&f, &items);
    let titles: Vec<&str> = got.iter().map(|i| i.title.as_deref().unwrap()).collect();
    assert_eq!(titles, vec!["one", "two", "three"]);
}

#[test]
fn no_match_yields_empty_list() {
    let f = feed("Blog", "https://example.com", "https://example.com/rss.xml");
    let items = vec![item("other", "u", "https://other.net/rss")];
    let got = items_for(&f, &items);
    assert!(got.is_empty());
}

#[test]
fn containment_not_equality_is_the_test() {
    let f = feed("Blog", "https://example.com", "https://example.com/rss.xml");
    let items = vec![item("padded", "u", "http://mirror/https://example.com/feed")];
    let got = items_for(&f, &items);
    assert_eq!(got.len(), 1);
}
