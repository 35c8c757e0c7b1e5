use newsboat_archiver::Feed;
use newsboat_archiver::FeedItem;
use newsboat_archiver::parse_i64;
use newsboat_archiver::parse_u32;

#[test]
fn feed_row_maps_columns_in_table_order() {
    let row: Vec<(&str, Option<&str>)> = vec![
        ("rssurl", Some("https://example.com/rss.xml")),
        ("url", Some("https://example.com")),
        ("title", Some("Example")),
        ("lastmodified", Some("1700000000")),
        ("is_rtl", Some("0")),
        ("etag", None),
    ];
    let f = Feed::from_tuple_array(&row);
    assert_eq!(f.rssurl.as_deref(), Some("https://example.com/rss.xml"));
    assert_eq!(f.url.as_deref(), Some("https://example.com"));
    assert_eq!(f.title.as_deref(), Some("Example"));
    assert_eq!(f.lastmodified, Some(1700000000));
    assert_eq!(f.is_rtl, Some(false));
    assert_eq!(f.etag, None);
}

#[test]
fn feed_row_rtl_is_anything_but_zero() {
    let row: Vec<(&str, Option<&str>)> = vec![
        ("rssurl", None),
        ("url", None),
        ("title", None),
        ("lastmodified", None),
        ("is_rtl", Some("1")),
        ("etag", None),
    ];
    let f = Feed::from_tuple_array(&row);
    assert_eq!(f.is_rtl, Some(true));
    assert_eq!(f.rssurl, None);
    assert_eq!(f.lastmodified, None);
}

#[test]
fn item_row_maps_columns_in_table_order() {
    let row: Vec<(&str, Option<&str>)> = vec![
        ("id", Some("42")),
        ("guid", Some("g-1")),
        ("title", Some("A post")),
        ("author", Some("someone")),
        ("url", Some("https://example.com/a")),
        ("feedurl", Some("https://example.com/rss.xml")),
        ("pubdate", Some("-5")),
        ("content", Some("body")),
        ("unread", Some("0")),
        ("enclosure_url", None),
        ("enclosure_type", None),
        ("enqueued", None),
        ("flags", None),
        ("deleted", Some("1")),
        ("base", None),
    ];
    let it = FeedItem::from_tuple_array(&row);
    assert_eq!(it.id, Some(42));
    assert_eq!(it.guid.as_deref(), Some("g-1"));
    assert_eq!(it.title.as_deref(), Some("A post"));
    assert_eq!(it.author.as_deref(), Some("someone"));
    assert_eq!(it.url.as_deref(), Some("https://example.com/a"));
    assert_eq!(it.feedurl.as_deref(), Some("https://example.com/rss.xml"));
    assert_eq!(it.pubdate, Some(-5));
    assert_eq!(it.content.as_deref(), Some("body"));
    assert_eq!(it.unread, Some(true));
    assert_eq!(it.enclosure_url, None);
    assert_eq!(it.deleted, Some(true));
    assert_eq!(it.base, None);
}

#[test]
fn item_row_unread_and_deleted_compare_against_their_markers() {
    let row: Vec<(&str, Option<&str>)> = vec![
        ("id", None),
        ("guid", None),
        ("title", None),
        ("author", None),
        ("url", None),
        ("feedurl", None),
        ("pubdate", None),
        ("content", None),
        ("unread", Some("1")),
        ("enclosure_url", None),
        ("enclosure_type", None),
        ("enqueued", None),
        ("flags", None),
        ("deleted", Some("0")),
        ("base", None),
    ];
    let it = FeedItem::from_tuple_array(&row);
    assert_eq!(it.unread, Some(false));
    assert_eq!(it.deleted, Some(false));
}

#[test]
fn parses_signed_and_unsigned_decimals() {
    assert_eq!(parse_i64("0"), 0);
    assert_eq!(parse_i64("1700000000"), 1700000000);
    assert_eq!(parse_i64("-5"), -5);
    assert_eq!(parse_i64("+7"), 7);
    assert_eq!(parse_i64("9223372036854775807"), i64::MAX);
    assert_eq!(parse_i64("-9223372036854775808"), i64::MIN);
    assert_eq!(parse_u32("42"), 42);
    assert_eq!(parse_u32("0"), 0);
    assert_eq!(parse_u32("4294967295"), u32::MAX);
}
