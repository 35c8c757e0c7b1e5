//! A cached feed item as the cache stores it.

use vstd::prelude::*;

use crate::parse::int_val;
use crate::parse::parse_i64;
use crate::parse::parse_u32;
use crate::parse::parses_to_i64;
use crate::parse::parses_to_u32;
use crate::strutil::clone_opt_string;
use crate::strutil::opt_to_string;
use crate::strutil::str_eq;

verus! {

/// One row of the item table. The archiver reads `title`, `url` (the page to
/// capture) and `feedurl` (the owning feed's URL); the rest is carried
/// through. The publication date is kept as the stored Unix timestamp.
#[derive(Debug)]
pub struct FeedItem {
    pub id: Option<u32>,
    pub guid: Option<String>,
    pub title: Option<String>,
    pub author: Option<String>,
    pub url: Option<String>,
    pub feedurl: Option<String>,
    pub pubdate: Option<i64>,
    pub content: Option<String>,
    pub unread: Option<bool>,
    pub enclosure_url: Option<String>,
    pub enclosure_type: Option<String>,
    pub enqueued: Option<String>,
    pub flags: Option<String>,
    pub deleted: Option<bool>,
    pub base: Option<String>,
}

impl Clone for FeedItem {
    fn clone(&self) -> (r: Self)
        ensures
            r == *self,
    {
        FeedItem {
            id: self.id,
            guid: clone_opt_string(&self.guid),
            title: clone_opt_string(&self.title),
            author: clone_opt_string(&self.author),
            url: clone_opt_string(&self.url),
            feedurl: clone_opt_string(&self.feedurl),
            pubdate: self.pubdate,
            content: clone_opt_string(&self.content),
            unread: self.unread,
            enclosure_url: clone_opt_string(&self.enclosure_url),
            enclosure_type: clone_opt_string(&self.enclosure_type),
            enqueued: clone_opt_string(&self.enqueued),
            flags: clone_opt_string(&self.flags),
            deleted: self.deleted,
            base: clone_opt_string(&self.base),
        }
    }
}

impl FeedItem {
    /// Builds an item from the column tuples of one row, in table order:
    /// id, guid, title, author, url, feedurl, pubdate, content, unread,
    /// enclosure_url, enclosure_type, enqueued, flags, deleted, base.
    pub fn from_tuple_array(ta: &[(&str, Option<&str>)]) -> (r: FeedItem)
        requires
            ta@.len() >= 15,
            ta@[0].1 matches Some(s) ==> parses_to_u32(s@),
            ta@[6].1 matches Some(s) ==> parses_to_i64(s@),
        ensures
            r.id is Some <==> ta@[0].1 is Some,
            ta@[0].1 matches Some(s) ==> r.id matches Some(v) && v as int == int_val(s@),
            r.guid.deep_view() == ta@[1].1.deep_view(),
            r.title.deep_view() == ta@[2].1.deep_view(),
            r.author.deep_view() == ta@[3].1.deep_view(),
            r.url.deep_view() == ta@[4].1.deep_view(),
            r.feedurl.deep_view() == ta@[5].1.deep_view(),
            r.pubdate is Some <==> ta@[6].1 is Some,
            ta@[6].1 matches Some(s) ==> r.pubdate matches Some(v) && v as int == int_val(s@),
            r.content.deep_view() == ta@[7].1.deep_view(),
            r.unread is Some <==> ta@[8].1 is Some,
            ta@[8].1 matches Some(s) ==> r.unread matches Some(b) && b == (s@ == "0"@),
            r.enclosure_url.deep_view() == ta@[9].1.deep_view(),
            r.enclosure_type.deep_view() == ta@[10].1.deep_view(),
            r.enqueued.deep_view() == ta@[11].1.deep_view(),
            r.flags.deep_view() == ta@[12].1.deep_view(),
            r.deleted is Some <==> ta@[13].1 is Some,
            ta@[13].1 matches Some(s) ==> r.deleted matches Some(b) && b == (s@ == "1"@),
            r.base.deep_view() == ta@[14].1.deep_view(),
    {
        let feed_item = FeedItem {
            id: match ta[0].1 {
                Some(s) => Some(parse_u32(s)),
                None => None,
            },
            guid: opt_to_string(ta[1].1),
            title: opt_to_string(ta[2].1),
            author: opt_to_string(ta[3].1),
            url: opt_to_string(ta[4].1),
            feedurl: opt_to_string(ta[5].1),
            pubdate: match ta[6].1 {
                Some(s) => Some(parse_i64(s)),
                None => None,
            },
            content: opt_to_string(ta[7].1),
            unread: match ta[8].1 {
                Some(s) => Some(str_eq(s, "0")),
                None => None,
            },
            enclosure_url: opt_to_string(ta[9].1),
            enclosure_type: opt_to_string(ta[10].1),
            enqueued: opt_to_string(ta[11].1),
            flags: opt_to_string(ta[12].1),
            deleted: match ta[13].1 {
                Some(s) => Some(str_eq(s, "1")),
                None => None,
            },
            base: opt_to_string(ta[14].1),
        };
        feed_item
    }
}

} // verus!
