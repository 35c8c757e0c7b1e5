//! A subscribed feed as the cache stores it.

use vstd::prelude::*;

use crate::parse::int_val;
use crate::parse::parse_i64;
use crate::parse::parses_to_i64;
use crate::strutil::opt_to_string;
use crate::strutil::str_eq;

verus! {

/// One row of the feed table. Every column is optional in the store; the
/// archiver requires `rssurl`, `url` and `title` of a feed it processes.
/// The last-modified column is kept as the stored Unix timestamp.
#[derive(Debug)]
pub struct Feed {
    pub rssurl: Option<String>,
    pub url: Option<String>,
    pub title: Option<String>,
    pub lastmodified: Option<i64>,
    pub is_rtl: Option<bool>,
    pub etag: Option<String>,
}

impl Feed {
    /// Builds a feed from the column tuples of one row, in table order:
    /// rssurl, url, title, lastmodified, is_rtl, etag.
    pub fn from_tuple_array(ta: &[(&str, Option<&str>)]) -> (r: Feed)
        requires
            ta@.len() >= 6,
            ta@[3].1 matches Some(s) ==> parses_to_i64(s@),
        ensures
            r.rssurl.deep_view() == ta@[0].1.deep_view(),
            r.url.deep_view() == ta@[1].1.deep_view(),
            r.title.deep_view() == ta@[2].1.deep_view(),
            r.lastmodified is Some <==> ta@[3].1 is Some,
            ta@[3].1 matches Some(s) ==> r.lastmodified matches Some(v) && v as int == int_val(
                s@,
            ),
            r.is_rtl is Some <==> ta@[4].1 is Some,
            ta@[4].1 matches Some(s) ==> r.is_rtl matches Some(b) && b == (s@ != "0"@),
            r.etag.deep_view() == ta@[5].1.deep_view(),
    {
        let feed = Feed {
            rssurl: opt_to_string(ta[0].1),
            url: opt_to_string(ta[1].1),
            title: opt_to_string(ta[2].1),
            lastmodified: match ta[3].1 {
                Some(s) => Some(parse_i64(s)),
                None => None,
            },
            is_rtl: match ta[4].1 {
                Some(s) => Some(!str_eq(s, "0")),
                None => None,
            },
            etag: opt_to_string(ta[5].1),
        };
        feed
    }
}

} // verus!
