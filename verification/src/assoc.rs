//! Association of items with their owning feed. The stored owning-feed URL
//! is matched by substring containment against both feed URL fields, on
//! purpose: the two stores normalize URLs differently (scheme, trailing
//! slash), and containment tolerates that drift.

use vstd::prelude::*;

use crate::feed::Feed;
use crate::feeditem::FeedItem;
use crate::strutil::contains_sub;
use crate::strutil::has_sub;
use crate::strutil::opt_chars;

verus! {

/// The feed's two URL fields are present, as processing a feed requires.
pub open spec fn feed_urls_present(feed: Feed) -> bool {
    feed.url is Some && feed.rssurl is Some
}

/// The item's stored owning-feed URL contains the feed's site URL or its
/// subscription URL as a substring.
pub open spec fn item_matches_feed(item: FeedItem, feed: Feed) -> bool {
    ||| has_sub(opt_chars(item.feedurl), opt_chars(feed.url))
    ||| has_sub(opt_chars(item.feedurl), opt_chars(feed.rssurl))
}

/// The items of `items` that belong to `feed`, in their original order.
pub open spec fn matching_items(feed: Feed, items: Seq<FeedItem>) -> Seq<FeedItem>
    decreases items.len(),
{
    if items.len() == 0 {
        Seq::empty()
    } else {
        (if item_matches_feed(items[0], feed) {
            seq![items[0]]
        } else {
            Seq::empty()
        }) + matching_items(feed, items.subrange(1, items.len() as int))
    }
}

/// Selects the items that belong to `feed`: exactly those whose stored
/// owning-feed URL contains one of the feed's URLs, keeping their order.
pub fn items_for(feed: &Feed, items: &Vec<FeedItem>) -> (r: Vec<FeedItem>)
    requires
        feed_urls_present(*feed),
        forall|i: int| 0 <= i < items@.len() ==> (#[trigger] items@[i]).feedurl is Some,
    ensures
        r@ == matching_items(*feed, items@),
{
    let n = items.len();
    let mut out: Vec<FeedItem> = Vec::new();
    let mut i: usize = 0;
    proof {
        assert(items@.subrange(0, n as int) =~= items@);
        assert(out@ + matching_items(*feed, items@) =~= matching_items(*feed, items@));
    }
    while i < n
        invariant
            n == items@.len(),
            0 <= i <= n,
            feed_urls_present(*feed),
            forall|j: int| 0 <= j < items@.len() ==> (#[trigger] items@[j]).feedurl is Some,
            matching_items(*feed, items@) == out@ + matching_items(
                *feed,
                items@.subrange(i as int, n as int),
            ),
        decreases n - i,
    {
        let ghost prev_out = out@;
        let ghost suf = items@.subrange(i as int, n as int);
        let ghost suf1 = items@.subrange(i + 1, n as int);
        proof {
            assert(suf[0] == items@[i as int]);
            assert(suf.subrange(1, suf.len() as int) =~= suf1);
        }
        let fu = match &items[i].feedurl {
            Some(u) => u,
            None => {
                proof {
                    assert(items@[i as int].feedurl is Some);
                }
                unreached()
            },
        };
        let site_match = match &feed.url {
            Some(u) => contains_sub(fu.as_str(), u.as_str()),
            None => unreached(),
        };
        let sub_match = match &feed.rssurl {
            Some(u) => contains_sub(fu.as_str(), u.as_str()),
            None => unreached(),
        };
        if site_match || sub_match {
            out.push(items[i].clone());
            proof {
                assert(out@ =~= prev_out + seq![items@[i as int]]);
            }
        }
        proof {
            assert(out@ + matching_items(*feed, suf1) =~= prev_out + matching_items(*feed, suf));
        }
        i = i + 1;
    }
    proof {
        assert(items@.subrange(n as int, n as int) =~= Seq::<FeedItem>::empty());
    }
    out
}

} // verus!
