//! The exclusion filter: a feed whose site URL contains any entry of the
//! exclusion list is skipped whole.

use vstd::prelude::*;

use crate::strutil::contains_sub;
use crate::strutil::has_sub;

verus! {

/// Some entry of the list occurs in `url`.
pub open spec fn in_blacklist(url: Seq<char>, list: Seq<String>) -> bool {
    exists|k: int| 0 <= k < list.len() && has_sub(url, (#[trigger] list[k])@)
}

/// Whether `url` matches the exclusion list: true exactly when some entry
/// is a substring of it.
pub fn is_url_in_blacklist(url: &str, list: &[String]) -> (r: bool)
    ensures
        r == in_blacklist(url@, list@),
{
    let n = list.len();
    let mut k: usize = 0;
    while k < n
        invariant
            n == list@.len(),
            0 <= k <= n,
            forall|j: int| 0 <= j < k ==> !has_sub(url@, (#[trigger] list@[j])@),
        decreases n - k,
    {
        if contains_sub(url, list[k].as_str()) {
            return true;
        }
        k = k + 1;
    }
    false
}

} // verus!
