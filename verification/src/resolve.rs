//! Rule resolution: an item URL is matched against the configured rules in
//! file order, and the first rule whose matcher is a substring of the URL
//! wins. No match is not an error; the caller falls back to the default
//! rule.

use vstd::prelude::*;

use crate::setting::Setting;
use crate::strutil::contains_sub;
use crate::strutil::has_sub;

verus! {

/// The first rule of `list` whose matcher occurs in `url`, if any.
pub open spec fn resolve_spec(url: Seq<char>, list: Seq<Setting>) -> Option<Setting>
    decreases list.len(),
{
    if list.len() == 0 {
        Option::None
    } else if has_sub(url, list[0].url@) {
        Option::Some(list[0])
    } else {
        resolve_spec(url, list.subrange(1, list.len() as int))
    }
}

/// Scans the rules in order and returns the first whose matcher is a
/// substring of `url`; `Err(())` when none matches.
pub fn get_setting_from_url<'a>(url: &str, list: &'a [Setting]) -> (r: Result<&'a Setting, ()>)
    ensures
        match r {
            Ok(s) => {
                &&& resolve_spec(url@, list@) == Option::Some(*s)
                &&& exists|k: int|
                    {
                        &&& 0 <= k < list@.len()
                        &&& *s == list@[k]
                        &&& has_sub(url@, (#[trigger] list@[k]).url@)
                        &&& forall|j: int| 0 <= j < k ==> !has_sub(url@, (#[trigger] list@[j]).url@)
                    }
            },
            Err(_) => {
                &&& resolve_spec(url@, list@) is None
                &&& forall|k: int| 0 <= k < list@.len() ==> !has_sub(url@, (#[trigger] list@[k]).url@)
            },
        },
{
    let n = list.len();
    let mut i: usize = 0;
    proof {
        assert(list@.subrange(0, n as int) =~= list@);
    }
    while i < n
        invariant
            n == list@.len(),
            0 <= i <= n,
            resolve_spec(url@, list@) == resolve_spec(url@, list@.subrange(i as int, n as int)),
            forall|j: int| 0 <= j < i ==> !has_sub(url@, (#[trigger] list@[j]).url@),
        decreases n - i,
    {
        let ghost suf = list@.subrange(i as int, n as int);
        let ghost suf1 = list@.subrange(i + 1, n as int);
        proof {
            assert(suf[0] == list@[i as int]);
            assert(suf.subrange(1, suf.len() as int) =~= suf1);
        }
        if contains_sub(url, list[i].url.as_str()) {
            assert(resolve_spec(url@, suf) == Option::Some(list@[i as int]));
            return Ok(&list[i]);
        }
        i = i + 1;
    }
    proof {
        assert(list@.subrange(n as int, n as int) =~= Seq::<Setting>::empty());
    }
    Err(())
}

} // verus!
