//! Substring containment on character sequences, the relation that feed
//! association, exclusion and rule matching are all built on, with a few
//! small helpers for optional strings.

use vstd::prelude::*;
use vstd::string::StringExecFns;

verus! {

/// The characters of an optional string; the empty sequence when absent.
pub open spec fn opt_chars(o: Option<String>) -> Seq<char> {
    match o {
        Option::Some(s) => s@,
        Option::None => Seq::empty(),
    }
}

/// An owned copy of an optional string.
pub fn clone_opt_string(o: &Option<String>) -> (r: Option<String>)
    ensures
        r == *o,
{
    match o {
        Option::Some(s) => Option::Some(s.clone()),
        Option::None => Option::None,
    }
}

/// An owned copy of an optional borrowed string.
pub fn opt_to_string(o: Option<&str>) -> (r: Option<String>)
    ensures
        r.deep_view() == o.deep_view(),
{
    match o {
        Option::Some(s) => Option::Some(String::from_str(s)),
        Option::None => Option::None,
    }
}

/// The needle `n` occurs in the haystack `h` starting at position `i`.
pub open spec fn matches_at(h: Seq<char>, n: Seq<char>, i: int) -> bool {
    &&& 0 <= i
    &&& i + n.len() <= h.len()
    &&& forall|j: int| 0 <= j < n.len() ==> h[i + j] == n[j]
}

/// The needle `n` occurs somewhere in the haystack `h`; the empty needle
/// occurs in every haystack.
pub open spec fn has_sub(h: Seq<char>, n: Seq<char>) -> bool {
    exists|i: int| matches_at(h, n, i)
}

/// Substring test, character by character.
pub fn contains_sub(h: &str, n: &str) -> (r: bool)
    ensures
        r == has_sub(h@, n@),
{
    let hl = h.unicode_len();
    let nl = n.unicode_len();
    if nl > hl {
        assert(forall|i: int| !matches_at(h@, n@, i));
        return false;
    }
    if nl == 0 {
        assert(matches_at(h@, n@, 0));
        return true;
    }
    let mut i: usize = 0;
    loop
        invariant
            nl == n@.len(),
            hl == h@.len(),
            1 <= nl <= hl,
            0 <= i <= hl - nl + 1,
            forall|k: int| 0 <= k < i ==> !matches_at(h@, n@, k),
        decreases hl - nl + 1 - i,
    {
        if i > hl - nl {
            assert(forall|k: int| matches_at(h@, n@, k) ==> k <= hl - nl);
            return false;
        }
        let mut j: usize = 0;
        let mut mismatch: bool = false;
        while !mismatch && j < nl
            invariant
                nl == n@.len(),
                hl == h@.len(),
                i + nl <= hl,
                0 <= j <= nl,
                mismatch ==> !matches_at(h@, n@, i as int),
                !mismatch ==> forall|q: int| 0 <= q < j ==> h@[i + q] == n@[q],
            decreases nl - j + (if mismatch { 0int } else { 1int }),
    {
            if h.get_char(i + j) != n.get_char(j) {
                assert(h@[i + j] != n@[j as int]);
                mismatch = true;
            } else {
                j = j + 1;
            }
        }
        if !mismatch {
            assert(matches_at(h@, n@, i as int));
            return true;
        }
        i = i + 1;
    }
}

/// Relies on std's `FromIterator` impl for `String`: collecting an iterator
/// of characters yields the string of exactly those characters in order.
#[verifier::external_body]
pub(crate) fn chars_to_string(v: &Vec<char>) -> (r: String)
    ensures
        r@ == v@,
{
    v.iter().collect()
}

/// The pieces of `s` split on `sep`, after the partial piece `cur` has
/// already been read: every separator ends a piece, and the final piece
/// always counts, empty or not.
pub open spec fn split_acc(s: Seq<char>, sep: char, cur: Seq<char>) -> Seq<Seq<char>>
    decreases s.len(),
{
    if s.len() == 0 {
        seq![cur]
    } else if s[0] == sep {
        seq![cur] + split_acc(s.subrange(1, s.len() as int), sep, Seq::empty())
    } else {
        split_acc(s.subrange(1, s.len() as int), sep, cur.push(s[0]))
    }
}

/// The pieces of `s` split on `sep`.
pub open spec fn split_spec(s: Seq<char>, sep: char) -> Seq<Seq<char>> {
    split_acc(s, sep, Seq::empty())
}

/// Splits `text` on the separator character, keeping empty pieces.
pub fn split_on(text: &str, sep: char) -> (r: Vec<String>)
    ensures
        r.deep_view() == split_spec(text@, sep),
{
    let len = text.unicode_len();
    let mut out: Vec<String> = Vec::new();
    let mut cur: Vec<char> = Vec::new();
    let mut i: usize = 0;
    proof {
        assert(text@.subrange(0, len as int) =~= text@);
        assert(out.deep_view() + split_spec(text@, sep) =~= split_spec(text@, sep));
    }
    while i < len
        invariant
            len == text@.len(),
            0 <= i <= len,
            split_spec(text@, sep) == out.deep_view() + split_acc(
                text@.subrange(i as int, len as int),
                sep,
                cur@,
            ),
        decreases len - i,
    {
        let c = text.get_char(i);
        let ghost prev_out = out.deep_view();
        let ghost prev_cur = cur@;
        let ghost suf = text@.subrange(i as int, len as int);
        let ghost suf1 = text@.subrange(i + 1, len as int);
        if c == sep {
            let piece = chars_to_string(&cur);
            out.push(piece);
            cur = Vec::new();
            proof {
                assert(out.deep_view() =~= prev_out + seq![prev_cur]);
            }
        } else {
            cur.push(c);
        }
        proof {
            assert(suf[0] == c);
            assert(suf.subrange(1, suf.len() as int) =~= suf1);
            if c == sep {
                assert(split_acc(suf, sep, prev_cur) == seq![prev_cur] + split_acc(
                    suf1,
                    sep,
                    Seq::empty(),
                ));
                assert(out.deep_view() + split_acc(suf1, sep, cur@) =~= prev_out + split_acc(
                    suf,
                    sep,
                    prev_cur,
                ));
            } else {
                assert(split_acc(suf, sep, prev_cur) == split_acc(suf1, sep, prev_cur.push(c)));
                assert(cur@ == prev_cur.push(c));
            }
        }
        i = i + 1;
    }
    proof {
        assert(text@.subrange(len as int, len as int) =~= Seq::<char>::empty());
    }
    let ghost prev_out = out.deep_view();
    let ghost tail = cur@;
    let piece = chars_to_string(&cur);
    out.push(piece);
    proof {
        assert(out.deep_view() =~= prev_out + seq![tail]);
    }
    out
}

/// Character-by-character string equality.
pub fn str_eq(a: &str, b: &str) -> (r: bool)
    ensures
        r == (a@ == b@),
{
    let al = a.unicode_len();
    let bl = b.unicode_len();
    if al != bl {
        return false;
    }
    let mut i: usize = 0;
    while i < al
        invariant
            al == a@.len(),
            bl == b@.len(),
            al == bl,
            0 <= i <= al,
            forall|j: int| 0 <= j < i ==> a@[j] == b@[j],
        decreases al - i,
    {
        if a.get_char(i) != b.get_char(i) {
            return false;
        }
        i = i + 1;
    }
    assert(a@ =~= b@);
    true
}

} // verus!
