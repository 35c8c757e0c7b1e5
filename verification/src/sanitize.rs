//! Turning an arbitrary title into a filesystem-safe path segment.
//!
//! The transform runs in three passes: a character map (spaces and a few
//! separators become hyphens, unsafe punctuation is deleted), a collapse of
//! hyphen runs to a single hyphen, and the removal of a hyphen that stands
//! directly before a dot. The composition is idempotent, which
//! `lemma_sanitize_idempotent` proves.

use vstd::prelude::*;

use crate::strutil::chars_to_string;

verus! {

/// Characters deleted outright: punctuation that is unsafe or noisy in a
/// path segment, including the common smart-quote variants and the ellipsis.
pub open spec fn is_removed(c: char) -> bool {
    ||| c == ','
    ||| c == ':'
    ||| c == '('
    ||| c == ')'
    ||| c == '\''
    ||| c == '*'
    ||| c == '|'
    ||| c == ';'
    ||| c == '`'
    ||| c == '"'
    ||| c == '<'
    ||| c == '>'
    ||| c == '&'
    ||| c == '$'
    ||| c == '\u{2018}'
    ||| c == '\u{2019}'
    ||| c == '\u{201C}'
    ||| c == '\u{201D}'
    ||| c == '\u{2026}'
}

/// Characters replaced by a hyphen: the space and the separators that would
/// otherwise split or nest the path.
pub open spec fn to_hyphen(c: char) -> bool {
    c == ' ' || c == '!' || c == '/'
}

/// What one input character contributes to the mapped output.
pub open spec fn map_char(c: char) -> Seq<char> {
    if is_removed(c) {
        Seq::empty()
    } else if to_hyphen(c) {
        seq!['-']
    } else {
        seq![c]
    }
}

/// First pass: every character mapped through `map_char`.
pub open spec fn pass1(s: Seq<char>) -> Seq<char>
    decreases s.len(),
{
    if s.len() == 0 {
        Seq::empty()
    } else {
        map_char(s[0]) + pass1(s.subrange(1, s.len() as int))
    }
}

/// Second pass: a run of hyphens keeps only its last hyphen.
pub open spec fn collapse(s: Seq<char>) -> Seq<char>
    decreases s.len(),
{
    if s.len() == 0 {
        Seq::empty()
    } else if s.len() >= 2 && s[0] == '-' && s[1] == '-' {
        collapse(s.subrange(1, s.len() as int))
    } else {
        seq![s[0]] + collapse(s.subrange(1, s.len() as int))
    }
}

/// Third pass: a hyphen directly before a dot is dropped.
pub open spec fn fixdot(s: Seq<char>) -> Seq<char>
    decreases s.len(),
{
    if s.len() == 0 {
        Seq::empty()
    } else if s.len() >= 2 && s[0] == '-' && s[1] == '.' {
        fixdot(s.subrange(1, s.len() as int))
    } else {
        seq![s[0]] + fixdot(s.subrange(1, s.len() as int))
    }
}

/// The whole sanitizing transform on character sequences.
pub open spec fn sanitize_spec(s: Seq<char>) -> Seq<char> {
    fixdot(collapse(pass1(s)))
}

/// No two adjacent hyphens anywhere in `s`.
pub open spec fn no_double_hyphen(s: Seq<char>) -> bool {
    forall|i: int| 0 <= i && i + 1 < s.len() ==> !((#[trigger] s[i]) == '-' && s[i + 1] == '-')
}

/// No hyphen directly followed by a dot anywhere in `s`.
pub open spec fn no_hyphen_dot(s: Seq<char>) -> bool {
    forall|i: int| 0 <= i && i + 1 < s.len() ==> !((#[trigger] s[i]) == '-' && s[i + 1] == '.')
}

/// The character survives the first pass unchanged.
pub open spec fn keeps_self(c: char) -> bool {
    map_char(c) == seq![c]
}

/// Every character of `s` survives the first pass unchanged.
pub open spec fn all_keep(s: Seq<char>) -> bool {
    forall|i: int| 0 <= i < s.len() ==> keeps_self(s[i])
}

proof fn lemma_pass1_id(s: Seq<char>)
    requires
        all_keep(s),
    ensures
        pass1(s) == s,
    decreases s.len(),
{
    if s.len() == 0 {
        assert(pass1(s) =~= s);
    } else {
        let rest = s.subrange(1, s.len() as int);
        assert(forall|i: int| 0 <= i < rest.len() ==> rest[i] == s[i + 1]);
        lemma_pass1_id(rest);
        assert(keeps_self(s[0]));
        assert(pass1(s) =~= s);
    }
}

proof fn lemma_pass1_all_keep(s: Seq<char>)
    ensures
        all_keep(pass1(s)),
    decreases s.len(),
{
    if s.len() == 0 {
    } else {
        let rest = s.subrange(1, s.len() as int);
        lemma_pass1_all_keep(rest);
        let head = map_char(s[0]);
        assert(forall|i: int| 0 <= i < head.len() ==> keeps_self(head[i])) by {
            if is_removed(s[0]) {
            } else if to_hyphen(s[0]) {
                assert(map_char('-') =~= seq!['-']);
            } else {
                assert(map_char(s[0]) =~= seq![s[0]]);
            }
        }
        assert forall|i: int| 0 <= i < pass1(s).len() implies keeps_self(pass1(s)[i]) by {
            if i < head.len() {
                assert(pass1(s)[i] == head[i]);
            } else {
                assert(pass1(s)[i] == pass1(rest)[i - head.len()]);
            }
        }
    }
}

proof fn lemma_collapse_all_keep(s: Seq<char>)
    requires
        all_keep(s),
    ensures
        all_keep(collapse(s)),
    decreases s.len(),
{
    if s.len() == 0 {
    } else {
        let rest = s.subrange(1, s.len() as int);
        assert(forall|i: int| 0 <= i < rest.len() ==> rest[i] == s[i + 1]);
        lemma_collapse_all_keep(rest);
        if s.len() >= 2 && s[0] == '-' && s[1] == '-' {
        } else {
            assert forall|i: int| 0 <= i < collapse(s).len() implies keeps_self(collapse(s)[i]) by {
                if i == 0 {
                    assert(collapse(s)[0] == s[0]);
                } else {
                    assert(collapse(s)[i] == collapse(rest)[i - 1]);
                }
            }
        }
    }
}

proof fn lemma_fixdot_all_keep(s: Seq<char>)
    requires
        all_keep(s),
    ensures
        all_keep(fixdot(s)),
    decreases s.len(),
{
    if s.len() == 0 {
    } else {
        let rest = s.subrange(1, s.len() as int);
        assert(forall|i: int| 0 <= i < rest.len() ==> rest[i] == s[i + 1]);
        lemma_fixdot_all_keep(rest);
        if s.len() >= 2 && s[0] == '-' && s[1] == '.' {
        } else {
            assert forall|i: int| 0 <= i < fixdot(s).len() implies keeps_self(fixdot(s)[i]) by {
                if i == 0 {
                    assert(fixdot(s)[0] == s[0]);
                } else {
                    assert(fixdot(s)[i] == fixdot(rest)[i - 1]);
                }
            }
        }
    }
}

/// When the first character is not a hyphen, `collapse` keeps it in front.
proof fn lemma_collapse_head(s: Seq<char>)
    requires
        s.len() > 0,
        s[0] != '-',
    ensures
        collapse(s).len() > 0,
        collapse(s)[0] == s[0],
{
}

/// When the first character is not a hyphen, `fixdot` keeps it in front.
proof fn lemma_fixdot_head(s: Seq<char>)
    requires
        s.len() > 0,
        s[0] != '-',
    ensures
        fixdot(s).len() > 0,
        fixdot(s)[0] == s[0],
{
}

proof fn lemma_collapse_no_double(s: Seq<char>)
    ensures
        no_double_hyphen(collapse(s)),
    decreases s.len(),
{
    if s.len() == 0 {
    } else {
        let rest = s.subrange(1, s.len() as int);
        lemma_collapse_no_double(rest);
        if s.len() >= 2 && s[0] == '-' && s[1] == '-' {
        } else {
            let t = collapse(s);
            assert forall|i: int|
                0 <= i && i + 1 < t.len() implies !((#[trigger] t[i]) == '-' && t[i + 1]
                == '-') by {
                if i == 0 {
                    if s[0] == '-' {
                        assert(rest.len() > 0 && rest[0] == s[1] && s[1] != '-');
                        lemma_collapse_head(rest);
                        assert(t[1] == collapse(rest)[0]);
                    }
                } else {
                    assert(t[i] == collapse(rest)[i - 1]);
                    assert(t[i + 1] == collapse(rest)[i]);
                }
            }
        }
    }
}

proof fn lemma_collapse_id(s: Seq<char>)
    requires
        no_double_hyphen(s),
    ensures
        collapse(s) == s,
    decreases s.len(),
{
    if s.len() == 0 {
        assert(collapse(s) =~= s);
    } else {
        let rest = s.subrange(1, s.len() as int);
        assert(forall|i: int| 0 <= i < rest.len() ==> rest[i] == s[i + 1]);
        lemma_collapse_id(rest);
        assert(!(s.len() >= 2 && s[0] == '-' && s[1] == '-'));
        assert(collapse(s) =~= s);
    }
}

proof fn lemma_fixdot_no_pairs(s: Seq<char>)
    requires
        no_double_hyphen(s),
    ensures
        no_double_hyphen(fixdot(s)),
        no_hyphen_dot(fixdot(s)),
    decreases s.len(),
{
    if s.len() == 0 {
    } else {
        let rest = s.subrange(1, s.len() as int);
        assert(forall|i: int| 0 <= i < rest.len() ==> rest[i] == s[i + 1]);
        lemma_fixdot_no_pairs(rest);
        if s.len() >= 2 && s[0] == '-' && s[1] == '.' {
        } else {
            let t = fixdot(s);
            assert forall|i: int|
                0 <= i && i + 1 < t.len() implies !((#[trigger] t[i]) == '-' && t[i + 1] == '-')
                && !(t[i] == '-' && t[i + 1] == '.') by {
                if i == 0 {
                    if s[0] == '-' {
                        assert(s.len() >= 2);
                        assert(s[1] != '-' && s[1] != '.');
                        assert(rest.len() > 0 && rest[0] == s[1]);
                        lemma_fixdot_head(rest);
                        assert(t[1] == fixdot(rest)[0]);
                    }
                } else {
                    assert(t[i] == fixdot(rest)[i - 1]);
                    assert(t[i + 1] == fixdot(rest)[i]);
                }
            }
        }
    }
}

proof fn lemma_fixdot_id(s: Seq<char>)
    requires
        no_hyphen_dot(s),
    ensures
        fixdot(s) == s,
    decreases s.len(),
{
    if s.len() == 0 {
        assert(fixdot(s) =~= s);
    } else {
        let rest = s.subrange(1, s.len() as int);
        assert(forall|i: int| 0 <= i < rest.len() ==> rest[i] == s[i + 1]);
        lemma_fixdot_id(rest);
        assert(!(s.len() >= 2 && s[0] == '-' && s[1] == '.'));
        assert(fixdot(s) =~= s);
    }
}

/// Sanitizing is idempotent: a second application of the transform returns
/// its input unchanged.
pub proof fn lemma_sanitize_idempotent(s: Seq<char>)
    ensures
        sanitize_spec(sanitize_spec(s)) == sanitize_spec(s),
{
    let p = pass1(s);
    let c = collapse(p);
    let t = fixdot(c);
    lemma_pass1_all_keep(s);
    lemma_collapse_all_keep(p);
    lemma_fixdot_all_keep(c);
    lemma_pass1_id(t);
    lemma_collapse_no_double(p);
    lemma_fixdot_no_pairs(c);
    lemma_collapse_id(t);
    lemma_fixdot_id(t);
}

/// Exec mirror of `is_removed`.
fn removed_char(c: char) -> (r: bool)
    ensures
        r == is_removed(c),
{
    c == ',' || c == ':' || c == '(' || c == ')' || c == '\'' || c == '*' || c == '|' || c == ';'
        || c == '`' || c == '"' || c == '<' || c == '>' || c == '&' || c == '$' || c == '\u{2018}'
        || c == '\u{2019}' || c == '\u{201C}' || c == '\u{201D}' || c == '\u{2026}'
}

/// Exec mirror of `to_hyphen`.
fn hyphen_char(c: char) -> (r: bool)
    ensures
        r == to_hyphen(c),
{
    c == ' ' || c == '!' || c == '/'
}

fn pass1_exec(s: &str) -> (r: Vec<char>)
    ensures
        r@ == pass1(s@),
{
    let len = s.unicode_len();
    let mut out: Vec<char> = Vec::new();
    let mut i: usize = 0;
    proof {
        assert(s@.subrange(0, len as int) =~= s@);
        assert(out@ + pass1(s@) =~= pass1(s@));
    }
    while i < len
        invariant
            len == s@.len(),
            0 <= i <= len,
            pass1(s@) == out@ + pass1(s@.subrange(i as int, len as int)),
        decreases len - i,
    {
        let c = s.get_char(i);
        let ghost prev = out@;
        let ghost suf = s@.subrange(i as int, len as int);
        let ghost suf1 = s@.subrange(i + 1, len as int);
        if hyphen_char(c) {
            out.push('-');
        } else if removed_char(c) {
        } else {
            out.push(c);
        }
        proof {
            assert(suf[0] == c);
            assert(suf.subrange(1, suf.len() as int) =~= suf1);
            assert(pass1(suf) == map_char(c) + pass1(suf1));
            assert(out@ =~= prev + map_char(c));
            assert(out@ + pass1(suf1) =~= prev + pass1(suf));
        }
        i = i + 1;
    }
    proof {
        assert(s@.subrange(len as int, len as int) =~= Seq::<char>::empty());
        assert(out@ =~= out@ + pass1(s@.subrange(len as int, len as int)));
    }
    out
}

fn collapse_exec(v: &Vec<char>) -> (r: Vec<char>)
    ensures
        r@ == collapse(v@),
{
    let len = v.len();
    let mut out: Vec<char> = Vec::new();
    let mut i: usize = 0;
    proof {
        assert(v@.subrange(0, len as int) =~= v@);
        assert(out@ + collapse(v@) =~= collapse(v@));
    }
    while i < len
        invariant
            len == v@.len(),
            0 <= i <= len,
            collapse(v@) == out@ + collapse(v@.subrange(i as int, len as int)),
        decreases len - i,
    {
        let c = v[i];
        let dropped = c == '-' && i + 1 < len && v[i + 1] == '-';
        let ghost prev = out@;
        let ghost suf = v@.subrange(i as int, len as int);
        let ghost suf1 = v@.subrange(i + 1, len as int);
        if !dropped {
            out.push(c);
        }
        proof {
            assert(suf[0] == c);
            if i + 1 < len {
                assert(suf[1] == v@[i + 1]);
            }
            assert(suf.subrange(1, suf.len() as int) =~= suf1);
            assert(dropped == (suf.len() >= 2 && suf[0] == '-' && suf[1] == '-'));
            if dropped {
                assert(collapse(suf) == collapse(suf1));
            } else {
                assert(collapse(suf) == seq![c] + collapse(suf1));
                assert(out@ =~= prev + seq![c]);
            }
            assert(out@ + collapse(suf1) =~= prev + collapse(suf));
        }
        i = i + 1;
    }
    proof {
        assert(v@.subrange(len as int, len as int) =~= Seq::<char>::empty());
        assert(out@ =~= out@ + collapse(v@.subrange(len as int, len as int)));
    }
    out
}

fn fixdot_exec(v: &Vec<char>) -> (r: Vec<char>)
    ensures
        r@ == fixdot(v@),
{
    let len = v.len();
    let mut out: Vec<char> = Vec::new();
    let mut i: usize = 0;
    proof {
        assert(v@.subrange(0, len as int) =~= v@);
        assert(out@ + fixdot(v@) =~= fixdot(v@));
    }
    while i < len
        invariant
            len == v@.len(),
            0 <= i <= len,
            fixdot(v@) == out@ + fixdot(v@.subrange(i as int, len as int)),
        decreases len - i,
    {
        let c = v[i];
        let dropped = c == '-' && i + 1 < len && v[i + 1] == '.';
        let ghost prev = out@;
        let ghost suf = v@.subrange(i as int, len as int);
        let ghost suf1 = v@.subrange(i + 1, len as int);
        if !dropped {
            out.push(c);
        }
        proof {
            assert(suf[0] == c);
            if i + 1 < len {
                assert(suf[1] == v@[i + 1]);
            }
            assert(suf.subrange(1, suf.len() as int) =~= suf1);
            assert(dropped == (suf.len() >= 2 && suf[0] == '-' && suf[1] == '.'));
            if dropped {
                assert(fixdot(suf) == fixdot(suf1));
            } else {
                assert(fixdot(suf) == seq![c] + fixdot(suf1));
                assert(out@ =~= prev + seq![c]);
            }
            assert(out@ + fixdot(suf1) =~= prev + fixdot(suf));
        }
        i = i + 1;
    }
    proof {
        assert(v@.subrange(len as int, len as int) =~= Seq::<char>::empty());
        assert(out@ =~= out@ + fixdot(v@.subrange(len as int, len as int)));
    }
    out
}

/// The sanitizing transform on a string slice.
pub fn sanitize_str(s: &str) -> (r: String)
    ensures
        r@ == sanitize_spec(s@),
{
    let p = pass1_exec(s);
    let c = collapse_exec(&p);
    let t = fixdot_exec(&c);
    chars_to_string(&t)
}

/// Title strings answer for their own sanitized form.
pub trait StringExtensions: View<V = Seq<char>> {
    /// The sanitized copy of the receiver; the receiver itself is unchanged.
    fn sanitize(&mut self) -> (r: String)
        ensures
            r@ == sanitize_spec(old(self)@),
            final(self)@ == old(self)@,
    ;
}

impl StringExtensions for String {
    fn sanitize(&mut self) -> (r: String) {
        sanitize_str(self.as_str())
    }
}

} // verus!
