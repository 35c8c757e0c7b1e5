//! Decimal integer parsing for the numeric columns of the cache rows.
//!
//! The cache hands every column over as text; the row constructors need the
//! item id and the two timestamps as machine integers. The grammar is the
//! usual one: an optional sign, then one or more decimal digits, with the
//! value required to fit the target type.

use vstd::prelude::*;

verus! {

/// `c` is a decimal digit.
pub open spec fn is_digit(c: char) -> bool {
    ||| c == '0'
    ||| c == '1'
    ||| c == '2'
    ||| c == '3'
    ||| c == '4'
    ||| c == '5'
    ||| c == '6'
    ||| c == '7'
    ||| c == '8'
    ||| c == '9'
}

/// The numeric value of one decimal digit.
pub open spec fn digit_val(c: char) -> nat {
    if c == '0' {
        0
    } else if c == '1' {
        1
    } else if c == '2' {
        2
    } else if c == '3' {
        3
    } else if c == '4' {
        4
    } else if c == '5' {
        5
    } else if c == '6' {
        6
    } else if c == '7' {
        7
    } else if c == '8' {
        8
    } else {
        9
    }
}

/// Every character of `s` is a decimal digit.
pub open spec fn all_digits(s: Seq<char>) -> bool {
    forall|i: int| 0 <= i < s.len() ==> is_digit(#[trigger] s[i])
}

/// The value of a digit string read left to right.
pub open spec fn digits_val(s: Seq<char>) -> nat
    decreases s.len(),
{
    if s.len() == 0 {
        0
    } else {
        digits_val(s.drop_last()) * 10 + digit_val(s.last())
    }
}

/// `s` has the shape of a decimal integer: an optional sign, then at least
/// one digit.
pub open spec fn int_shape(s: Seq<char>) -> bool {
    &&& s.len() >= 1
    &&& if s[0] == '-' || s[0] == '+' {
        s.len() >= 2 && all_digits(s.subrange(1, s.len() as int))
    } else {
        all_digits(s)
    }
}

/// The digits of `s`, the sign stripped.
pub open spec fn digits_part(s: Seq<char>) -> Seq<char> {
    if s.len() >= 1 && (s[0] == '-' || s[0] == '+') {
        s.subrange(1, s.len() as int)
    } else {
        s
    }
}

/// The signed value that `s` denotes.
pub open spec fn int_val(s: Seq<char>) -> int {
    if s.len() >= 1 && s[0] == '-' {
        -(digits_val(digits_part(s)) as int)
    } else {
        digits_val(digits_part(s)) as int
    }
}

/// `s` denotes a value that an `i64` can hold.
pub open spec fn parses_to_i64(s: Seq<char>) -> bool {
    int_shape(s) && i64::MIN <= int_val(s) <= i64::MAX
}

/// `s` denotes a value that a `u32` can hold.
pub open spec fn parses_to_u32(s: Seq<char>) -> bool {
    int_shape(s) && !(s[0] == '-') && int_val(s) <= u32::MAX
}

/// The value of a prefix of a digit string never exceeds the value of the
/// whole string.
proof fn lemma_digits_prefix_le(s: Seq<char>, i: int)
    requires
        0 <= i <= s.len(),
    ensures
        digits_val(s.subrange(0, i)) <= digits_val(s),
    decreases s.len() - i,
{
    if i == s.len() {
        assert(s.subrange(0, i) =~= s);
    } else {
        let p = s.subrange(0, i);
        let q = s.subrange(0, i + 1);
        assert(q.drop_last() =~= p);
        assert(digits_val(q) == digits_val(p) * 10 + digit_val(q.last()));
        lemma_digits_prefix_le(s, i + 1);
    }
}

/// The exec mirror of `digit_val`.
fn digit_of(c: char) -> (d: u8)
    requires
        is_digit(c),
    ensures
        d as nat == digit_val(c),
{
    if c == '0' {
        0
    } else if c == '1' {
        1
    } else if c == '2' {
        2
    } else if c == '3' {
        3
    } else if c == '4' {
        4
    } else if c == '5' {
        5
    } else if c == '6' {
        6
    } else if c == '7' {
        7
    } else if c == '8' {
        8
    } else {
        9
    }
}

/// Reads the digit run `s[start..]` into an accumulator.
fn parse_digits(s: &str, start: usize) -> (r: u64)
    requires
        start <= s@.len(),
        all_digits(s@.subrange(start as int, s@.len() as int)),
        digits_val(s@.subrange(start as int, s@.len() as int)) <= 0x8000_0000_0000_0000,
    ensures
        r as nat == digits_val(s@.subrange(start as int, s@.len() as int)),
{
    let len = s.unicode_len();
    let ghost d = s@.subrange(start as int, len as int);
    let mut acc: u64 = 0;
    let mut i: usize = start;
    proof {
        assert(s@.subrange(start as int, start as int) =~= d.subrange(0, 0));
    }
    while i < len
        invariant
            start <= i <= len,
            len == s@.len(),
            d == s@.subrange(start as int, len as int),
            all_digits(d),
            digits_val(d) <= 0x8000_0000_0000_0000,
            acc as nat == digits_val(d.subrange(0, i - start)),
        decreases len - i,
    {
        let c = s.get_char(i);
        proof {
            assert(d[i - start] == c);
            let p = d.subrange(0, i - start);
            let q = d.subrange(0, i + 1 - start);
            assert(q.drop_last() =~= p);
            assert(q.last() == c);
            assert(digits_val(q) == digits_val(p) * 10 + digit_val(c));
            lemma_digits_prefix_le(d, i + 1 - start);
        }
        let dv = digit_of(c);
        acc = acc * 10 + (dv as u64);
        i = i + 1;
    }
    proof {
        assert(d.subrange(0, len - start) =~= d);
    }
    acc
}

/// Reads a signed decimal integer, as the cache stores timestamps.
pub fn parse_i64(s: &str) -> (r: i64)
    requires
        parses_to_i64(s@),
    ensures
        r as int == int_val(s@),
{
    let first = s.get_char(0);
    let neg = first == '-';
    let start: usize = if first == '-' || first == '+' {
        1
    } else {
        0
    };
    proof {
        assert(digits_part(s@) == s@.subrange(start as int, s@.len() as int));
        if neg {
            assert(int_val(s@) >= i64::MIN);
            assert(digits_val(digits_part(s@)) <= 0x8000_0000_0000_0000);
        } else {
            assert(int_val(s@) <= i64::MAX);
            assert(digits_val(digits_part(s@)) <= 0x8000_0000_0000_0000);
        }
    }
    let mag = parse_digits(s, start);
    if neg {
        if mag == 0x8000_0000_0000_0000 {
            i64::MIN
        } else {
            -(mag as i64)
        }
    } else {
        mag as i64
    }
}

/// Reads an unsigned decimal integer, as the cache stores row ids.
pub fn parse_u32(s: &str) -> (r: u32)
    requires
        parses_to_u32(s@),
    ensures
        r as int == int_val(s@),
{
    let first = s.get_char(0);
    let start: usize = if first == '+' {
        1
    } else {
        0
    };
    proof {
        assert(digits_part(s@) == s@.subrange(start as int, s@.len() as int));
        assert(digits_val(digits_part(s@)) <= u32::MAX);
    }
    let mag = parse_digits(s, start);
    mag as u32
}

} // verus!
