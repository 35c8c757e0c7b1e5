//! Parsing of the two configuration files: the exclusion list (one substring
//! per line) and the rule list (three fields per line, separated by `|`;
//! lines with any other field count are dropped).
//!
//! The callers hand over the file's text, already read; a missing file is
//! `None` and degrades to an empty list, as does an empty path.

use vstd::prelude::*;

use crate::setting::Setting;
use crate::setting::SettingView;
use crate::strutil::chars_to_string;
use crate::strutil::split_on;
use crate::strutil::split_spec;

verus! {

/// A line with a trailing carriage return loses it, as reading a text file
/// line by line would drop it before the newline.
pub open spec fn strip_cr(line: Seq<char>) -> Seq<char> {
    if line.len() > 0 && line.last() == '\r' {
        line.drop_last()
    } else {
        line
    }
}

/// The lines of `s` after the partial line `cur` has already been read:
/// a newline ends a line (its carriage return stripped), and a non-empty
/// final line without a newline still counts.
pub open spec fn lines_acc(s: Seq<char>, cur: Seq<char>) -> Seq<Seq<char>>
    decreases s.len(),
{
    if s.len() == 0 {
        if cur.len() == 0 {
            Seq::empty()
        } else {
            seq![cur]
        }
    } else if s[0] == '\n' {
        seq![strip_cr(cur)] + lines_acc(s.subrange(1, s.len() as int), Seq::empty())
    } else {
        lines_acc(s.subrange(1, s.len() as int), cur.push(s[0]))
    }
}

/// The lines of a file's text.
pub open spec fn split_lines_spec(s: Seq<char>) -> Seq<Seq<char>> {
    lines_acc(s, Seq::empty())
}

/// The `|`-separated fields of a rule line; every separator ends a field,
/// and the final field always counts, empty or not.
pub open spec fn split_fields_spec(s: Seq<char>) -> Seq<Seq<char>> {
    split_spec(s, '|')
}

/// The rule written on a well-formed line: tool, URL matcher, arguments.
pub open spec fn setting_of_fields(f: Seq<Seq<char>>) -> SettingView {
    SettingView { cmd: f[0], url: f[1], args: f[2] }
}

/// The rules read from a sequence of lines, in file order; a line without
/// exactly three fields contributes nothing.
pub open spec fn settings_of_lines(lines: Seq<Seq<char>>) -> Seq<SettingView>
    decreases lines.len(),
{
    if lines.len() == 0 {
        Seq::empty()
    } else {
        (if split_fields_spec(lines[0]).len() == 3 {
            seq![setting_of_fields(split_fields_spec(lines[0]))]
        } else {
            Seq::empty()
        }) + settings_of_lines(lines.subrange(1, lines.len() as int))
    }
}

/// Splits a file's text into its lines.
pub fn split_lines(content: &str) -> (r: Vec<String>)
    ensures
        r.deep_view() == split_lines_spec(content@),
{
    let len = content.unicode_len();
    let mut out: Vec<String> = Vec::new();
    let mut cur: Vec<char> = Vec::new();
    let mut i: usize = 0;
    proof {
        assert(content@.subrange(0, len as int) =~= content@);
        assert(out.deep_view() + split_lines_spec(content@) =~= split_lines_spec(content@));
    }
    while i < len
        invariant
            len == content@.len(),
            0 <= i <= len,
            split_lines_spec(content@) == out.deep_view() + lines_acc(
                content@.subrange(i as int, len as int),
                cur@,
            ),
        decreases len - i,
    {
        let c = content.get_char(i);
        let ghost prev_out = out.deep_view();
        let ghost prev_cur = cur@;
        let ghost suf = content@.subrange(i as int, len as int);
        let ghost suf1 = content@.subrange(i + 1, len as int);
        if c == '\n' {
            if cur.len() > 0 && cur[cur.len() - 1] == '\r' {
                cur.pop();
            }
            proof {
                assert(cur@ =~= strip_cr(prev_cur));
            }
            let line = chars_to_string(&cur);
            out.push(line);
            cur = Vec::new();
            proof {
                assert(out.deep_view() =~= prev_out + seq![strip_cr(prev_cur)]);
            }
        } else {
            cur.push(c);
        }
        proof {
            assert(suf[0] == c);
            assert(suf.subrange(1, suf.len() as int) =~= suf1);
            if c == '\n' {
                assert(lines_acc(suf, prev_cur) == seq![strip_cr(prev_cur)] + lines_acc(
                    suf1,
                    Seq::empty(),
                ));
                assert(out.deep_view() + lines_acc(suf1, cur@) =~= prev_out + lines_acc(
                    suf,
                    prev_cur,
                ));
            } else {
                assert(lines_acc(suf, prev_cur) == lines_acc(suf1, prev_cur.push(c)));
                assert(cur@ == prev_cur.push(c));
            }
        }
        i = i + 1;
    }
    proof {
        assert(content@.subrange(len as int, len as int) =~= Seq::<char>::empty());
    }
    if cur.len() > 0 {
        let ghost prev_out = out.deep_view();
        let ghost tail = cur@;
        let line = chars_to_string(&cur);
        out.push(line);
        proof {
            assert(out.deep_view() =~= prev_out + seq![tail]);
        }
    } else {
        proof {
            assert(out.deep_view() + lines_acc(Seq::empty(), cur@) =~= out.deep_view());
        }
    }
    out
}

/// Splits a rule line into its `|`-separated fields.
pub fn split_fields(line: &str) -> (r: Vec<String>)
    ensures
        r.deep_view() == split_fields_spec(line@),
{
    split_on(line, '|')
}

/// The exclusion list: the lines of the exclusion file. An empty path or a
/// missing file yields the empty list.
pub fn get_blacklist(fpath: &str, content: Option<&str>) -> (r: Vec<String>)
    ensures
        fpath@.len() == 0 ==> r.deep_view() == Seq::<Seq<char>>::empty(),
        fpath@.len() > 0 && content is None ==> r.deep_view() == Seq::<Seq<char>>::empty(),
        fpath@.len() > 0 ==> (content matches Some(c) ==> r.deep_view() == split_lines_spec(c@)),
{
    if fpath.unicode_len() == 0 {
        let r: Vec<String> = Vec::new();
        proof {
            assert(r.deep_view() =~= Seq::<Seq<char>>::empty());
        }
        return r;
    }
    match content {
        Some(c) => split_lines(c),
        None => {
            let r: Vec<String> = Vec::new();
            proof {
                assert(r.deep_view() =~= Seq::<Seq<char>>::empty());
            }
            r
        },
    }
}

/// The rule list: one rule per well-formed line of the rule file, in file
/// order. An empty path or a missing file yields the empty list.
pub fn get_settings(fpath: &str, content: Option<&str>) -> (r: Vec<Setting>)
    ensures
        fpath@.len() == 0 ==> r.deep_view() == Seq::<SettingView>::empty(),
        fpath@.len() > 0 && content is None ==> r.deep_view() == Seq::<SettingView>::empty(),
        fpath@.len() > 0 ==> (content matches Some(c) ==> r.deep_view() == settings_of_lines(
            split_lines_spec(c@),
        )),
{
    if fpath.unicode_len() == 0 {
        let r: Vec<Setting> = Vec::new();
        proof {
            assert(r.deep_view() =~= Seq::<SettingView>::empty());
        }
        return r;
    }
    let c = match content {
        Some(c) => c,
        None => {
            let r: Vec<Setting> = Vec::new();
            proof {
                assert(r.deep_view() =~= Seq::<SettingView>::empty());
            }
            return r;
        },
    };
    let lines = split_lines(c);
    let n = lines.len();
    let ghost all_lines = lines.deep_view();
    let mut out: Vec<Setting> = Vec::new();
    let mut i: usize = 0;
    proof {
        assert(all_lines.subrange(0, n as int) =~= all_lines);
        assert(out.deep_view() + settings_of_lines(all_lines) =~= settings_of_lines(all_lines));
    }
    while i < n
        invariant
            n == lines@.len(),
            all_lines == lines.deep_view(),
            0 <= i <= n,
            settings_of_lines(all_lines) == out.deep_view() + settings_of_lines(
                all_lines.subrange(i as int, n as int),
            ),
        decreases n - i,
    {
        let ghost prev_out = out.deep_view();
        let ghost suf = all_lines.subrange(i as int, n as int);
        let ghost suf1 = all_lines.subrange(i + 1, n as int);
        let mut fields = split_fields(lines[i].as_str());
        proof {
            assert(all_lines[i as int] == lines@[i as int]@);
            assert(suf[0] == all_lines[i as int]);
            assert(suf.subrange(1, suf.len() as int) =~= suf1);
            assert(fields.deep_view() == split_fields_spec(suf[0]));
        }
        if fields.len() == 3 {
            let args = fields.pop().unwrap();
            let url = fields.pop().unwrap();
            let cmd = fields.pop().unwrap();
            proof {
                assert(args@ == split_fields_spec(suf[0])[2]);
                assert(url@ == split_fields_spec(suf[0])[1]);
                assert(cmd@ == split_fields_spec(suf[0])[0]);
            }
            let setting = Setting { cmd, url, args };
            out.push(setting);
            proof {
                assert(out.deep_view() =~= prev_out + seq![setting_of_fields(split_fields_spec(suf[0]))]);
            }
        }
        proof {
            assert(out.deep_view() + settings_of_lines(suf1) =~= prev_out + settings_of_lines(suf));
        }
        i = i + 1;
    }
    proof {
        assert(all_lines.subrange(n as int, n as int) =~= Seq::<Seq<char>>::empty());
    }
    out
}

} // verus!
