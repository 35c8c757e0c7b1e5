//! The places a capture tool is looked for: each entry of a PATH-style
//! variable, joined with the program name. Whether a candidate actually
//! exists on disk is the caller's to observe.

use vstd::prelude::*;
use vstd::string::StringExecFns;

use crate::strutil::split_on;
use crate::strutil::split_spec;

verus! {

/// The candidate file paths for `program`: every `:`-separated entry of
/// `path_var`, joined with a separator and the program name, in order.
pub open spec fn candidates_spec(path_var: Seq<char>, program: Seq<char>) -> Seq<Seq<char>> {
    split_spec(path_var, ':').map_values(|e: Seq<char>| e + "/"@ + program)
}

/// Builds the candidate file paths searched for `program`.
pub fn path_candidates(path_var: &str, program: &str) -> (r: Vec<String>)
    ensures
        r.deep_view() == candidates_spec(path_var@, program@),
{
    let entries = split_on(path_var, ':');
    let n = entries.len();
    let mut out: Vec<String> = Vec::new();
    let mut i: usize = 0;
    while i < n
        invariant
            n == entries@.len(),
            entries.deep_view() == split_spec(path_var@, ':'),
            0 <= i <= n,
            out@.len() == i,
            forall|k: int|
                0 <= k < i ==> (#[trigger] out.deep_view()[k]) == entries.deep_view()[k] + "/"@
                    + program@,
        decreases n - i,
    {
        let ghost prev_out = out.deep_view();
        let mut cand = String::from_str(entries[i].as_str());
        cand.append("/");
        cand.append(program);
        proof {
            assert(cand@ == entries.deep_view()[i as int] + "/"@ + program@);
        }
        out.push(cand);
        proof {
            assert(out.deep_view() =~= prev_out.push(cand@));
        }
        i = i + 1;
    }
    proof {
        assert(out.deep_view() =~= candidates_spec(path_var@, program@));
    }
    out
}

} // verus!
