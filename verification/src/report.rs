//! The messages the program shows: usage, the normal outcomes, and the
//! ambiguity report that lists every matching file name.

use vstd::prelude::*;

use crate::resolver::strs_of;
use vstd::string::StrSliceExecFns;
use vstd::string::StringExecFns;

verus! {

/// The ambiguity report: the header line, then each file name on a line of
/// its own, indented by a tab.
pub open spec fn multi_file_error_text(names: Seq<Seq<char>>, n: int) -> Seq<char>
    decreases n,
{
    if n <= 0 {
        "Multiple matching files found, please refine your search or rename them:"@
    } else {
        multi_file_error_text(names, n - 1) + "\n\t"@ + names[n - 1]
    }
}

/// The message shown when more than one candidate survives every tie-break:
/// a header, then each matching file name for the user to refine the search.
pub fn multi_file_error(names: &Vec<String>) -> (r: String)
    ensures
        r@ == multi_file_error_text(strs_of(names@), names@.len() as int),
{
    let mut out = "Multiple matching files found, please refine your search or rename them:"
        .to_owned();
    for k in 0..names.len()
        invariant
            out@ == multi_file_error_text(strs_of(names@), k as int),
    {
        out.append("\n\t");
        out.append(names[k].as_str());
        proof {
            assert(strs_of(names@)[k as int] == names@[k as int]@);
            assert(out@ =~= multi_file_error_text(strs_of(names@), k + 1));
        }
    }
    out
}

/// The usage line shown when the argument count is wrong.
pub fn usage_message() -> (r: String)
    ensures
        r@ == "Usage: cheatsheet <name>"@,
{
    "Usage: cheatsheet <name>".to_owned()
}

/// The message shown when no candidate matches the pattern.
pub fn empty_message() -> (r: String)
    ensures
        r@ == "No matching files found"@,
{
    "No matching files found".to_owned()
}

/// The confirmation shown on success, naming the file that was opened.
pub fn opened_message(name: &str) -> (r: String)
    ensures
        r@ == "Opened "@ + name@,
{
    let mut out = "Opened ".to_owned();
    out.append(name);
    out
}

} // verus!
