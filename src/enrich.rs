use vstd::prelude::*;
use vstd::string::{StrSliceExecFns, StringExecFns};

verus! {

/// The name recorded for a process whose metadata file could not be read.
pub open spec fn unknown_name() -> Seq<char> {
    "file not found"@
}

/// The process name given the contents of its `comm` entry, if it could be
/// read: the contents without their trailing newline, or the sentinel
/// "file not found".
pub open spec fn spec_process_name(comm: Option<Seq<char>>) -> Seq<char> {
    match comm {
        Some(c) => if c.len() > 0 && c.last() == '\n' {
            c.drop_last()
        } else {
            c
        },
        None => unknown_name(),
    }
}

/// Builds a process name from the contents of its `comm` entry (`None`
/// when the entry could not be read).
pub fn process_name(comm: Option<String>) -> (r: String)
    ensures
        r@ == spec_process_name(
            match comm {
                Some(c) => Some(c@),
                None => None,
            },
        ),
{
    match comm {
        Some(c) => {
            let s = c.as_str();
            let n = s.unicode_len();
            if n > 0 && s.get_char(n - 1) == '\n' {
                String::from_str(s.substring_char(0, n - 1))
            } else {
                c
            }
        },
        None => {
            proof {
                reveal_strlit("file not found");
            }
            String::from_str("file not found")
        },
    }
}

} // verus!
