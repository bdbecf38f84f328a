//! Where the interpreter's files are found.

use vstd::prelude::*;
use crate::eval::join_path;
use crate::text::{chars_of, join2, join3};

verus! {

/// Version string for the shell.
pub const VERSION: &'static str = "0.4.0";

/// The file of a given name in the home directory, if the home directory
/// is known.
pub open spec fn in_home(home: Option<Seq<char>>, name: Seq<char>) -> Option<Seq<char>> {
    match home {
        Some(dir) => Some(join_path(dir, name)),
        None => None,
    }
}

fn file_in_home(home: Option<&str>, name: &str) -> (r: Option<String>)
    ensures
        r.deep_view() == in_home(home.deep_view(), name@),
{
    match home {
        Some(dir) => {
            let v = chars_of(dir);
            if v.len() == 0 || v[v.len() - 1] == '/' {
                Some(join2(dir, name))
            } else {
                Some(join3(dir, "/", name))
            }
        },
        None => None,
    }
}

/// Return the path to the RC configuration file (~/.yafshrc), given the
/// home directory.
pub fn rc_path(home: Option<&str>) -> (r: Option<String>)
    ensures
        r.deep_view() == in_home(home.deep_view(), ".yafshrc"@),
{
    file_in_home(home, ".yafshrc")
}

/// Return the path to the history file (~/.yafsh_history), given the home
/// directory.
pub fn history_path(home: Option<&str>) -> (r: Option<String>)
    ensures
        r.deep_view() == in_home(home.deep_view(), ".yafsh_history"@),
{
    file_in_home(home, ".yafsh_history")
}

} // verus!
