//! Command-line decisions: whether a run starts by clearing the ledger, and
//! which root directory it scans.

use vstd::prelude::*;
use vstd::string::*;
use crate::text::{line_views, str_eq};

verus! {

/// `hard`, the flag that clears the ledger before scanning.
pub open spec fn hard_flag() -> Seq<char> {
    seq!['h', 'a', 'r', 'd']
}

/// `-path`, the flag that names the root directory to scan.
pub open spec fn path_flag() -> Seq<char> {
    seq!['-', 'p', 'a', 't', 'h']
}

/// `src`, the root scanned when no path is given.
pub open spec fn default_root() -> Seq<char> {
    seq!['s', 'r', 'c']
}

/// The run clears the ledger when any argument is the `hard` flag.
pub open spec fn wants_reset(args: Seq<Seq<char>>) -> bool {
    exists|i: int| 0 <= i < args.len() && args[i] == hard_flag()
}

/// The root to scan: the argument after a leading `-path` flag, else the
/// default root.
pub open spec fn chosen_root(args: Seq<Seq<char>>) -> Seq<char> {
    if args.len() > 2 && args[1] == path_flag() {
        args[2]
    } else {
        default_root()
    }
}

/// Reads the command line: whether to clear the ledger first, and the root
/// directory to scan.
pub fn parse_args(args: &Vec<String>) -> (r: (bool, String))
    ensures
        r.0 == wants_reset(line_views(args@)),
        r.1@ == chosen_root(line_views(args@)),
{
    let n = args.len();
    let mut hard = false;
    let mut j: usize = 0;
    while j < n
        invariant
            j <= n,
            n == args@.len(),
            hard == exists|t: int| 0 <= t < j && line_views(args@)[t] == hard_flag(),
        decreases n - j,
    {
        proof {
            reveal_strlit("hard");
            assert(("hard")@ =~= hard_flag());
        }
        if str_eq(args[j].as_str(), "hard") {
            proof {
                assert(line_views(args@)[j as int] == hard_flag());
            }
            hard = true;
        }
        j += 1;
    }
    proof {
        reveal_strlit("-path");
        assert(("-path")@ =~= path_flag());
        reveal_strlit("src");
        assert(("src")@ =~= default_root());
    }
    let root = if n > 2 && str_eq(args[1].as_str(), "-path") {
        args[2].clone()
    } else {
        ("src").to_owned()
    };
    (hard, root)
}

} // verus!
