//! ANSI styling for terminal output.

use vstd::prelude::*;

verus! {

/// Wrap a string in the ANSI escape codes for bold styling.
pub fn bold(s: &str) -> (r: String)
    ensures
        r@ == "\x1b[1m"@ + s@ + "\x1b[0m"@,
{
    let mut r = String::new();
    r.append("\x1b[1m");
    r.append(s);
    r.append("\x1b[0m");
    proof {
        assert(r@ =~= "\x1b[1m"@ + s@ + "\x1b[0m"@);
    }
    r
}

} // verus!
