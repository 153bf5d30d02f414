//! The greeting the shell answers its front end with, to show that the two
//! can talk.

use vstd::prelude::*;

verus! {

/// The welcome line for `name`.
pub fn greet(name: &str) -> (r: String)
    ensures
        r@ == "Hello, "@ + name@ + "! Welcome to DitLoop Desktop."@,
{
    let mut r = String::from_str("Hello, ");
    r.append(name);
    r.append("! Welcome to DitLoop Desktop.");
    r
}

} // verus!
