use vstd::prelude::*;

verus! {

/// What the command line asks for: the path of the test plan.
pub struct Config {
    pub path: String,
}

} // verus!
