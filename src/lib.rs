//! A declarative test harness for WebAssembly modules: a typed test plan is
//! read from a document tree, literals are coerced into machine values,
//! exported functions are invoked and their results compared bit for bit.
use vstd::prelude::*;

pub mod cli;
pub mod doc;
pub mod engine;
pub mod error;
pub mod parser;
pub mod values;

verus! {

} // verus!
