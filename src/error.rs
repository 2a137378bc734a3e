use vstd::prelude::*;
use crate::values::Failure;

verus! {

/// One recorded failure and the function it concerns.
#[derive(Debug)]
pub struct Record {
    pub fun: String,
    pub failure: Failure,
}

/// Collects the failures of a run, in the order they were reported.
pub struct ErrorHandler {
    has_error: bool,
    errors: Vec<Record>,
}

impl View for ErrorHandler {
    /// Whether any failure was declared, and the failures recorded so far.
    type V = (bool, Seq<Record>);

    closed spec fn view(&self) -> (bool, Seq<Record>) {
        (self.has_error, self.errors@)
    }
}

impl ErrorHandler {
    /// A recorded failure always counts as an error.
    pub open spec fn wf(&self) -> bool {
        self@.1.len() > 0 ==> self@.0
    }

    /// A handler with nothing reported.
    pub fn new() -> (r: ErrorHandler)
        ensures
            r@ == (false, Seq::<Record>::empty()),
            r.wf(),
    {
        ErrorHandler { has_error: false, errors: Vec::new() }
    }

    /// Whether at least one failure, silent or not, was reported.
    pub fn has_error(&self) -> (r: bool)
        ensures
            r == self@.0,
    {
        self.has_error
    }

    /// Declares a failure for which no text is recorded.
    pub fn silent_report(&mut self)
        ensures
            final(self)@ == (true, old(self)@.1),
            final(self).wf(),
    {
        self.has_error = true;
    }

    /// Records `failure` against the function named `fun`.
    pub fn report(&mut self, fun: String, failure: Failure)
        ensures
            final(self)@ == (true, old(self)@.1.push(Record { fun, failure })),
            final(self).wf(),
    {
        self.has_error = true;
        self.errors.push(Record { fun, failure });
    }

    /// The failures recorded so far, oldest first.
    pub fn records(&self) -> (r: &Vec<Record>)
        ensures
            r@ == self@.1,
    {
        &self.errors
    }
}

} // verus!
