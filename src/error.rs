use vstd::prelude::*;

verus! {

/// An error with a message for the user.
#[derive(Debug)]
pub struct GManError {
    pub details: String,
}

impl GManError {
    pub fn new(msg: &str) -> (r: GManError)
        ensures
            r.details@ == msg@,
    {
        GManError { details: String::from_str(msg) }
    }
}

} // verus!
