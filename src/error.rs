use vstd::prelude::*;

verus! {

/// A build or decode error, carrying a static description.
#[derive(Debug, Clone, Copy)]
pub struct Error {
    pub description: &'static str,
}

impl Error {
    pub fn new(description: &'static str) -> (r: Error)
        ensures
            r.description == description,
    {
        Error { description }
    }

    /// The text that describes this error.
    pub fn description(&self) -> (r: &'static str)
        ensures
            r == self.description,
    {
        self.description
    }
}

impl From<&'static str> for Error {
    fn from(description: &'static str) -> (r: Error) {
        Error { description }
    }
}

impl vstd::std_specs::convert::FromSpecImpl<&'static str> for Error {
    open spec fn obeys_from_spec() -> bool {
        true
    }

    open spec fn from_spec(description: &'static str) -> Error {
        Error { description }
    }
}

} // verus!
