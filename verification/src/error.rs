//! The error the command layer surfaces: a plain message. Richer error
//! values (record and source errors) convert into it by message.

use vstd::prelude::*;

verus! {

/// A command-level error carrying its message.
#[derive(Debug, Clone)]
pub struct Error(String);

impl View for Error {
    type V = Seq<char>;

    closed spec fn view(&self) -> Seq<char> {
        self.0@
    }
}

impl Error {
    pub fn new(msg: &str) -> (r: Self)
        ensures
            r@ == msg@,
    {
        Error(msg.to_owned())
    }

    pub fn from_string(msg: String) -> (r: Self)
        ensures
            r@ == msg@,
    {
        Error(msg)
    }

    /// The message this error carries.
    pub fn message(&self) -> (r: &str)
        ensures
            r@ == self@,
    {
        self.0.as_str()
    }
}

impl PartialEq for Error {
    fn eq(&self, other: &Error) -> (r: bool) {
        self.0.eq(&other.0)
    }
}

impl vstd::std_specs::cmp::PartialEqSpecImpl for Error {
    open spec fn obeys_eq_spec() -> bool {
        true
    }

    open spec fn eq_spec(&self, other: &Error) -> bool {
        self@ == other@
    }
}

} // verus!
