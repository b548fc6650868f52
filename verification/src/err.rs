//! The string-carrying error used where only a message is reported.

use vstd::prelude::*;
use vstd::std_specs::convert::FromSpecImpl;

verus! {

/// An error that carries nothing but its message.
#[derive(Clone, Debug, Eq, PartialEq)]
pub struct RawStringErr {
    pub err: String,
}

impl RawStringErr {
    /// The message as a sequence of characters.
    pub open spec fn view(&self) -> Seq<char> {
        self.err@
    }

    /// The message.
    pub fn message(&self) -> (s: &str)
        ensures
            s@ == self@,
    {
        self.err.as_str()
    }
}

impl From<String> for RawStringErr {
    fn from(err: String) -> (r: RawStringErr) {
        RawStringErr { err }
    }
}

impl FromSpecImpl<String> for RawStringErr {
    open spec fn obeys_from_spec() -> bool {
        true
    }

    open spec fn from_spec(v: String) -> RawStringErr {
        RawStringErr { err: v }
    }
}

impl<'a> From<&'a str> for RawStringErr {
    /// An error with the message `err`. Two strings of the same characters
    /// are not known to be the same value, so the result is described by
    /// its characters.
    fn from(err: &'a str) -> (r: RawStringErr)
        ensures
            r@ == err@,
    {
        RawStringErr { err: err.to_owned() }
    }
}

impl<'a> FromSpecImpl<&'a str> for RawStringErr {
    open spec fn obeys_from_spec() -> bool {
        false
    }

    open spec fn from_spec(v: &'a str) -> RawStringErr {
        RawStringErr { err: choose|s: String| s@ == v@ }
    }
}

} // verus!
