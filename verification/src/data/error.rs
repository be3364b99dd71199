//! Errors of the shared data types.

use vstd::prelude::*;

verus! {

/// An error in the textual form of a value.
#[derive(Debug, Clone, Copy, PartialEq, Eq)]
pub enum Error {
    /// The text has the wrong shape; the message says which part.
    InvalidStringFormat(&'static str),
}

impl Error {
    /// The error's message: `invalid string format: ` and the part that is
    /// wrong.
    pub fn to_string(&self) -> (res: String)
        ensures
            match self {
                Error::InvalidStringFormat(m) => res@ == "invalid string format: "@ + m@,
            },
    {
        match self {
            Error::InvalidStringFormat(m) => {
                let mut s = "invalid string format: ".to_owned();
                s.append(m);
                s
            },
        }
    }
}

} // verus!
