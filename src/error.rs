use vstd::prelude::*;

verus! {

/// Every failure that reading an archive can report.
#[derive(Clone, Copy, PartialEq, Eq, Debug, Structural)]
pub enum Error {
    /// The source could not be read or its format was not recognized.
    Open,
    /// The engine reported a failure while producing an entry's content.
    Engine,
    /// The name decoder could not decode an entry's name.
    Encoding,
    /// The engine could not produce a name for the entry at all.
    InvalidData,
    /// A lookup by path reached the end of the archive without a match.
    NotFound,
}

impl Error {
    /// A short description of the failure.
    pub fn message(&self) -> (r: &'static str)
        ensures
            r@ == match *self {
                Error::Open => "archive could not be opened"@,
                Error::Engine => "archive engine reported a failure"@,
                Error::Encoding => "failed to decode entry name"@,
                Error::InvalidData => "archive entry contains invalid name"@,
                Error::NotFound => "entry not found in archive"@,
            },
    {
        match self {
            Error::Open => "archive could not be opened",
            Error::Engine => "archive engine reported a failure",
            Error::Encoding => "failed to decode entry name",
            Error::InvalidData => "archive entry contains invalid name",
            Error::NotFound => "entry not found in archive",
        }
    }
}

} // verus!
