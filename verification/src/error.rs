use vstd::prelude::*;

verus! {

/// The recoverable error kinds of the library.
///
/// `StartupFailure` is reported by session construction and is the only
/// kind the caller is expected to treat as fatal. Every other kind is
/// recoverable: it is reported to the user and leaves the session usable.
#[derive(Debug, PartialEq, Eq)]
pub enum SqlError {
    /// The database file could not be opened, or it is physically
    /// read-only while write mode was requested.
    StartupFailure(String),
    /// The statement was empty, malformed, or rejected by the engine;
    /// carries the diagnostic message verbatim.
    QueryError(String),
    /// A mutating statement was attempted on a read-only session.
    ReadOnlyViolation,
    /// A page index past the end of a selection was requested.
    PageOutOfRange,
}

impl SqlError {
    /// The text shown to the user for this error.
    pub open spec fn spec_message(&self) -> Seq<char> {
        match self {
            SqlError::StartupFailure(m) => m@,
            SqlError::QueryError(m) => m@,
            SqlError::ReadOnlyViolation => "Attempted a write operation on a read only database"@,
            SqlError::PageOutOfRange => "Requested page exceeds page count."@,
        }
    }

    /// Render the error as a displayable line.
    pub fn message(&self) -> (r: String)
        ensures
            r@ == self.spec_message(),
    {
        match self {
            SqlError::StartupFailure(m) => m.clone(),
            SqlError::QueryError(m) => m.clone(),
            SqlError::ReadOnlyViolation => String::from_str(
                "Attempted a write operation on a read only database",
            ),
            SqlError::PageOutOfRange => String::from_str("Requested page exceeds page count."),
        }
    }
}

} // verus!
