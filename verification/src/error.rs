//! The errors of the library.
use vstd::prelude::*;

verus! {

/// What can go wrong while opening a file or running a query. Each variant holds
/// the text of the error it stands for.
#[derive(Clone, Debug)]
pub enum DuckyError {
    /// An error reported by the database engine.
    DuckDB(String),
    /// An error reported by the operating system.
    Io(String),
    /// An error of the library itself.
    Generic(String),
}

/// The text shown for an error.
pub open spec fn error_message(e: DuckyError) -> Seq<char> {
    match e {
        DuckyError::DuckDB(s) => "DuckDB error:\n"@ + s@,
        DuckyError::Io(s) => "IO error:\n"@ + s@,
        DuckyError::Generic(s) => s@,
    }
}

impl DuckyError {
    /// The text shown for this error.
    pub fn message(&self) -> (r: String)
        ensures
            r@ == error_message(*self),
    {
        match self {
            DuckyError::DuckDB(s) => {
                let mut r = String::from_str("DuckDB error:\n");
                r.append(s.as_str());
                r
            },
            DuckyError::Io(s) => {
                let mut r = String::from_str("IO error:\n");
                r.append(s.as_str());
                r
            },
            DuckyError::Generic(s) => s.clone(),
        }
    }
}

} // verus!
