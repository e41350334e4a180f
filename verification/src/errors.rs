//! The error taxonomy: every failure in the core is recovered locally.

use vstd::prelude::*;
use vstd::string::StringExecFns;

verus! {

/// A store failure: a row that could not be written, or one that could not
/// be decoded during a scan.
#[derive(Clone, Copy, Debug, PartialEq, Eq, Structural)]
pub enum DBError {
    InsertionError,
    ExtractionError,
}

impl DBError {
    /// The diagnostic line for this error.
    pub fn describe(&self) -> (r: String)
        ensures
            *self == DBError::InsertionError ==> r@ == "Failed to insert element into DB"@,
            *self == DBError::ExtractionError ==> r@ == "Failed to extract elements from DB"@,
    {
        match self {
            DBError::InsertionError => String::from_str("Failed to insert element into DB"),
            DBError::ExtractionError => String::from_str("Failed to extract elements from DB"),
        }
    }
}

/// An export failure: the destination artifact could not be written.
#[derive(Clone, Copy, Debug, PartialEq, Eq, Structural)]
pub enum ExportError {
    IOError,
}

} // verus!
