//! Errors as the C side sees them.

use crate::text::concat;
use vstd::prelude::*;

verus! {

/// What kind of operation failed.
#[derive(Clone, Copy, Debug, PartialEq, Eq, Structural)]
pub enum ErrorCode {
    InvalidArgument,
    Utf8,
    Runtime,
    DatasetOpen,
    SchemaExport,
    NamespaceListTables,
    NamespaceDescribeTable,
    NamespaceDescribeTableInfo,
    NamespaceCreateEmptyTable,
    NamespaceDropTable,
}

/// A failure: its code and a message for the user.
#[derive(Debug)]
pub struct FfiError {
    pub code: ErrorCode,
    pub message: String,
}

/// What an `FfiError` says.
pub struct Failure {
    pub code: ErrorCode,
    pub message: Seq<char>,
}

pub type FfiResult<T> = Result<T, FfiError>;

impl View for FfiError {
    type V = Failure;

    open spec fn view(&self) -> Failure {
        Failure { code: self.code, message: self.message@ }
    }
}

impl FfiError {
    pub fn new(code: ErrorCode, message: String) -> (r: FfiError)
        ensures
            r@ == (Failure { code, message: message@ }),
    {
        FfiError { code, message }
    }
}

/// The failure of kind `code` that reads as `heading` and `text`.
pub open spec fn failure(code: ErrorCode, heading: Seq<char>, text: Seq<char>) -> Failure {
    Failure { code, message: heading + text }
}

/// The failure of a runtime that could not run some work.
pub open spec fn runtime_failure(text: Seq<char>) -> Failure {
    failure(ErrorCode::Runtime, "runtime: "@, text)
}

/// An error of kind `code` that reads as `heading` and `text`.
pub(crate) fn error_of(code: ErrorCode, heading: &str, text: &str) -> (r: FfiError)
    ensures
        r@ == failure(code, heading@, text@),
{
    FfiError::new(code, concat(heading, text))
}

/// The error of a runtime that could not run some work.
pub(crate) fn runtime_error(text: &str) -> (r: FfiError)
    ensures
        r@ == runtime_failure(text@),
{
    error_of(ErrorCode::Runtime, "runtime: ", text)
}

} // verus!
