//! The error kinds that the tracking core reports, and how each kind maps to
//! an HTTP status code.

use vstd::prelude::*;

verus! {

/// The error kinds of the tracking core.
///
/// `InvalidParameter` covers parser failures, residual unparsed input and
/// validator rejections; `NotFound` a lookup by id that matched no row;
/// `Conflict` a unique-constraint violation; `Storage` any other database
/// failure.  Each variant carries a human-readable message.
#[derive(Debug, Clone)]
pub enum MlflowError {
    InvalidParameter(String),
    NotFound(String),
    Conflict(String),
    Storage(String),
}

/// The ghost image of an [`MlflowError`]: the same variants over `Seq<char>`.
pub enum ErrorView {
    InvalidParameter(Seq<char>),
    NotFound(Seq<char>),
    Conflict(Seq<char>),
    Storage(Seq<char>),
}

impl View for MlflowError {
    type V = ErrorView;

    open spec fn view(&self) -> ErrorView {
        match self {
            MlflowError::InvalidParameter(m) => ErrorView::InvalidParameter(m@),
            MlflowError::NotFound(m) => ErrorView::NotFound(m@),
            MlflowError::Conflict(m) => ErrorView::Conflict(m@),
            MlflowError::Storage(m) => ErrorView::Storage(m@),
        }
    }
}

impl ErrorView {
    /// The message carried by the error, whatever its kind.
    pub open spec fn spec_message(self) -> Seq<char> {
        match self {
            ErrorView::InvalidParameter(m) => m,
            ErrorView::NotFound(m) => m,
            ErrorView::Conflict(m) => m,
            ErrorView::Storage(m) => m,
        }
    }

    /// The HTTP status code owed to each error kind.
    pub open spec fn spec_status_code(self) -> u16 {
        match self {
            ErrorView::InvalidParameter(_) => 400,
            ErrorView::NotFound(_) => 404,
            ErrorView::Conflict(_) => 409,
            ErrorView::Storage(_) => 500,
        }
    }
}

impl MlflowError {
    /// The message carried by the error.
    pub fn message(&self) -> (r: &String)
        ensures
            r@ == self@.spec_message(),
    {
        match self {
            MlflowError::InvalidParameter(m) => m,
            MlflowError::NotFound(m) => m,
            MlflowError::Conflict(m) => m,
            MlflowError::Storage(m) => m,
        }
    }

    /// The HTTP status code under which the error is surfaced: 400 for an
    /// invalid parameter, 404 for a missing entity, 409 for a conflict and
    /// 500 for any other storage failure.
    pub fn status_code(&self) -> (r: u16)
        ensures
            r == self@.spec_status_code(),
    {
        match self {
            MlflowError::InvalidParameter(_) => 400,
            MlflowError::NotFound(_) => 404,
            MlflowError::Conflict(_) => 409,
            MlflowError::Storage(_) => 500,
        }
    }
}

/// The JSON error envelope returned on every failed request.
#[derive(Debug, Clone)]
pub struct ErrorResponse {
    pub message: String,
}

} // verus!
