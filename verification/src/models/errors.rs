//! Failures that a request can end in.

use vstd::prelude::*;

verus! {

/// Why a request could not be served.
#[derive(Debug, Clone, PartialEq)]
pub enum AppError {
    /// Something failed while fetching, reading or storing data.
    InternalServerError(String),
    /// No crossword with the given number exists in the requested series.
    CrosswordNotFound(String),
}

/// The mathematical value of an [`AppError`].
pub enum AppErrorView {
    InternalServerError(Seq<char>),
    CrosswordNotFound(Seq<char>),
}

impl View for AppError {
    type V = AppErrorView;

    open spec fn view(&self) -> AppErrorView {
        match self {
            AppError::InternalServerError(m) => AppErrorView::InternalServerError(m@),
            AppError::CrosswordNotFound(n) => AppErrorView::CrosswordNotFound(n@),
        }
    }
}

/// The HTTP status that reports an error: 404 for a missing crossword, 500
/// for every other failure.
pub open spec fn status_of(e: AppErrorView) -> int {
    match e {
        AppErrorView::InternalServerError(_) => 500,
        AppErrorView::CrosswordNotFound(_) => 404,
    }
}

/// The HTTP status code with which `error` is reported.
pub fn to_status_code(error: &AppError) -> (code: u16)
    ensures
        code == status_of(error@),
{
    match error {
        AppError::InternalServerError(_) => 500,
        AppError::CrosswordNotFound(_) => 404,
    }
}

} // verus!
