//! The ways in which an operation is refused.

use vstd::prelude::*;

verus! {

/// Why an operation was refused.
#[derive(Debug, PartialEq)]
pub enum AppError {
    NotFound(String),
    Invalid(String),
    Other(String),
    Db(String),
}

/// What an `AppError` stands for.
#[verifier::ext_equal]
pub enum ErrorView {
    NotFound(Seq<char>),
    Invalid(Seq<char>),
    Other(Seq<char>),
    Db(Seq<char>),
}

impl View for AppError {
    type V = ErrorView;

    open spec fn view(&self) -> ErrorView {
        match *self {
            AppError::NotFound(s) => ErrorView::NotFound(s@),
            AppError::Invalid(s) => ErrorView::Invalid(s@),
            AppError::Other(s) => ErrorView::Other(s@),
            AppError::Db(s) => ErrorView::Db(s@),
        }
    }
}

pub type AppResult<T> = Result<T, AppError>;

impl AppError {
    /// The message for the reader.
    pub fn message(&self) -> (r: &str)
        ensures
            r@ == (match self@ {
                ErrorView::NotFound(s) => s,
                ErrorView::Invalid(s) => s,
                ErrorView::Other(s) => s,
                ErrorView::Db(s) => s,
            }),
    {
        match self {
            AppError::NotFound(s) => s.as_str(),
            AppError::Invalid(s) => s.as_str(),
            AppError::Other(s) => s.as_str(),
            AppError::Db(s) => s.as_str(),
        }
    }
}

} // verus!
