//! Why a tool call fails.

use vstd::prelude::*;

use crate::error::{AppError, ErrorView};

verus! {

/// Why a tool call fails: the arguments were wrong, or something else went wrong.
#[derive(Debug, PartialEq)]
pub enum ToolError {
    InvalidArgs(String),
    Other(String),
}

/// What a `ToolError` stands for.
#[verifier::ext_equal]
pub enum ToolErrorView {
    InvalidArgs(Seq<char>),
    Other(Seq<char>),
}

impl View for ToolError {
    type V = ToolErrorView;

    open spec fn view(&self) -> ToolErrorView {
        match *self {
            ToolError::InvalidArgs(s) => ToolErrorView::InvalidArgs(s@),
            ToolError::Other(s) => ToolErrorView::Other(s@),
        }
    }
}

/// The message of a refusal.
pub open spec fn message_of(e: ErrorView) -> Seq<char> {
    match e {
        ErrorView::NotFound(s) => s,
        ErrorView::Invalid(s) => s,
        ErrorView::Other(s) => s,
        ErrorView::Db(s) => s,
    }
}

/// A refusal as a tool reports it that was given what it asks for.
pub open spec fn plain_tool_error(e: ErrorView) -> ToolErrorView {
    ToolErrorView::Other(message_of(e))
}

/// A refusal as a tool reports it whose arguments name what is sought: what is missing or
/// not valid is the fault of the arguments.
pub open spec fn argument_error(e: ErrorView) -> ToolErrorView {
    match e {
        ErrorView::NotFound(s) => ToolErrorView::InvalidArgs(s),
        ErrorView::Invalid(s) => ToolErrorView::InvalidArgs(s),
        ErrorView::Other(s) => ToolErrorView::Other(s),
        ErrorView::Db(s) => ToolErrorView::Other(s),
    }
}

/// A refusal as a tool reports it that was given what it asks for.
pub fn to_tool_error(e: AppError) -> (r: ToolError)
    ensures
        r@ == plain_tool_error(e@),
{
    ToolError::Other(e.message().to_string())
}

/// A refusal as a tool reports it whose arguments name what is sought.
pub fn to_argument_error(e: AppError) -> (r: ToolError)
    ensures
        r@ == argument_error(e@),
{
    match e {
        AppError::NotFound(s) => ToolError::InvalidArgs(s),
        AppError::Invalid(s) => ToolError::InvalidArgs(s),
        AppError::Other(s) => ToolError::Other(s),
        AppError::Db(s) => ToolError::Other(s),
    }
}

} // verus!
