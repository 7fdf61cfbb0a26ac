//! How a tool call fails.

use vstd::prelude::*;

verus! {

/// Why a tool call failed.
#[derive(Debug, PartialEq, Eq)]
pub enum FunctionCallError {
    /// The model is told, and may go on.
    RespondToModel(String),
    /// The turn cannot go on.
    Fatal(String),
}

/// A [`FunctionCallError`] by its text.
pub enum ErrorView {
    RespondToModel(Seq<char>),
    Fatal(Seq<char>),
}

impl View for FunctionCallError {
    type V = ErrorView;

    open spec fn view(&self) -> ErrorView {
        match self {
            FunctionCallError::RespondToModel(text) => ErrorView::RespondToModel(text@),
            FunctionCallError::Fatal(text) => ErrorView::Fatal(text@),
        }
    }
}

/// An error that the model is told about.
pub fn told_to_model(text: &str) -> (error: FunctionCallError)
    ensures
        error@ == ErrorView::RespondToModel(text@),
        error matches FunctionCallError::RespondToModel(told) && told@ == text@,
{
    FunctionCallError::RespondToModel(text.to_owned())
}

/// The view of an error keeps apart what the model is told and what ends the
/// turn, and keeps the text.
pub proof fn error_is_known_by_its_kind_and_text(error: FunctionCallError, text: Seq<char>)
    ensures
        error@ == ErrorView::RespondToModel(text) <==> (error matches
            FunctionCallError::RespondToModel(told) && told@ == text),
        error@ == ErrorView::Fatal(text) <==> (error matches FunctionCallError::Fatal(told)
            && told@ == text),
{
}

} // verus!
