//! What a tool call that is refused or fails is answered.

use crate::json::{opt_value, Json, JsonView};
use vstd::prelude::*;

verus! {

/// Whether the request was wrong or its handling failed.
#[derive(Clone, Copy, Debug, PartialEq, Eq, Structural)]
pub enum ErrorCode {
    InvalidParams,
    InternalError,
}

/// An error a tool call is answered with.
#[derive(Debug, PartialEq)]
pub struct ToolError {
    pub code: ErrorCode,
    pub message: String,
    pub data: Option<Json>,
}

/// What an error says.
pub struct ToolErrorView {
    pub code: ErrorCode,
    pub message: Seq<char>,
    pub data: Option<JsonView>,
}

impl View for ToolError {
    type V = ToolErrorView;

    open spec fn view(&self) -> ToolErrorView {
        ToolErrorView { code: self.code, message: self.message@, data: opt_value(self.data) }
    }
}

impl ToolErrorView {
    /// A wrong request, with nothing but a message.
    pub open spec fn invalid(message: Seq<char>) -> ToolErrorView {
        ToolErrorView { code: ErrorCode::InvalidParams, message, data: None }
    }

    /// A wrong request.
    pub open spec fn invalid_with(message: Seq<char>, data: JsonView) -> ToolErrorView {
        ToolErrorView { code: ErrorCode::InvalidParams, message, data: Some(data) }
    }

    /// A failure, with nothing but a message.
    pub open spec fn internal(message: Seq<char>) -> ToolErrorView {
        ToolErrorView { code: ErrorCode::InternalError, message, data: None }
    }

    /// A failure.
    pub open spec fn internal_with(message: Seq<char>, data: JsonView) -> ToolErrorView {
        ToolErrorView { code: ErrorCode::InternalError, message, data: Some(data) }
    }
}

impl ToolError {
    /// A wrong request, with nothing but a message.
    pub fn invalid(message: String) -> (r: ToolError)
        ensures
            r@ == ToolErrorView::invalid(message@),
    {
        ToolError { code: ErrorCode::InvalidParams, message, data: None }
    }

    /// A wrong request.
    pub fn invalid_with(message: String, data: Json) -> (r: ToolError)
        ensures
            r@ == ToolErrorView::invalid_with(message@, data@),
    {
        ToolError { code: ErrorCode::InvalidParams, message, data: Some(data) }
    }

    /// A failure, with nothing but a message.
    pub fn internal(message: String) -> (r: ToolError)
        ensures
            r@ == ToolErrorView::internal(message@),
    {
        ToolError { code: ErrorCode::InternalError, message, data: None }
    }

    /// A failure.
    pub fn internal_with(message: String, data: Json) -> (r: ToolError)
        ensures
            r@ == ToolErrorView::internal_with(message@, data@),
    {
        ToolError { code: ErrorCode::InternalError, message, data: Some(data) }
    }
}

} // verus!
