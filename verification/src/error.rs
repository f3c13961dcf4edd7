//! What can end a run early.

use crate::creds::{CredentialsError, CredentialsErrorView};
use vstd::prelude::*;

verus! {

/// Why a run failed. Every failure is final: nothing is retried.
#[derive(Debug, Clone, PartialEq)]
pub enum RunError {
    /// The long-term profile could not be resolved.
    Credentials(CredentialsError),
    /// The issuing service, or the way to it, refused or failed.
    IssuanceFailed(String),
    /// The credentials file holds no well-formed document.
    StoreParseError(String),
    /// The credentials file could not be read or written.
    StoreIoError(String),
    /// The configuration is not acceptable.
    ConfigValidationError(String),
}

/// What a `RunError` holds, as plain text.
pub enum RunErrorView {
    Credentials(CredentialsErrorView),
    IssuanceFailed(Seq<char>),
    StoreParseError(Seq<char>),
    StoreIoError(Seq<char>),
    ConfigValidationError(Seq<char>),
}

impl View for RunError {
    type V = RunErrorView;

    open spec fn view(&self) -> RunErrorView {
        match self {
            RunError::Credentials(error) => RunErrorView::Credentials(error@),
            RunError::IssuanceFailed(message) => RunErrorView::IssuanceFailed(message@),
            RunError::StoreParseError(message) => RunErrorView::StoreParseError(message@),
            RunError::StoreIoError(message) => RunErrorView::StoreIoError(message@),
            RunError::ConfigValidationError(message) => RunErrorView::ConfigValidationError(
                message@,
            ),
        }
    }
}

impl RunErrorView {
    /// The one message under which the failure is reported.
    pub open spec fn message(self) -> Seq<char> {
        match self {
            RunErrorView::Credentials(error) => error.message(),
            RunErrorView::IssuanceFailed(message) => message,
            RunErrorView::StoreParseError(message) => message,
            RunErrorView::StoreIoError(message) => message,
            RunErrorView::ConfigValidationError(message) => message,
        }
    }
}

impl RunError {
    /// The one message under which the failure is reported.
    pub fn message(&self) -> (text: String)
        ensures
            text@ == self@.message(),
    {
        match self {
            RunError::Credentials(error) => error.message(),
            RunError::IssuanceFailed(message) => message.clone(),
            RunError::StoreParseError(message) => message.clone(),
            RunError::StoreIoError(message) => message.clone(),
            RunError::ConfigValidationError(message) => message.clone(),
        }
    }
}

} // verus!
