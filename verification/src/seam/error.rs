//! The error taxonomy every seam shares.

use vstd::prelude::*;

use crate::text::{cat3, owned};

verus! {

/// A machine-routable failure code. Callers branch on the code, never on the
/// message.
#[derive(Debug, Clone, Copy, PartialEq, Eq, Structural)]
pub enum ErrorCode {
    NotFound,
    NotADirectory,
    NotText,
    NotARegularFile,
    TooLarge,
    PermissionDenied,
    IoError,
    StaleVersion,
    NotObserved,
    AmbiguousEdit,
    EditNotFound,
    SandboxDenied,
    SpawnFailed,
    ExecCancelled,
    Aborted,
    ToolDenied,
    ToolNotFound,
    ProviderFailure,
    StreamTerminated,
    EmptyCompletion,
    ContextOverflow,
}

impl ErrorCode {
    /// The stable kebab-case spelling of the code.
    pub open spec fn spelling(self) -> Seq<char> {
        match self {
            ErrorCode::NotFound => "not-found"@,
            ErrorCode::NotADirectory => "not-a-directory"@,
            ErrorCode::NotText => "not-text"@,
            ErrorCode::NotARegularFile => "not-a-regular-file"@,
            ErrorCode::TooLarge => "too-large"@,
            ErrorCode::PermissionDenied => "permission-denied"@,
            ErrorCode::IoError => "io-error"@,
            ErrorCode::StaleVersion => "stale-version"@,
            ErrorCode::NotObserved => "not-observed"@,
            ErrorCode::AmbiguousEdit => "ambiguous-edit"@,
            ErrorCode::EditNotFound => "edit-not-found"@,
            ErrorCode::SandboxDenied => "sandbox-denied"@,
            ErrorCode::SpawnFailed => "spawn-failed"@,
            ErrorCode::ExecCancelled => "exec-cancelled"@,
            ErrorCode::Aborted => "aborted"@,
            ErrorCode::ToolDenied => "tool-denied"@,
            ErrorCode::ToolNotFound => "tool-not-found"@,
            ErrorCode::ProviderFailure => "provider-failure"@,
            ErrorCode::StreamTerminated => "stream-terminated"@,
            ErrorCode::EmptyCompletion => "empty-completion"@,
            ErrorCode::ContextOverflow => "context-overflow"@,
        }
    }

    /// The stable kebab-case spelling of the code.
    pub fn as_str(self) -> (r: &'static str)
        ensures
            r@ == self.spelling(),
    {
        match self {
            ErrorCode::NotFound => "not-found",
            ErrorCode::NotADirectory => "not-a-directory",
            ErrorCode::NotText => "not-text",
            ErrorCode::NotARegularFile => "not-a-regular-file",
            ErrorCode::TooLarge => "too-large",
            ErrorCode::PermissionDenied => "permission-denied",
            ErrorCode::IoError => "io-error",
            ErrorCode::StaleVersion => "stale-version",
            ErrorCode::NotObserved => "not-observed",
            ErrorCode::AmbiguousEdit => "ambiguous-edit",
            ErrorCode::EditNotFound => "edit-not-found",
            ErrorCode::SandboxDenied => "sandbox-denied",
            ErrorCode::SpawnFailed => "spawn-failed",
            ErrorCode::ExecCancelled => "exec-cancelled",
            ErrorCode::Aborted => "aborted",
            ErrorCode::ToolDenied => "tool-denied",
            ErrorCode::ToolNotFound => "tool-not-found",
            ErrorCode::ProviderFailure => "provider-failure",
            ErrorCode::StreamTerminated => "stream-terminated",
            ErrorCode::EmptyCompletion => "empty-completion",
            ErrorCode::ContextOverflow => "context-overflow",
        }
    }
}

/// A typed failure: the code callers route on and a message for people.
#[derive(Debug, Clone, PartialEq, Eq)]
pub struct SeamError {
    pub code: ErrorCode,
    pub message: String,
}

/// What a [`SeamError`] says.
pub struct SeamErrorView {
    pub code: ErrorCode,
    pub message: Seq<char>,
}

impl View for SeamError {
    type V = SeamErrorView;

    open spec fn view(&self) -> SeamErrorView {
        SeamErrorView { code: self.code, message: self.message@ }
    }
}

impl SeamErrorView {
    /// The one-line rendering: the code, a colon, the message.
    pub open spec fn shown(self) -> Seq<char> {
        self.code.spelling() + ": "@ + self.message
    }
}

impl SeamError {
    /// A failure with a message.
    pub fn new(code: ErrorCode, message: &str) -> (r: SeamError)
        ensures
            r@ == (SeamErrorView { code, message: message@ }),
    {
        SeamError { code, message: owned(message) }
    }

    /// A failure that owns its message.
    pub fn with(code: ErrorCode, message: String) -> (r: SeamError)
        ensures
            r@ == (SeamErrorView { code, message: message@ }),
    {
        SeamError { code, message }
    }

    /// The one-line rendering: the code, a colon, the message.
    pub fn display(&self) -> (r: String)
        ensures
            r@ == self@.shown(),
    {
        cat3(self.code.as_str(), ": ", self.message.as_str())
    }
}

/// A failure, as a specification value.
pub open spec fn failure(code: ErrorCode, message: Seq<char>) -> SeamErrorView {
    SeamErrorView { code, message }
}

/// The value of an outcome: the view of what came back, or of the failure.
pub open spec fn outcome<T: View>(r: Result<T, SeamError>) -> Result<T::V, SeamErrorView> {
    match r {
        Ok(v) => Ok(v@),
        Err(e) => Err(e@),
    }
}

} // verus!
