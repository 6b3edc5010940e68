//! Errors that the gateway reports to its clients.
use vstd::prelude::*;

verus! {

/// Who is to blame for an error.
#[derive(Clone, Copy, Debug, PartialEq, Eq, Structural)]
pub enum AppErrorKind {
    /// The client sent a request that cannot be served.
    BadRequest,
    /// The upstream model server answered with something unusable.
    Upstream,
    /// The gateway itself failed.
    Internal,
}

/// An error with the text that explains it.
#[derive(Debug, PartialEq)]
pub struct AppError {
    pub kind: AppErrorKind,
    pub message: String,
}

/// The model of [`AppError`].
pub struct AppErrorView {
    pub kind: AppErrorKind,
    pub message: Seq<char>,
}

pub type AppResult<T> = Result<T, AppError>;

impl DeepView for AppError {
    type V = AppErrorView;

    open spec fn deep_view(&self) -> AppErrorView {
        AppErrorView { kind: self.kind, message: self.message@ }
    }
}

/// The error that a bad request is answered with.
pub open spec fn bad_request(message: Seq<char>) -> AppErrorView {
    AppErrorView { kind: AppErrorKind::BadRequest, message }
}

/// The error that reports a failure of the upstream server.
pub open spec fn upstream_error(message: Seq<char>) -> AppErrorView {
    AppErrorView { kind: AppErrorKind::Upstream, message }
}

/// What a fallible function returned, in terms of models.
pub open spec fn outcome<T: DeepView, E: DeepView>(result: Result<T, E>) -> Result<T::V, E::V> {
    match result {
        Ok(value) => Ok(value.deep_view()),
        Err(error) => Err(error.deep_view()),
    }
}

impl AppError {
    pub fn bad_request(message: String) -> (error: AppError)
        ensures
            error.deep_view() == bad_request(message@),
    {
        AppError { kind: AppErrorKind::BadRequest, message }
    }

    pub fn upstream(message: String) -> (error: AppError)
        ensures
            error.deep_view() == upstream_error(message@),
    {
        AppError { kind: AppErrorKind::Upstream, message }
    }
}

} // verus!
