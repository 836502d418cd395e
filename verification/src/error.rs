//! Typed failures with safe diagnostics and one HTTP error boundary.
use crate::status;
use crate::text::push_text;
use vstd::prelude::*;

verus! {

/// An application failure with configuration-safe diagnostics.
#[derive(Clone, Copy, Debug)]
pub struct AppError {
    pub kind: ErrorKind,
}

/// What failed. Nothing here holds a path, a query or a secret.
#[derive(Clone, Copy, Debug)]
pub enum ErrorKind {
    /// A missing or invalid configuration variable, by its name.
    Configuration(&'static str),
    Storage,
    Database,
    Migration,
    Listener,
    Logging,
    Authentication,
    Publishing,
    /// A request rejection with its status and fixed message.
    Request(u16, &'static str),
}

/// A request rejection.
pub open spec fn rejected(status: u16, message: &'static str) -> AppError {
    AppError { kind: ErrorKind::Request(status, message) }
}

/// An invalid configuration variable.
pub open spec fn misconfigured(variable: &'static str) -> AppError {
    AppError { kind: ErrorKind::Configuration(variable) }
}

/// A filesystem failure.
pub open spec fn storage_failure() -> AppError {
    AppError { kind: ErrorKind::Storage }
}

/// An authentication failure.
pub open spec fn authentication_failure() -> AppError {
    AppError { kind: ErrorKind::Authentication }
}

/// A publishing failure.
pub open spec fn publishing_failure() -> AppError {
    AppError { kind: ErrorKind::Publishing }
}

/// The diagnostic text of a failure.
pub open spec fn diagnostic(kind: ErrorKind) -> Seq<char> {
    match kind {
        ErrorKind::Configuration(variable) => "missing or invalid configuration: "@ + variable@,
        ErrorKind::Storage => "storage initialization failed"@,
        ErrorKind::Database => "database initialization failed"@,
        ErrorKind::Migration => "database migration failed"@,
        ErrorKind::Listener => "listener operation failed"@,
        ErrorKind::Logging => "logging initialization failed"@,
        ErrorKind::Authentication => "authentication operation failed"@,
        ErrorKind::Publishing => "publishing operation failed"@,
        ErrorKind::Request(_, message) => message@,
    }
}

/// The status and body a failure is answered with: a rejection speaks for
/// itself, every other failure is an internal server error.
pub open spec fn answer(kind: ErrorKind) -> (u16, &'static str) {
    match kind {
        ErrorKind::Request(status, message) => (status, message),
        _ => (status::INTERNAL_SERVER_ERROR, "internal server error"),
    }
}

impl AppError {
    /// Records invalid configuration without retaining its value.
    pub fn configuration(variable: &'static str) -> (r: Self)
        ensures
            r == misconfigured(variable),
    {
        AppError { kind: ErrorKind::Configuration(variable) }
    }

    /// Records a filesystem failure without exposing its path.
    pub fn storage() -> (r: Self)
        ensures
            r == storage_failure(),
    {
        AppError { kind: ErrorKind::Storage }
    }

    /// Records a database failure.
    pub fn database() -> (r: Self)
        ensures
            r.kind == ErrorKind::Database,
    {
        AppError { kind: ErrorKind::Database }
    }

    /// Records a migration failure.
    pub fn migration() -> (r: Self)
        ensures
            r.kind == ErrorKind::Migration,
    {
        AppError { kind: ErrorKind::Migration }
    }

    /// Records a listener or shutdown-signal failure.
    pub fn listener() -> (r: Self)
        ensures
            r.kind == ErrorKind::Listener,
    {
        AppError { kind: ErrorKind::Listener }
    }

    /// Records failure to install the log subscriber.
    pub fn logging() -> (r: Self)
        ensures
            r.kind == ErrorKind::Logging,
    {
        AppError { kind: ErrorKind::Logging }
    }

    /// Records an authentication failure without exposing its source.
    pub fn authentication() -> (r: Self)
        ensures
            r == authentication_failure(),
    {
        AppError { kind: ErrorKind::Authentication }
    }

    /// Records a publishing failure without exposing its source.
    pub fn publishing() -> (r: Self)
        ensures
            r == publishing_failure(),
    {
        AppError { kind: ErrorKind::Publishing }
    }

    /// Records a request rejection with a fixed, non-sensitive message.
    pub fn request(status: u16, message: &'static str) -> (r: Self)
        ensures
            r == rejected(status, message),
    {
        AppError { kind: ErrorKind::Request(status, message) }
    }

    /// The diagnostic text.
    pub fn to_text(&self) -> (r: String)
        ensures
            r@ == diagnostic(self.kind),
    {
        let mut text = String::new();
        match self.kind {
            ErrorKind::Configuration(variable) => {
                push_text(&mut text, "missing or invalid configuration: ");
                push_text(&mut text, variable);
            },
            ErrorKind::Storage => push_text(&mut text, "storage initialization failed"),
            ErrorKind::Database => push_text(&mut text, "database initialization failed"),
            ErrorKind::Migration => push_text(&mut text, "database migration failed"),
            ErrorKind::Listener => push_text(&mut text, "listener operation failed"),
            ErrorKind::Logging => push_text(&mut text, "logging initialization failed"),
            ErrorKind::Authentication => push_text(&mut text, "authentication operation failed"),
            ErrorKind::Publishing => push_text(&mut text, "publishing operation failed"),
            ErrorKind::Request(_, message) => push_text(&mut text, message),
        }
        assert(text@ =~= diagnostic(self.kind));
        text
    }

    /// The status and body this failure is answered with.
    pub fn into_response(self) -> (r: (u16, &'static str))
        ensures
            r == answer(self.kind),
    {
        match self.kind {
            ErrorKind::Request(status, message) => (status, message),
            _ => (status::INTERNAL_SERVER_ERROR, "internal server error"),
        }
    }
}

/// Only a request rejection chooses its own answer: whatever else fails, the
/// client learns no more than that the server failed.
pub proof fn failures_stay_private(kind: ErrorKind)
    ensures
        !(kind is Request) ==> answer(kind) == (
            status::INTERNAL_SERVER_ERROR,
            "internal server error",
        ),
{
}

}
