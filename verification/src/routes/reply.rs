//! How requests are answered.
use crate::error::{answer, diagnostic, AppError};
use crate::sites::new_site::optional_text;
use crate::status;
use vstd::prelude::*;

verus! {

/// An answer to a request for an administrator page.
pub enum Reply {
    /// The failure is answered as it stands.
    Failed(AppError),
    /// There is no such site.
    NotFound,
    /// The browser goes on to a local page.
    Redirect(String),
    /// The page is shown again: its status, what it says, and the field that
    /// this belongs to.
    Page(u16, String, Option<String>),
}

/// Whether an answer sends the browser to a page.
pub open spec fn redirects(reply: Reply, location: Seq<char>) -> bool {
    reply matches Reply::Redirect(to) && to@ == location
}

/// Whether an answer shows a page with this status, message and field.
pub open spec fn shows(
    reply: Reply,
    status: u16,
    message: Seq<char>,
    field: Option<Seq<char>>,
) -> bool {
    reply matches Reply::Page(shown, text, at) && shown == status && text@ == message
        && optional_text(at) == field
}

/// A status that blames the server.
pub open spec fn server_error(status: u16) -> bool {
    500 <= status && status < 600
}

/// Decides whether a status blames the server.
pub fn is_server_error(status: u16) -> (r: bool)
    ensures
        r == server_error(status),
{
    500 <= status && status < 600
}

/// The status that a failure is answered with.
pub open spec fn error_status(error: AppError) -> u16 {
    answer(error.kind).0
}

/// The text of a rejection: busy workers get recovery text that fits.
pub open spec fn feedback_text(error: AppError) -> Seq<char> {
    if error_status(error) == status::TOO_MANY_REQUESTS {
        "Password processing is busy. Try again shortly."@
    } else {
        diagnostic(error.kind)
    }
}

/// Preserves a safe rejection status with operation-appropriate recovery text.
pub fn feedback(error: AppError) -> (r: (u16, String))
    ensures
        r.0 == error_status(error),
        r.1@ == feedback_text(error),
{
    let status: u16 = error.into_response().0;
    if status == status::TOO_MANY_REQUESTS {
        (status, "Password processing is busy. Try again shortly.".to_owned())
    } else {
        (status, error.to_text())
    }
}

/// Builds a page with a fixed message.
pub fn page(status: u16, message: &str, field: Option<&str>) -> (r: Reply)
    ensures
        shows(r, status, message@, crate::auth::tokens::text_view(field)),
{
    let at: Option<String> = match field {
        Some(name) => Some(name.to_owned()),
        None => None,
    };
    Reply::Page(status, message.to_owned(), at)
}

}
