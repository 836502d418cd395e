//! URIs and authorities as plain values.
use crate::text::{first_index, last_index, parse_plus_number, plus_number, rfind};
use axum::http::uri::Authority;
use axum::http::Uri;
use vstd::prelude::*;

verus! {

/// Whether `Authority::from_str` accepts a text.
pub uninterp spec fn authority_accepted(text: Seq<char>) -> bool;

/// The host of an authority without user information: a bracketed part with
/// its brackets, else what stands before the first colon.
pub open spec fn host_part(text: Seq<char>) -> Seq<char> {
    if text.len() > 0 && text[0] == '[' {
        text.take(first_index(text, ']') + 1)
    } else {
        text.take(first_index(text, ':'))
    }
}

/// A decimal number of sixteen bits, with or without a plus sign before it.
pub open spec fn port_number(text: Seq<char>) -> Option<u16> {
    match plus_number(text, 65_535) {
        Some(n) => Some(n as u16),
        None => None,
    }
}

/// The port of an authority: the number behind its last colon, where one stands there.
pub open spec fn port_part(text: Seq<char>) -> Option<u16> {
    let colon = last_index(text, ':');
    if colon >= 0 {
        port_number(text.skip(colon + 1))
    } else {
        None
    }
}

/// `Authority::from_str` decides whether a text is an authority, and
/// `Authority::host` gives its host, which is stated here where no user
/// information stands before it.
#[verifier::external_body]
pub(crate) fn authority_host(text: &str) -> (r: Option<String>)
    ensures
        r is Some <==> authority_accepted(text@),
        r matches Some(host) ==> !text@.contains('@') ==> host@ == host_part(text@) && host@.len()
            <= text@.len(),
{
    let authority: Authority = text.parse().ok()?;
    Some(authority.host().to_owned())
}

/// Reads a decimal number of sixteen bits, with or without a plus sign before it.
pub fn parse_port(text: &[char]) -> (r: Option<u16>)
    ensures
        r == port_number(text@),
{
    match parse_plus_number(text, 65_535) {
        Some(n) => Some(n as u16),
        None => None,
    }
}

/// The port of an authority: the number behind its last colon, where one stands there.
pub fn port_of(text: &[char]) -> (r: Option<u16>)
    ensures
        r == port_part(text@),
{
    let length: usize = text.len();
    match rfind(text, ':') {
        Some(colon) => {
            let behind: &[char] = vstd::slice::slice_subrange(text, colon + 1, length);
            assert(behind@ =~= text@.skip(colon + 1));
            parse_port(behind)
        },
        None => None,
    }
}

/// The parts of a URI.
pub struct UriParts {
    /// The scheme, in small letters where it is `http` or `https`.
    pub scheme: Option<String>,
    /// The authority as it is written.
    pub authority: Option<String>,
    /// The path; a slash where an authority stands with none.
    pub path: String,
    /// What stands behind the question mark.
    pub query: Option<String>,
    /// Path and query together, as they are written.
    pub target: Option<String>,
}

/// Scheme, authority, path, query, and path and query together.
pub type UriView = (
    Option<Seq<char>>,
    Option<Seq<char>>,
    Seq<char>,
    Option<Seq<char>>,
    Option<Seq<char>>,
);

impl UriParts {
    /// The parts as mathematical values.
    pub open spec fn view(&self) -> UriView {
        (
            match self.scheme {
                Some(text) => Some(text@),
                None => None,
            },
            match self.authority {
                Some(text) => Some(text@),
                None => None,
            },
            self.path@,
            match self.query {
                Some(text) => Some(text@),
                None => None,
            },
            match self.target {
                Some(text) => Some(text@),
                None => None,
            },
        )
    }
}

/// The parts that `Uri::from_str` finds in a text, where it accepts the text.
pub uninterp spec fn uri_parts(text: Seq<char>) -> Option<UriView>;

/// `Uri::from_str` takes a URI apart, which depends on its text alone.
#[verifier::external_body]
pub(crate) fn read_uri(text: &str) -> (r: Option<UriParts>)
    ensures
        (match r {
            Some(parts) => Some(parts@),
            None => None,
        }) == uri_parts(text@),
{
    let uri: Uri = text.parse().ok()?;
    Some(UriParts {
        scheme: uri.scheme_str().map(|scheme| scheme.to_owned()),
        authority: uri.authority().map(|authority| authority.as_str().to_owned()),
        path: uri.path().to_owned(),
        query: uri.query().map(|query| query.to_owned()),
        target: uri.path_and_query().map(|target| target.as_str().to_owned()),
    })
}

}
