//! Fail-closed host dispatch between administrator and uploaded-site origins,
//! and what the request handlers share.
pub mod admin;
pub mod api;
pub mod cookies;
pub mod entry;
pub mod forms;
pub mod management;
pub mod publishing;
pub mod reply;
pub mod settings;
pub mod unlock;
pub mod upload;
pub mod view;
use crate::error::{rejected, AppError};
use crate::host::{authority_host_of, loopback, Host};
use crate::ip::IpAddr;
use crate::ip6::{address_of, canonical_address};
use crate::status;
use crate::text::{chars_of, lower, lower_chars, same, same_chars, split, split_nonempty, split_on, trim, trimmed, views};
use crate::web::{port_of, port_part, read_uri, uri_parts, UriParts, UriView};
use vstd::prelude::*;

verus! {

/// Maximum encoded body size for native authentication and settings forms.
pub const FORM_BODY_BYTES: usize = 262_144;

/// Maximum size of either administrator form's verification token.
pub const CSRF_FIELD_BYTES: usize = 128;

/// Transport bound for ordinary nonsecret metadata fields.
pub const METADATA_FIELD_BYTES: usize = 1024;

pub const HTTP_PORT: u16 = 80;

pub const HTTPS_PORT: u16 = 443;

/// A fixed form-shape error without submitted data.
pub open spec fn invalid_form() -> AppError {
    rejected(status::BAD_REQUEST, "invalid form submission")
}

/// A fixed CSRF error that reveals neither tokens nor cookie contents.
pub open spec fn unverified() -> AppError {
    rejected(status::FORBIDDEN, "request could not be verified; reopen the sign-in page")
}

/// Returns a fixed form-shape error without retaining submitted data.
pub fn invalid() -> (r: AppError)
    ensures
        r == invalid_form(),
{
    AppError::request(status::BAD_REQUEST, "invalid form submission")
}

/// Returns a fixed CSRF error without revealing tokens or cookie contents.
pub fn forbidden() -> (r: AppError)
    ensures
        r == unverified(),
{
    AppError::request(
        status::FORBIDDEN,
        "request could not be verified; reopen the sign-in page",
    )
}

/// Preserves a multipart rejection status without exposing submitted content.
pub fn multipart_error(status: u16) -> (r: AppError)
    ensures
        r == rejected(status, "invalid form submission"),
{
    AppError::request(status, "invalid form submission")
}

/// The rejection of a body that could not be read.
pub open spec fn body_failure(status: u16) -> AppError {
    rejected(
        status,
        if status == status::PAYLOAD_TOO_LARGE {
            "the upload exceeds the configured size limit"
        } else {
            "invalid form submission"
        },
    )
}

/// The rejection of a body that could not be read, by its status.
pub fn body_error(status: u16) -> (r: AppError)
    ensures
        r == body_failure(status),
{
    let message: &'static str = if status == status::PAYLOAD_TOO_LARGE {
        "the upload exceeds the configured size limit"
    } else {
        "invalid form submission"
    };
    AppError::request(status, message)
}

/// A byte that a header value may hold as text.
pub open spec fn visible(b: u8) -> bool {
    (32 <= b && b < 127) || b == 9
}

/// The text of a header value of visible characters and tabs.
pub open spec fn header_chars(bytes: Seq<u8>) -> Option<Seq<char>> {
    if forall|i: int| 0 <= i < bytes.len() ==> visible(#[trigger] bytes[i]) {
        Some(Seq::new(bytes.len(), |i: int| bytes[i] as char))
    } else {
        None
    }
}

/// The text of a header value of visible characters and tabs.
pub fn header_text(bytes: &[u8]) -> (r: Option<String>)
    ensures
        (match r {
            Some(text) => Some(text@),
            None => None,
        }) == header_chars(bytes@),
{
    let mut text = String::new();
    let mut i: usize = 0;
    while i < bytes.len()
        invariant
            i <= bytes@.len(),
            forall|j: int| 0 <= j < i ==> visible(#[trigger] bytes@[j]),
            text@ == Seq::new(i as nat, |j: int| bytes@[j] as char),
        decreases bytes@.len() - i,
    {
        let b: u8 = bytes[i];
        if !((b >= 32 && b < 127) || b == 9) {
            assert(!visible(bytes@[i as int]));
            return None;
        }
        text.push(b as char);
        i = i + 1;
        assert(text@ =~= Seq::new(i as nat, |j: int| bytes@[j] as char));
    }
    Some(text)
}

/// The values of one header, in their order.
pub open spec fn header_views(values: Seq<Vec<u8>>) -> Seq<Seq<u8>> {
    Seq::new(values.len(), |i: int| values[i]@)
}

/// Identifies only the viewer namespace, not administrator `/sites` routes.
pub open spec fn site_path(path: Seq<char>) -> bool {
    path == "/s"@ || crate::text::has_prefix(path, "/s/"@)
}

/// Identifies only the viewer namespace, not administrator `/sites` routes.
pub fn is_site_path(path: &str) -> (r: bool)
    ensures
        r == site_path(path@),
{
    let chars: Vec<char> = chars_of(path);
    let prefix: Vec<char> = chars_of("/s/");
    same(path, "/s") || crate::text::starts_with(chars.as_slice(), prefix.as_slice())
}

/// The text of the one host header, where there is exactly one.
pub open spec fn host_header(hosts: Seq<Seq<u8>>) -> Option<Seq<char>> {
    if hosts.len() == 1 {
        header_chars(hosts[0])
    } else {
        None
    }
}

/// Whether a host may serve a path: the admin host serves everything but sites
/// where there is a viewer host, and the viewer host serves sites alone.
pub open spec fn host_serves(
    host: Seq<char>,
    path: Seq<char>,
    admin_host: Seq<char>,
    view_host: Option<Seq<char>>,
) -> bool {
    if host == admin_host {
        view_host is None || !site_path(path)
    } else {
        site_path(path) && view_host == Some(host)
    }
}

/// Whether a request is let through: it has one valid host that may serve its
/// path, and an absolute target names no other authority.
pub open spec fn dispatched(
    hosts: Seq<Seq<u8>>,
    path: Seq<char>,
    target: Option<Seq<char>>,
    admin_host: Seq<char>,
    view_host: Option<Seq<char>>,
) -> bool {
    &&& host_header(hosts) matches Some(value)
    &&& authority_host_of(value) matches Some(host)
    &&& host_serves(host, path, admin_host, view_host)
    &&& target matches Some(authority) ==> lower(authority) == lower(value)
}

/// Decides whether a request may pass to the routes; anything else is not found.
pub fn require_host(
    hosts: &Vec<Vec<u8>>,
    path: &str,
    target: Option<&str>,
    admin_host: &str,
    view_host: Option<&str>,
) -> (r: bool)
    ensures
        r == dispatched(
            header_views(hosts@),
            path@,
            crate::auth::tokens::text_view(target),
            admin_host@,
            crate::auth::tokens::text_view(view_host),
        ),
{
    if hosts.len() != 1 {
        return false;
    }
    assert(header_views(hosts@)[0] == hosts@[0]@);
    let value: String = match header_text(hosts[0].as_slice()) {
        Some(value) => value,
        None => {
            return false;
        },
    };
    let host: Host = match Host::from_authority(value.as_str()) {
        Some(host) => host,
        None => {
            return false;
        },
    };
    let site: bool = is_site_path(path);
    let authorized: bool = if same(host.as_str(), admin_host) {
        view_host.is_none() || !site
    } else {
        match view_host {
            Some(view) => site && same(view, host.as_str()),
            None => false,
        }
    };
    if !authorized {
        return false;
    }
    match target {
        None => true,
        Some(authority) => {
            let left: Vec<char> = chars_of(authority);
            let right: Vec<char> = chars_of(value.as_str());
            let left: Vec<char> = lower_chars(left.as_slice());
            let right: Vec<char> = lower_chars(right.as_slice());
            same_chars(left.as_slice(), right.as_slice())
        },
    }
}

/// With a viewer host, uploaded sites are never served on the admin host, and
/// nothing but sites is served on the viewer host; no third host serves
/// anything.
pub proof fn origins_are_isolated(
    hosts: Seq<Seq<u8>>,
    path: Seq<char>,
    target: Option<Seq<char>>,
    admin_host: Seq<char>,
    view_host: Seq<char>,
)
    requires
        view_host != admin_host,
        dispatched(hosts, path, target, admin_host, Some(view_host)),
    ensures
        ({
            let host = authority_host_of(host_header(hosts)->0)->0;
            &&& host == admin_host || host == view_host
            &&& host == admin_host <==> !site_path(path)
        }),
{
}

/// Selects the explicit source of client addresses for login throttling.
#[derive(Clone, Copy, Debug, PartialEq, Eq, Structural)]
pub enum ClientIpSource {
    /// Uses the connection's socket address without trusting forwarded headers.
    Socket,
    /// Requires a verified final hop supplied by an exclusively trusted proxy.
    Forwarded,
}

/// Every hop of a forwarding header is an address.
pub open spec fn hops_valid(value: Seq<char>) -> bool {
    forall|i: int|
        0 <= i < split(value, ',').len() ==> address_of(
            trimmed(#[trigger] split(value, ',')[i]),
        ) is Some
}

/// The client address of a request.
pub open spec fn client_address(
    source: ClientIpSource,
    forwarded: Seq<Seq<u8>>,
    peer: Seq<u16>,
) -> Option<Seq<u16>> {
    match source {
        ClientIpSource::Socket => Some(canonical_address(peer)),
        ClientIpSource::Forwarded => match host_header(forwarded) {
            Some(value) if hops_valid(value) => Some(
                canonical_address(address_of(trimmed(split(value, ',').last()))->0),
            ),
            _ => None,
        },
    }
}

impl ClientIpSource {
    /// Resolves an address, rejecting malformed or ambiguous trusted headers:
    /// the last entry of one forwarding header whose entries all are addresses.
    pub fn resolve(self, forwarded: &Vec<Vec<u8>>, peer: &IpAddr) -> (r: Result<IpAddr, AppError>)
        ensures
            match r {
                Ok(address) => client_address(self, header_views(forwarded@), peer@) == Some(
                    address@,
                ),
                Err(error) => client_address(self, header_views(forwarded@), peer@) is None
                    && error == rejected(
                    status::BAD_REQUEST,
                    "invalid forwarded client address",
                ),
            },
    {
        match self {
            ClientIpSource::Socket => Ok(peer.to_canonical()),
            ClientIpSource::Forwarded => match last_hop(forwarded) {
                Some(address) => Ok(address.to_canonical()),
                None => Err(
                    AppError::request(status::BAD_REQUEST, "invalid forwarded client address"),
                ),
            },
        }
    }
}

fn last_hop(forwarded: &Vec<Vec<u8>>) -> (r: Option<IpAddr>)
    ensures
        match r {
            Some(address) => host_header(header_views(forwarded@)) matches Some(value)
                && hops_valid(value) && address_of(trimmed(split(value, ',').last())) == Some(
                address@,
            ),
            None => host_header(header_views(forwarded@)) matches Some(value) ==> !hops_valid(
                value,
            ),
        },
{
    if forwarded.len() != 1 {
        return None;
    }
    assert(header_views(forwarded@)[0] == forwarded@[0]@);
    let value: String = match header_text(forwarded[0].as_slice()) {
        Some(value) => value,
        None => {
            return None;
        },
    };
    let chars: Vec<char> = chars_of(value.as_str());
    let hops: Vec<Vec<char>> = split_on(chars.as_slice(), ',');
    let ghost texts = split(value@, ',');
    let mut client: Option<IpAddr> = None;
    let mut i: usize = 0;
    while i < hops.len()
        invariant
            i <= hops@.len(),
            views(hops@) == texts,
            texts == split(value@, ','),
            host_header(header_views(forwarded@)) == Some(value@),
            forall|j: int| 0 <= j < i ==> address_of(trimmed(#[trigger] texts[j])) is Some,
            i > 0 ==> (client matches Some(address) && address_of(trimmed(texts[i - 1])) == Some(
                address@,
            )),
        decreases hops@.len() - i,
    {
        assert(texts[i as int] == hops@[i as int]@);
        match IpAddr::parse(trim(hops[i].as_slice())) {
            Some(address) => {
                client = Some(address);
            },
            None => {
                assert(address_of(trimmed(texts[i as int])) is None);
                return None;
            },
        }
        i = i + 1;
    }
    proof {
        split_nonempty(value@, ',');
    }
    client
}

/// The port of an authority, or the default of its scheme.
pub open spec fn effective_port(authority: Seq<char>, default: u16) -> u16 {
    match port_part(authority) {
        Some(port) => port,
        None => default,
    }
}

/// Whether a parsed origin is the origin that the request was sent to: HTTPS,
/// or HTTP on loopback, at the same host and port, and written canonically.
pub open spec fn origin_matches(raw: Seq<char>, parts: UriView, request_host: Seq<char>) -> bool {
    &&& parts.0 matches Some(scheme)
    &&& parts.1 matches Some(authority)
    &&& raw == scheme + "://"@ + authority
    &&& authority_host_of(authority) matches Some(host)
    &&& scheme == "https"@ || (scheme == "http"@ && loopback(host))
    &&& authority_host_of(request_host) == Some(host)
    &&& effective_port(
        authority,
        if scheme == "https"@ {
            HTTPS_PORT
        } else {
            HTTP_PORT
        },
    ) == effective_port(
        request_host,
        if scheme == "https"@ {
            HTTPS_PORT
        } else {
            HTTP_PORT
        },
    )
}

/// Whether the origin headers of a request allow it: there is none, or one that
/// is the origin that the request was sent to.
pub open spec fn origin_allowed(origins: Seq<Seq<u8>>, hosts: Seq<Seq<u8>>) -> bool {
    origins.len() == 0 || (origins.len() == 1 && hosts.len() > 0 && match (
        header_chars(origins[0]),
        header_chars(hosts[0]),
    ) {
        (Some(raw), Some(request_host)) => uri_parts(raw) matches Some(parts) && origin_matches(
            raw,
            parts,
            request_host,
        ),
        _ => false,
    })
}

/// Rejects supplied foreign origins in addition to mandatory CSRF checks.
///
/// TLS termination need not be inferred from forwarded headers: non-loopback
/// browser origins must use HTTPS. Localhost HTTP is allowed for browsers with
/// a native Secure-cookie exception. Absent Origin still needs a valid token.
pub fn check_origin(origins: &Vec<Vec<u8>>, hosts: &Vec<Vec<u8>>) -> (r: Result<(), AppError>)
    ensures
        match r {
            Ok(_) => origin_allowed(header_views(origins@), header_views(hosts@)),
            Err(error) => !origin_allowed(header_views(origins@), header_views(hosts@)) && error
                == unverified(),
        },
{
    if origins.len() == 0 {
        return Ok(());
    }
    if origins.len() != 1 || hosts.len() == 0 {
        return Err(forbidden());
    }
    assert(header_views(origins@)[0] == origins@[0]@);
    assert(header_views(hosts@)[0] == hosts@[0]@);
    match (header_text(origins[0].as_slice()), header_text(hosts[0].as_slice())) {
        (Some(raw), Some(request_host)) => match read_uri(raw.as_str()) {
            Some(parts) => {
                if same_origin(raw.as_str(), &parts, request_host.as_str()) {
                    Ok(())
                } else {
                    Err(forbidden())
                }
            },
            None => Err(forbidden()),
        },
        _ => Err(forbidden()),
    }
}

/// Whether a parsed origin is the origin that a request was sent to.
pub fn same_origin(raw: &str, parts: &UriParts, request_host: &str) -> (r: bool)
    ensures
        r == origin_matches(raw@, parts@, request_host@),
{
    match (&parts.scheme, &parts.authority) {
        (Some(scheme), Some(authority)) => {
            let mut canonical = String::new();
            crate::text::push_text(&mut canonical, scheme.as_str());
            crate::text::push_text(&mut canonical, "://");
            crate::text::push_text(&mut canonical, authority.as_str());
            assert(canonical@ =~= scheme@ + "://"@ + authority@);
            if !same(raw, canonical.as_str()) {
                return false;
            }
            let host: Host = match Host::from_authority(authority.as_str()) {
                Some(host) => host,
                None => {
                    return false;
                },
            };
            let secure: bool = same(scheme.as_str(), "https");
            if !secure && !(same(scheme.as_str(), "http") && host.is_loopback()) {
                return false;
            }
            let default: u16 = if secure {
                HTTPS_PORT
            } else {
                HTTP_PORT
            };
            match Host::from_authority(request_host) {
                None => false,
                Some(expected) => {
                    let own: Vec<char> = chars_of(authority.as_str());
                    let sent: Vec<char> = chars_of(request_host);
                    host.same(&expected) && port_or(own.as_slice(), default) == port_or(
                        sent.as_slice(),
                        default,
                    )
                },
            }
        },
        _ => false,
    }
}

fn port_or(authority: &[char], default: u16) -> (r: u16)
    ensures
        r == effective_port(authority@, default),
{
    match port_of(authority) {
        Some(port) => port,
        None => default,
    }
}

}
