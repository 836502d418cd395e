//! Validated boot settings consumed before constructing shared request state.
use crate::auth::MASTER_KEY_BYTES;
use crate::error::{misconfigured, AppError};
use crate::host::{authority_host_of, host_of, loopback, Host};
use crate::ip::IpAddr;
use crate::ip6::{hex_any, hex_digit_number, hex_digit_value};
use crate::text::{
    chars_of, contains, digits_number, find, first_index, first_index_found, from_utf8, has_prefix,
    last_index, number_of, push_text, same, split, split_on, starts_with, string_of, trim,
    trim_front, trim_start, trimmed, utf8_text, views,
};
use crate::web::{parse_port, port_number, port_of, port_part, read_uri, uri_parts, UriParts, UriView};
use tracing_subscriber::EnvFilter;
use vstd::prelude::*;
use vstd::utf8::encode_utf8;

verus! {

/// The longest password, in UTF-8 bytes.
pub const MAX_PASSWORD_BYTES: usize = 131_072;

/// The bytes of one MiB.
pub const BYTES_PER_MIB: u64 = 1_048_576;

/// The hexadecimal digits of a signing secret.
pub const SECRET_HEX_LENGTH: usize = 64;

/// A password within its bounds that stays on one line.
pub open spec fn password_allowed(s: Seq<char>) -> bool {
    &&& 1 <= encode_utf8(s).len() <= MAX_PASSWORD_BYTES
    &&& !s.contains('\0')
    &&& !s.contains('\r')
    &&& !s.contains('\n')
}

/// Checks the shared configuration and browser-form password contract.
pub fn valid_password(password: &str) -> (r: bool)
    ensures
        r == password_allowed(password@),
{
    let length: usize = password.as_bytes().len();
    let chars: Vec<char> = chars_of(password);
    length >= 1 && length <= MAX_PASSWORD_BYTES && !contains(chars.as_slice(), '\0') && !contains(
        chars.as_slice(),
        '\r',
    ) && !contains(chars.as_slice(), '\n')
}

/// A number of MiB in bytes that fits buffers and the database.
pub open spec fn upload_limit(s: Seq<char>) -> Option<usize> {
    match digits_number(s, u64::MAX as nat) {
        Some(n) => if 1 <= n && n * BYTES_PER_MIB <= i64::MAX && n * BYTES_PER_MIB <= isize::MAX {
            Some((n * BYTES_PER_MIB) as usize)
        } else {
            None
        },
        None => None,
    }
}

/// Parses positive ASCII-decimal MiB into a byte count that fits buffers and SQLite.
pub fn parse_upload_limit(value: &str) -> (r: Option<usize>)
    ensures
        r == upload_limit(value@),
{
    let chars: Vec<char> = chars_of(value);
    match number_of(chars.as_slice(), u64::MAX) {
        None => None,
        Some(n) => {
            if n == 0 || n > i64::MAX as u64 / BYTES_PER_MIB {
                return None;
            }
            let bytes: u64 = n * BYTES_PER_MIB;
            if bytes > isize::MAX as u64 {
                return None;
            }
            Some(bytes as usize)
        },
    }
}

/// The bytes that rows of two hexadecimal digits denote.
pub open spec fn secret_bytes(s: Seq<char>) -> Seq<u8> {
    Seq::new(
        MASTER_KEY_BYTES as nat,
        |i: int| (16 * hex_digit_value(s[2 * i]) + hex_digit_value(s[2 * i + 1])) as u8,
    )
}

/// Sixty-four hexadecimal digits in either case.
pub open spec fn valid_secret(s: Seq<char>) -> bool {
    s.len() == SECRET_HEX_LENGTH && forall|i: int| 0 <= i < s.len() ==> hex_any(#[trigger] s[i])
}

/// Parses the hexadecimal signing secret.
pub fn parse_secret(value: &str) -> (r: Result<[u8; MASTER_KEY_BYTES], AppError>)
    ensures
        match r {
            Ok(secret) => valid_secret(value@) && secret@ == secret_bytes(value@),
            Err(error) => !valid_secret(value@) && error == misconfigured("PAGEBIN_SECRET"),
        },
{
    let chars: Vec<char> = chars_of(value);
    if chars.len() != SECRET_HEX_LENGTH {
        return Err(AppError::configuration("PAGEBIN_SECRET"));
    }
    let mut secret: [u8; MASTER_KEY_BYTES] = [0; 32];
    let mut i: usize = 0;
    while i < MASTER_KEY_BYTES
        invariant
            i <= MASTER_KEY_BYTES,
            chars@ == value@,
            chars@.len() == SECRET_HEX_LENGTH,
            secret@.len() == MASTER_KEY_BYTES,
            forall|j: int| 0 <= j < 2 * i ==> hex_any(#[trigger] chars@[j]),
            forall|j: int| 0 <= j < i ==> secret@[j] == #[trigger] secret_bytes(value@)[j],
        decreases MASTER_KEY_BYTES - i,
    {
        match (hex_digit_number(chars[2 * i]), hex_digit_number(chars[2 * i + 1])) {
            (Some(high), Some(low)) => {
                secret[i] = (high * 16 + low) as u8;
            },
            _ => {
                assert(!hex_any(chars@[2 * i]) || !hex_any(chars@[2 * i + 1]));
                return Err(AppError::configuration("PAGEBIN_SECRET"));
            },
        }
        i = i + 1;
    }
    assert(secret@ =~= secret_bytes(value@));
    Ok(secret)
}

/// The port of an authority as it is written, with its colon.
pub open spec fn port_text(authority: Seq<char>) -> Seq<char> {
    if port_part(authority) is Some {
        authority.skip(last_index(authority, ':'))
    } else {
        Seq::empty()
    }
}

/// The base of share links that a parsed URL stands for: a root URL on the
/// viewer host, with HTTP on loopback only and never with port zero.
pub open spec fn public_url_of(parts: UriView, viewer: Seq<char>) -> Option<Seq<char>> {
    match (parts.0, parts.1) {
        (Some(scheme), Some(authority)) => if (scheme == "https"@ || (scheme == "http"@ && loopback(
            viewer,
        ))) && (parts.2 == ""@ || parts.2 == "/"@) && parts.3 is None && port_part(authority)
            != Some(0u16) && authority_host_of(authority) == Some(viewer) {
            Some(scheme + "://"@ + viewer + port_text(authority))
        } else {
            None
        },
        _ => None,
    }
}

/// The base of share links that a text stands for.
pub open spec fn public_url(value: Seq<char>, viewer: Seq<char>) -> Option<Seq<char>> {
    if value.contains('#') {
        None
    } else {
        match uri_parts(value) {
            Some(parts) => public_url_of(parts, viewer),
            None => None,
        }
    }
}

/// Validates a root HTTP(S) URL on the viewer host, canonicalizing scheme and host.
pub fn parse_public_url(value: &str, viewer_host: &Host) -> (r: Option<String>)
    ensures
        (match r {
            Some(base) => Some(base@),
            None => None,
        }) == public_url(value@, viewer_host@),
{
    // URI parsing can discard fragments; reject them before parsing.
    let chars: Vec<char> = chars_of(value);
    if contains(chars.as_slice(), '#') {
        return None;
    }
    match read_uri(value) {
        Some(parts) => public_base(&parts, viewer_host),
        None => None,
    }
}

/// Validates the parts of a URL on the viewer host.
pub fn public_base(parts: &UriParts, viewer_host: &Host) -> (r: Option<String>)
    ensures
        (match r {
            Some(base) => Some(base@),
            None => None,
        }) == public_url_of(parts@, viewer_host@),
{
    match (&parts.scheme, &parts.authority) {
        (Some(scheme), Some(authority)) => {
            let secure: bool = same(scheme.as_str(), "https");
            if !secure && !(same(scheme.as_str(), "http") && viewer_host.is_loopback()) {
                return None;
            }
            if !(same(parts.path.as_str(), "") || same(parts.path.as_str(), "/"))
                || parts.query.is_some() {
                return None;
            }
            let chars: Vec<char> = chars_of(authority.as_str());
            let length: usize = chars.len();
            let port: Option<u16> = port_of(chars.as_slice());
            if let Some(number) = port {
                // Share links need a service port, not an ephemeral listen port.
                if number == 0 {
                    return None;
                }
            }
            match Host::from_authority(authority.as_str()) {
                None => None,
                Some(host) => {
                    if !host.same(viewer_host) {
                        return None;
                    }
                    let mut base = String::new();
                    push_text(&mut base, scheme.as_str());
                    push_text(&mut base, "://");
                    push_text(&mut base, host.as_str());
                    if port.is_some() {
                        if let Some(colon) = crate::text::rfind(chars.as_slice(), ':') {
                            let written: &[char] = vstd::slice::slice_subrange(
                                chars.as_slice(),
                                colon,
                                length,
                            );
                            assert(written@ =~= port_text(authority@));
                            let text: String = string_of(written);
                            push_text(&mut base, text.as_str());
                        }
                    }
                    assert(base@ =~= scheme@ + "://"@ + viewer_host@ + port_text(authority@));
                    Some(base)
                },
            }
        },
        _ => None,
    }
}

/// What separates the components of a path.
pub open spec fn is_separator(c: char) -> bool {
    c == '/' || c == '\\'
}

/// The writing of an absolute path: it begins at a separator, or at one behind
/// the colon of a volume.
pub open spec fn absolute_form(path: Seq<char>) -> bool {
    ||| path.len() > 0 && is_separator(path[0])
    ||| exists|i: int|
        0 < i < path.len() - 1 && #[trigger] path[i] == ':' && is_separator(path[i + 1])
}

/// `std::path::absolute` makes a path absolute, so that it begins at the root of
/// the file system or of a volume. Which path comes out depends on the working
/// directory, and it can fail. A result that is not UTF-8 is dropped.
#[verifier::external_body]
fn absolute_path(path: &str) -> (r: Option<String>)
    ensures
        r matches Some(directory) ==> absolute_form(directory@),
{
    std::path::absolute(path).ok()?.into_os_string().into_string().ok()
}

/// A path that may be resolved.
pub open spec fn path_allowed(path: Seq<char>) -> bool {
    path.len() > 0 && !path.contains('\0')
}

/// What a path resolves to: what a call of `absolute_path` on it returns.
pub closed spec fn resolves_to(path: Seq<char>, directory: Option<Seq<char>>) -> bool {
    exists|text: &str, resolved: Option<String>|
        text@ == path && crate::sites::new_site::optional_text(resolved) == directory
            && #[trigger] call_ensures(absolute_path, (text,), resolved)
}

/// Validates data paths before writes and prevents SQLite URI interpretation.
/// A relative path is resolved against the working directory.
pub fn validated_data_dir(path: &str) -> (r: Result<String, AppError>)
    ensures
        !path_allowed(path@) ==> r == Err::<String, AppError>(misconfigured("PAGEBIN_DATA_DIR")),
        path_allowed(path@) ==> exists|directory: Option<Seq<char>>| #[trigger]
            resolves_to(path@, directory) && match directory {
                Some(found) => r matches Ok(given) && given@ == found,
                None => r == Err::<String, AppError>(misconfigured("PAGEBIN_DATA_DIR")),
            },
        r matches Ok(given) ==> absolute_form(given@),
{
    let chars: Vec<char> = chars_of(path);
    if chars.len() == 0 || contains(chars.as_slice(), '\0') {
        return Err(AppError::configuration("PAGEBIN_DATA_DIR"));
    }
    let resolved: Option<String> = absolute_path(path);
    assert(resolves_to(path@, crate::sites::new_site::optional_text(resolved)));
    resolved_data_dir(path, resolved)
}

/// The data directory of a path that resolves to the given path.
pub fn resolved_data_dir(path: &str, resolved: Option<String>) -> (r: Result<String, AppError>)
    ensures
        match r {
            Ok(directory) => path_allowed(path@) && resolved == Some(directory),
            Err(error) => !(path_allowed(path@) && resolved is Some) && error == misconfigured(
                "PAGEBIN_DATA_DIR",
            ),
        },
{
    let chars: Vec<char> = chars_of(path);
    if chars.len() == 0 || contains(chars.as_slice(), '\0') {
        return Err(AppError::configuration("PAGEBIN_DATA_DIR"));
    }
    match resolved {
        Some(directory) => Ok(directory),
        None => Err(AppError::configuration("PAGEBIN_DATA_DIR")),
    }
}

/// Whether the log-filter parser accepts a text.
pub uninterp spec fn log_filter_accepted(text: Seq<char>) -> bool;

/// `EnvFilter`'s builder, without regular expressions, parses a filter; whether
/// it accepts a text depends on the text alone.
#[verifier::external_body]
fn accepts_log_filter(text: &str) -> (r: bool)
    ensures
        r == log_filter_accepted(text@),
{
    EnvFilter::builder().with_regex(false).parse(text).is_ok()
}

/// A line without the carriage return at its end.
pub open spec fn without_return(line: Seq<char>) -> Seq<char> {
    if line.len() > 0 && line.last() == '\r' {
        line.drop_last()
    } else {
        line
    }
}

/// One line of a settings file: its key and value, unless it is blank, a
/// comment, or without an equals sign. The value is all that stands behind the
/// first equals sign.
pub open spec fn dotenv_entry(line: Seq<char>) -> Option<(Seq<char>, Seq<char>)> {
    let text = trim_start(without_return(line));
    let body = if has_prefix(text, "export "@) {
        text.skip("export "@.len() as int)
    } else {
        text
    };
    if body.len() == 0 || body[0] == '#' || !body.contains('=') {
        None
    } else {
        let at = first_index(body, '=');
        Some((trimmed(body.take(at)), body.skip(at + 1)))
    }
}

/// The entries of the first lines.
pub open spec fn dotenv_entries(lines: Seq<Seq<char>>) -> Seq<(Seq<char>, Seq<char>)>
    decreases lines.len(),
{
    if lines.len() == 0 {
        Seq::empty()
    } else {
        let front = dotenv_entries(lines.drop_last());
        match dotenv_entry(lines.last()) {
            Some(entry) => front.push(entry),
            None => front,
        }
    }
}

/// The value of a key: that of its last entry.
pub open spec fn last_value(entries: Seq<(Seq<char>, Seq<char>)>, key: Seq<char>) -> Option<
    Seq<char>,
>
    decreases entries.len(),
{
    if entries.len() == 0 {
        None
    } else if entries.last().0 == key {
        Some(entries.last().1)
    } else {
        last_value(entries.drop_last(), key)
    }
}

/// Whether a setting is that of the environment, where it is set there, even to
/// nothing, and that of the settings file otherwise.
pub open spec fn merged(
    set: Raw,
    file: Seq<(Seq<char>, Seq<char>)>,
    name: Seq<char>,
    raw: Raw,
) -> bool {
    match set {
        Some(_) => raw == set,
        None => match (raw, last_value(file, name)) {
            (Some(bytes), Some(value)) => bytes@ == encode_utf8(value),
            (None, None) => true,
            _ => false,
        },
    }
}

/// The `KEY=VALUE` lines of a settings file.
pub struct Dotenv {
    entries: Vec<(String, String)>,
}

spec fn entry_views(entries: Seq<(String, String)>) -> Seq<(Seq<char>, Seq<char>)> {
    Seq::new(entries.len(), |i: int| (entries[i].0@, entries[i].1@))
}

impl Dotenv {
    /// Keys and values in the order of their lines.
    pub closed spec fn view(&self) -> Seq<(Seq<char>, Seq<char>)> {
        entry_views(self.entries@)
    }

    /// Reads the lines of a settings file. Blank lines, `#` comments, and an
    /// `export ` prefix are skipped. Values are taken verbatim, so quotes stay
    /// part of the value.
    pub fn parse(text: &str) -> (r: Self)
        ensures
            r@ == dotenv_entries(split(text@, '\n')),
    {
        let chars: Vec<char> = chars_of(text);
        let lines: Vec<Vec<char>> = split_on(chars.as_slice(), '\n');
        let ghost texts = views(lines@);
        let mut entries: Vec<(String, String)> = Vec::new();
        let mut i: usize = 0;
        assert(entry_views(entries@) =~= dotenv_entries(texts.take(0)));
        while i < lines.len()
            invariant
                i <= lines@.len(),
                texts == views(lines@),
                entry_views(entries@) == dotenv_entries(texts.take(i as int)),
            decreases lines@.len() - i,
        {
            let ghost before = entry_views(entries@);
            assert(texts.take(i + 1).drop_last() =~= texts.take(i as int));
            assert(texts[i as int] == lines@[i as int]@);
            match parse_entry(lines[i].as_slice()) {
                Some((key, value)) => {
                    let ghost added = (key@, value@);
                    entries.push((key, value));
                    assert(entry_views(entries@) =~= before.push(added));
                },
                None => {},
            }
            i = i + 1;
        }
        assert(texts.take(i as int) =~= texts);
        Dotenv { entries }
    }

    /// The value of a key: that of its last line.
    pub fn get(&self, key: &str) -> (r: Option<&str>)
        ensures
            (match r {
                Some(value) => Some(value@),
                None => None,
            }) == last_value(self@, key@),
    {
        let mut i: usize = self.entries.len();
        assert(self@.take(i as int) =~= self@);
        while i > 0
            invariant
                i <= self.entries@.len(),
                last_value(self@.take(i as int), key@) == last_value(self@, key@),
            decreases i,
        {
            assert(self@.take(i as int).drop_last() =~= self@.take(i - 1));
            if same(self.entries[i - 1].0.as_str(), key) {
                return Some(self.entries[i - 1].1.as_str());
            }
            i = i - 1;
        }
        None
    }

    /// A setting from the environment, or from the file where the environment
    /// has none.
    pub fn or_else(&self, environment: Option<Vec<u8>>, name: &str) -> (r: Option<Vec<u8>>)
        ensures
            merged(environment, self@, name@, r),
    {
        match environment {
            Some(value) => Some(value),
            None => match self.get(name) {
                Some(value) => Some(value.as_bytes_vec()),
                None => None,
            },
        }
    }
}

fn parse_entry(line: &[char]) -> (r: Option<(String, String)>)
    ensures
        (match r {
            Some((key, value)) => Some((key@, value@)),
            None => None,
        }) == dotenv_entry(line@),
{
    let length: usize = line.len();
    let line: &[char] = if length > 0 && line[length - 1] == '\r' {
        vstd::slice::slice_subrange(line, 0, length - 1)
    } else {
        line
    };
    let text: &[char] = trim_front(line);
    let prefix: Vec<char> = chars_of("export ");
    let body: &[char] = if starts_with(text, prefix.as_slice()) {
        vstd::slice::slice_subrange(text, prefix.len(), text.len())
    } else {
        text
    };
    assert(has_prefix(text@, "export "@) ==> body@ =~= text@.skip("export "@.len() as int));
    if body.len() == 0 || body[0] == '#' {
        return None;
    }
    let at: usize = find(body, '=');
    proof {
        first_index_found(body@, '=');
    }
    if at == body.len() {
        return None;
    }
    let key: &[char] = vstd::slice::slice_subrange(body, 0, at);
    let value: &[char] = vstd::slice::slice_subrange(body, at + 1, body.len());
    assert(key@ =~= body@.take(at as int));
    assert(value@ =~= body@.skip(at + 1));
    Some((string_of(trim(key)), string_of(value)))
}

/// The variables in the order in which they are read.
pub open spec fn variable(i: int) -> &'static str {
    if i == 0 {
        "PAGEBIN_ADMIN_HOST"
    } else if i == 1 {
        "PAGEBIN_ADMIN_PASSWORD"
    } else if i == 2 {
        "PAGEBIN_API_TOKEN"
    } else if i == 3 {
        "PAGEBIN_VIEW_HOST"
    } else if i == 4 {
        "PAGEBIN_PUBLIC_URL"
    } else if i == 5 {
        "PAGEBIN_MAX_UPLOAD_MB"
    } else if i == 6 {
        "PAGEBIN_DATA_DIR"
    } else if i == 7 {
        "PAGEBIN_PORT"
    } else if i == 8 {
        "RUST_LOG"
    } else if i == 9 {
        "PAGEBIN_SECRET"
    } else {
        "PAGEBIN_TRUST_PROXY"
    }
}

/// The number of variables.
pub open spec fn variables() -> int {
    11
}

/// The raw value of a variable, where it is set.
pub type Raw = Option<Vec<u8>>;

/// Whether a variable is unset or nonempty UTF-8 text.
pub open spec fn readable(raw: Raw) -> bool {
    raw matches Some(bytes) ==> (utf8_text(bytes@) matches Some(text) && text.len() > 0)
}

/// The text of a variable that is set.
pub open spec fn text_of(raw: Raw) -> Option<Seq<char>> {
    match raw {
        Some(bytes) => utf8_text(bytes@),
        None => None,
    }
}

/// The text of a variable, or its default.
pub open spec fn text_or(raw: Raw, default: Seq<char>) -> Seq<char> {
    match text_of(raw) {
        Some(text) => text,
        None => default,
    }
}

/// The canonical hosts that the settings name.
pub open spec fn admin_host_of(raw: Seq<Raw>) -> Seq<char> {
    host_of(text_of(raw[0])->0)->0
}

pub open spec fn view_host_of(raw: Seq<Raw>) -> Option<Seq<char>> {
    match text_of(raw[3]) {
        Some(text) => host_of(text),
        None => None,
    }
}

/// The host that sites are seen on: the admin host where there is no other.
pub open spec fn viewer_of(admin: Seq<char>, view: Option<Seq<char>>) -> Seq<char> {
    match view {
        Some(host) => host,
        None => admin,
    }
}

pub open spec fn public_text(raw: Seq<Raw>) -> Seq<char> {
    text_or(raw[4], "https://"@ + viewer_of(admin_host_of(raw), view_host_of(raw)))
}

/// Whether a variable is valid beside those that were read before it. The data
/// directory also has to resolve to a path.
pub open spec fn variable_valid(i: int, raw: Seq<Raw>, directory: Option<Seq<char>>) -> bool {
    readable(raw[i]) && if i == 0 {
        text_of(raw[0]) matches Some(text) && host_of(text) is Some
    } else if i == 1 {
        text_of(raw[1]) matches Some(text) && password_allowed(text)
    } else if i == 2 {
        text_of(raw[2]) matches Some(text) ==> password_allowed(text)
    } else if i == 3 {
        text_of(raw[3]) matches Some(text) ==> host_of(text) is Some && host_of(text) != Some(
            admin_host_of(raw),
        )
    } else if i == 4 {
        public_url(public_text(raw), viewer_of(admin_host_of(raw), view_host_of(raw))) is Some
    } else if i == 5 {
        upload_limit(text_or(raw[5], "50"@)) is Some
    } else if i == 6 {
        path_allowed(text_or(raw[6], "data"@)) && directory is Some
    } else if i == 7 {
        port_number(text_or(raw[7], "5050"@)) is Some
    } else if i == 8 {
        log_filter_accepted(text_or(raw[8], "pagebin=info,tower_http=info"@))
    } else if i == 9 {
        text_of(raw[9]) matches Some(text) ==> valid_secret(text)
    } else {
        text_of(raw[10]) matches Some(text) ==> text == "true"@ || text == "false"@
    }
}

/// Whether all variables that were read are valid.
pub open spec fn all_valid(raw: Seq<Raw>, directory: Option<Seq<char>>) -> bool {
    forall|i: int| 0 <= i < raw.len() ==> #[trigger] variable_valid(i, raw, directory)
}

/// Settings as mathematical values.
pub struct ConfigView {
    pub admin_host: Seq<char>,
    pub admin_password: Seq<char>,
    pub api_token: Option<Seq<char>>,
    pub view_host: Option<Seq<char>>,
    pub public_url: Seq<char>,
    pub max_upload_bytes: usize,
    pub data_dir: Seq<char>,
    pub port: u16,
    pub log_filter: Seq<char>,
    pub signing_secret: Option<Seq<u8>>,
    pub trust_proxy: bool,
}

/// The settings that valid variables stand for.
pub open spec fn config_of(raw: Seq<Raw>, directory: Seq<char>) -> ConfigView {
    ConfigView {
        admin_host: admin_host_of(raw),
        admin_password: text_of(raw[1])->0,
        api_token: text_of(raw[2]),
        view_host: view_host_of(raw),
        public_url: public_url(
            public_text(raw),
            viewer_of(admin_host_of(raw), view_host_of(raw)),
        )->0,
        max_upload_bytes: upload_limit(text_or(raw[5], "50"@))->0,
        data_dir: directory,
        port: port_number(text_or(raw[7], "5050"@))->0,
        log_filter: text_or(raw[8], "pagebin=info,tower_http=info"@),
        signing_secret: match text_of(raw[9]) {
            Some(text) => Some(secret_bytes(text)),
            None => None,
        },
        trust_proxy: text_of(raw[10]) == Some("true"@),
    }
}

/// Validated boot configuration whose secrets are consumed by router setup.
pub struct Config {
    admin_host: Host,
    admin_password: String,
    api_token: Option<String>,
    view_host: Option<Host>,
    public_url: String,
    max_upload_bytes: usize,
    data_dir: String,
    port: u16,
    log_filter: String,
    signing_secret: Option<[u8; MASTER_KEY_BYTES]>,
    trust_proxy: bool,
}

impl Config {
    /// The settings as mathematical values.
    pub closed spec fn view(&self) -> ConfigView {
        ConfigView {
            admin_host: self.admin_host@,
            admin_password: self.admin_password@,
            api_token: match self.api_token {
                Some(token) => Some(token@),
                None => None,
            },
            view_host: match self.view_host {
                Some(host) => Some(host@),
                None => None,
            },
            public_url: self.public_url@,
            max_upload_bytes: self.max_upload_bytes,
            data_dir: self.data_dir@,
            port: self.port,
            log_filter: self.log_filter@,
            signing_secret: match self.signing_secret {
                Some(secret) => Some(secret@),
                None => None,
            },
            trust_proxy: self.trust_proxy,
        }
    }

    /// Returns the canonical admin hostname without a port.
    pub fn admin_host(&self) -> (r: &str)
        ensures
            r@ == self@.admin_host,
    {
        self.admin_host.as_str()
    }

    /// Returns the canonical viewer hostname when origin separation is enabled.
    pub fn view_host(&self) -> (r: Option<&str>)
        ensures
            (match r {
                Some(host) => Some(host@),
                None => None,
            }) == self@.view_host,
    {
        match &self.view_host {
            Some(host) => Some(host.as_str()),
            None => None,
        }
    }

    /// Returns the validated public base URL without a trailing slash.
    pub fn public_url(&self) -> (r: &str)
        ensures
            r@ == self@.public_url,
    {
        self.public_url.as_str()
    }

    /// Returns the encoded upload cap in bytes, including multipart overhead.
    pub fn max_upload_bytes(&self) -> (r: usize)
        ensures
            r == self@.max_upload_bytes,
    {
        self.max_upload_bytes
    }

    /// Returns the absolute UTF-8 path for database and site storage.
    pub fn data_dir(&self) -> (r: &str)
        ensures
            r@ == self@.data_dir,
    {
        self.data_dir.as_str()
    }

    /// Returns the listen address: every interface on `PAGEBIN_PORT`.
    pub fn listen(&self) -> (r: (IpAddr, u16))
        ensures
            r.0@ == seq![0u16, 0, 0, 0],
            r.1 == self@.port,
    {
        (IpAddr::v4(0, 0, 0, 0), self.port)
    }

    /// Returns the text of the validated log filter.
    pub fn log_filter(&self) -> (r: &str)
        ensures
            r@ == self@.log_filter,
    {
        self.log_filter.as_str()
    }

    /// Returns whether the operator explicitly enabled forwarded-IP trust.
    pub fn trust_proxy(&self) -> (r: bool)
        ensures
            r == self@.trust_proxy,
    {
        self.trust_proxy
    }

    /// Returns the configured API bearer token, absent when the API is disabled.
    pub fn api_token(&self) -> (r: Option<&str>)
        ensures
            (match r {
                Some(token) => Some(token@),
                None => None,
            }) == self@.api_token,
    {
        match &self.api_token {
            Some(token) => Some(token.as_str()),
            None => None,
        }
    }

    /// Consumes boot settings for authentication initialization.
    pub fn into_auth_settings(self) -> (r: (String, String, Option<[u8; MASTER_KEY_BYTES]>))
        ensures
            r.0@ == self@.admin_password,
            r.1@ == self@.data_dir,
            (match r.2 {
                Some(secret) => Some(secret@),
                None => None,
            }) == self@.signing_secret,
    {
        (self.admin_password, self.data_dir, self.signing_secret)
    }
}

/// Reads raw settings through a lookup and validates them in `build`.
///
/// It stores no values, so a password never sits in an unvalidated struct.
pub struct ConfigBuilder<F>(pub F);

/// Values that the lookup may have returned for the variables in their order.
pub open spec fn looked_up<F: Fn(&str) -> Raw>(lookup: F, raw: Seq<Raw>) -> bool {
    forall|i: int| 0 <= i < raw.len() ==> call_ensures(lookup, (variable(i),), #[trigger] raw[i])
}

/// Whether a data directory is what the variable for it, or its default,
/// resolves to, where that was read and may be resolved.
pub open spec fn directory_read(raw: Seq<Raw>, directory: Option<Seq<char>>) -> bool {
    raw.len() > 6 && readable(raw[6]) && path_allowed(text_or(raw[6], "data"@)) ==> resolves_to(
        text_or(raw[6], "data"@),
        directory,
    )
}

/// What building makes of the values that it read: a configuration of all
/// variables, or the rejection of the first invalid one.
pub open spec fn build_outcome<F: Fn(&str) -> Raw>(
    lookup: F,
    raw: Seq<Raw>,
    directory: Option<Seq<char>>,
    r: Result<Config, AppError>,
) -> bool {
    &&& looked_up(lookup, raw)
    &&& built(raw, directory, r)
}

/// A configuration of the raw values of all variables and a data directory, or
/// the rejection of the last one that was read, which is the first invalid one.
pub open spec fn built(
    raw: Seq<Raw>,
    directory: Option<Seq<char>>,
    r: Result<Config, AppError>,
) -> bool {
    &&& directory_read(raw, directory)
    &&& match r {
        Ok(config) => {
            &&& raw.len() == variables()
            &&& all_valid(raw, directory)
            &&& config@ == config_of(raw, directory->0)
            &&& absolute_form(config@.data_dir)
        },
        Err(error) => {
            &&& 0 < raw.len() <= variables()
            &&& all_valid(raw.drop_last(), directory)
            &&& !variable_valid(raw.len() - 1, raw, directory)
            &&& error == misconfigured(variable(raw.len() - 1))
        },
    }
}

/// Raw values of the variables in their order, each of them that of the
/// environment or else that of the settings file.
pub open spec fn settings_read<E: Fn(&str) -> Raw>(
    environment: E,
    file: Seq<(Seq<char>, Seq<char>)>,
    raw: Seq<Raw>,
) -> bool {
    forall|i: int|
        0 <= i < raw.len() ==> setting_read(environment, file, variable(i), #[trigger] raw[i])
}

/// A raw value of a variable: that of the environment or else that of the file.
pub open spec fn setting_read<E: Fn(&str) -> Raw>(
    environment: E,
    file: Seq<(Seq<char>, Seq<char>)>,
    name: &str,
    raw: Raw,
) -> bool {
    exists|set: Raw| #[trigger]
        call_ensures(environment, (name,), set) && merged(set, file, name@, raw)
}

impl Config {
    /// Loads settings from the environment, then from the text of a settings
    /// file. A variable that is set in the environment always wins over the
    /// file.
    pub fn from_env<E: Fn(&str) -> Raw + Copy>(environment: E, file: &str) -> (r: Result<
        Self,
        AppError,
    >)
        requires
            forall|name: &str| call_requires(environment, (name,)),
        ensures
            exists|raw: Seq<Raw>, directory: Option<Seq<char>>| #[trigger]
                built(raw, directory, r) && settings_read(
                    environment,
                    dotenv_entries(split(file@, '\n')),
                    raw,
                ),
    {
        let file: Dotenv = Dotenv::parse(file);
        let lookup = |name: &str| -> (raw: Raw)
            requires
                call_requires(environment, (name,)),
            ensures
                setting_read(environment, file@, name, raw),
            { file.or_else(environment(name), name) };
        let ghost asked = lookup;
        let r: Result<Self, AppError> = ConfigBuilder::from_lookup(lookup).build();
        proof {
            let (raw, directory) = choose|raw: Seq<Raw>, directory: Option<Seq<char>>| #[trigger]
                build_outcome(asked, raw, directory, r);
            assert(built(raw, directory, r));
            assert forall|i: int| 0 <= i < raw.len() implies setting_read(
                environment,
                file@,
                variable(i),
                #[trigger] raw[i],
            ) by {
                assert(call_ensures(asked, (variable(i),), raw[i]));
            }
        }
        r
    }
}

/// A variable that is set in the environment is taken from there whatever the
/// settings file holds, and rejected where it is set to nothing; the file
/// decides exactly where the environment has no value.
pub proof fn set_variables_win_over_the_file<E: Fn(&str) -> Raw>(
    environment: E,
    file: Seq<(Seq<char>, Seq<char>)>,
    raw: Seq<Raw>,
    directory: Option<Seq<char>>,
    r: Result<Config, AppError>,
    i: int,
    set: Raw,
)
    requires
        settings_read(environment, file, raw),
        built(raw, directory, r),
        0 <= i < raw.len(),
        forall|read: Raw| #[trigger]
            call_ensures(environment, (variable(i),), read) ==> read == set,
    ensures
        set is Some ==> raw[i] == set,
        set is None ==> match (raw[i], last_value(file, variable(i)@)) {
            (Some(bytes), Some(value)) => bytes@ == encode_utf8(value),
            (None, None) => true,
            _ => false,
        },
        set matches Some(bytes) && bytes@.len() == 0 ==> r == Err::<Config, AppError>(
            misconfigured(variable(i)),
        ),
{
    assert(setting_read(environment, file, variable(i), raw[i]));
    if set matches Some(bytes) && bytes@.len() == 0 {
        assert(!readable(raw[i]));
        assert(!variable_valid(i, raw, directory));
        if r is Ok {
            assert(variable_valid(i, raw, directory));
        } else if i < raw.len() - 1 {
            let front = raw.drop_last();
            assert(variable_valid(i, front, directory));
            assert(front[i] == raw[i]);
        }
    }
}

/// One more valid variable.
proof fn one_more_valid(raw: Seq<Raw>, next: Raw, directory: Option<Seq<char>>)
    requires
        all_valid(raw, directory),
        variable_valid(raw.len() as int, raw.push(next), directory),
    ensures
        all_valid(raw.push(next), directory),
{
    let all = raw.push(next);
    assert forall|i: int| 0 <= i < all.len() implies #[trigger] variable_valid(i, all, directory) by {
        if i < raw.len() {
            assert(variable_valid(i, raw, directory));
            assert(all[i] == raw[i]);
            if i >= 3 {
                assert(all[0] == raw[0]);
                assert(all[3] == raw[3]);
            }
        }
    }
}

/// What is valid before the data directory is read does not depend on it.
proof fn directory_is_free(raw: Seq<Raw>, a: Option<Seq<char>>, b: Option<Seq<char>>)
    requires
        all_valid(raw, a),
        raw.len() <= 6,
    ensures
        all_valid(raw, b),
{
    assert forall|i: int| 0 <= i < raw.len() implies #[trigger] variable_valid(i, raw, b) by {
        assert(variable_valid(i, raw, a));
    }
}

/// What a variable reads as.
pub open spec fn reads_as(raw: Raw, name: &'static str, r: Result<Option<String>, AppError>) -> bool {
    match r {
        Ok(Some(text)) => readable(raw) && text_of(raw) == Some(text@),
        Ok(None) => raw is None,
        Err(error) => !readable(raw) && error == misconfigured(name),
    }
}

impl<F: Fn(&str) -> Raw> ConfigBuilder<F> {
    /// Wraps a lookup such as one into the environment or a test map, reading
    /// nothing yet.
    pub fn from_lookup(lookup: F) -> (r: Self)
        ensures
            r == ConfigBuilder(lookup),
    {
        ConfigBuilder(lookup)
    }

    /// Reads a set variable as nonempty UTF-8 text; an unset one is `None`.
    pub fn optional(&self, name: &'static str) -> (r: Result<Option<String>, AppError>)
        requires
            call_requires(self.0, (name,)),
        ensures
            exists|raw: Raw| #[trigger] call_ensures(self.0, (name,), raw) && reads_as(raw, name, r),
    {
        let raw: Raw = (self.0)(name);
        let ghost value = raw;
        let r: Result<Option<String>, AppError> = match raw {
            None => Ok(None),
            Some(bytes) => match from_utf8(bytes) {
                Some(text) => {
                    let chars: Vec<char> = chars_of(text.as_str());
                    if chars.len() > 0 {
                        Ok(Some(text))
                    } else {
                        Err(AppError::configuration(name))
                    }
                },
                None => Err(AppError::configuration(name)),
            },
        };
        assert(reads_as(value, name, r));
        r
    }

    /// Reads a variable that must be set.
    pub fn required(&self, name: &'static str) -> (r: Result<String, AppError>)
        requires
            call_requires(self.0, (name,)),
        ensures
            exists|raw: Raw| #[trigger]
                call_ensures(self.0, (name,), raw) && match r {
                    Ok(text) => readable(raw) && text_of(raw) == Some(text@),
                    Err(error) => (raw is None || !readable(raw)) && error == misconfigured(name),
                },
    {
        match self.optional(name) {
            Err(error) => Err(error),
            Ok(Some(text)) => Ok(text),
            Ok(None) => Err(AppError::configuration(name)),
        }
    }

    /// Reads a variable, or its default where it is unset.
    pub fn or_default(&self, name: &'static str, default: &str) -> (r: Result<String, AppError>)
        requires
            call_requires(self.0, (name,)),
        ensures
            exists|raw: Raw| #[trigger]
                call_ensures(self.0, (name,), raw) && match r {
                    Ok(text) => readable(raw) && text_or(raw, default@) == text@,
                    Err(error) => !readable(raw) && error == misconfigured(name),
                },
    {
        match self.optional(name) {
            Err(error) => Err(error),
            Ok(Some(text)) => Ok(text),
            Ok(None) => Ok(default.to_owned()),
        }
    }

    /// Validates every setting, naming the first missing or invalid variable.
    ///
    /// Hosts must be DNS names, IPv4, or bracketed IPv6 without ports, and the
    /// viewer host must differ from the admin host. The public URL must be a
    /// root HTTP(S) URL on the effective viewer host, HTTP on loopback only.
    /// The upload limit is a positive whole MiB count that fits body buffers
    /// and SQLite. The data root must resolve to an absolute UTF-8 path, which
    /// depends on the working directory.
    pub fn build(self) -> (r: Result<Config, AppError>)
        requires
            forall|name: &str| call_requires(self.0, (name,)),
        ensures
            exists|raw: Seq<Raw>, directory: Option<Seq<char>>| #[trigger]
                build_outcome(self.0, raw, directory, r),
    {
        let ghost lookup = self.0;
        let ghost mut raw: Seq<Raw> = Seq::empty();
        let ghost none: Option<Seq<char>> = None;
        let read: Result<String, AppError> = self.required("PAGEBIN_ADMIN_HOST");
        let ghost next = choose|v: Raw| #[trigger]
            call_ensures(lookup, ("PAGEBIN_ADMIN_HOST",), v) && match read {
                Ok(text) => readable(v) && text_of(v) == Some(text@),
                Err(error) => v is None || !readable(v),
            };
        let admin_host: Host = match read {
            Ok(text) => match Host::parse(text.as_str()) {
                Some(host) => host,
                None => {
                    proof {
                        rejected_at(lookup, raw, next, none);
                    }
                    return Err(AppError::configuration("PAGEBIN_ADMIN_HOST"));
                },
            },
            Err(error) => {
                proof {
                    rejected_at(lookup, raw, next, none);
                }
                return Err(error);
            },
        };
        proof {
            accepted_at(lookup, raw, next, none);
            raw = raw.push(next);
        }
        let read: Result<String, AppError> = self.required("PAGEBIN_ADMIN_PASSWORD");
        let ghost next = choose|v: Raw| #[trigger]
            call_ensures(lookup, ("PAGEBIN_ADMIN_PASSWORD",), v) && match read {
                Ok(text) => readable(v) && text_of(v) == Some(text@),
                Err(error) => v is None || !readable(v),
            };
        let admin_password: String = match read {
            Ok(text) => text,
            Err(error) => {
                proof {
                    rejected_at(lookup, raw, next, none);
                }
                return Err(error);
            },
        };
        if !valid_password(admin_password.as_str()) {
            proof {
                rejected_at(lookup, raw, next, none);
            }
            return Err(AppError::configuration("PAGEBIN_ADMIN_PASSWORD"));
        }
        proof {
            accepted_at(lookup, raw, next, none);
            raw = raw.push(next);
        }
        let read: Result<Option<String>, AppError> = self.optional("PAGEBIN_API_TOKEN");
        let ghost next = choose|v: Raw| #[trigger]
            call_ensures(lookup, ("PAGEBIN_API_TOKEN",), v) && reads_as(v, "PAGEBIN_API_TOKEN", read);
        let api_token: Option<String> = match read {
            Ok(token) => token,
            Err(error) => {
                proof {
                    rejected_at(lookup, raw, next, none);
                }
                return Err(error);
            },
        };
        if let Some(token) = &api_token {
            if !valid_password(token.as_str()) {
                proof {
                    rejected_at(lookup, raw, next, none);
                }
                return Err(AppError::configuration("PAGEBIN_API_TOKEN"));
            }
        }
        proof {
            accepted_at(lookup, raw, next, none);
            raw = raw.push(next);
        }
        let read: Result<Option<String>, AppError> = self.optional("PAGEBIN_VIEW_HOST");
        let ghost next = choose|v: Raw| #[trigger]
            call_ensures(lookup, ("PAGEBIN_VIEW_HOST",), v) && reads_as(v, "PAGEBIN_VIEW_HOST", read);
        let view_host: Option<Host> = match read {
            Ok(Some(text)) => match Host::parse(text.as_str()) {
                Some(host) => {
                    if host.same(&admin_host) {
                        proof {
                            rejected_at(lookup, raw, next, none);
                        }
                        return Err(AppError::configuration("PAGEBIN_VIEW_HOST"));
                    }
                    Some(host)
                },
                None => {
                    proof {
                        rejected_at(lookup, raw, next, none);
                    }
                    return Err(AppError::configuration("PAGEBIN_VIEW_HOST"));
                },
            },
            Ok(None) => None,
            Err(error) => {
                proof {
                    rejected_at(lookup, raw, next, none);
                }
                return Err(error);
            },
        };
        proof {
            accepted_at(lookup, raw, next, none);
            raw = raw.push(next);
        }
        let viewer_host: Host = match &view_host {
            Some(host) => host.copy(),
            None => admin_host.copy(),
        };
        let mut default_url = String::new();
        push_text(&mut default_url, "https://");
        push_text(&mut default_url, viewer_host.as_str());
        assert(default_url@ =~= "https://"@ + viewer_host@);
        let read: Result<String, AppError> = self.or_default(
            "PAGEBIN_PUBLIC_URL",
            default_url.as_str(),
        );
        let ghost next = choose|v: Raw| #[trigger]
            call_ensures(lookup, ("PAGEBIN_PUBLIC_URL",), v) && match read {
                Ok(text) => readable(v) && text_or(v, default_url@) == text@,
                Err(error) => !readable(v),
            };
        let public_url: String = match read {
            Ok(text) => match parse_public_url(text.as_str(), &viewer_host) {
                Some(base) => base,
                None => {
                    proof {
                        rejected_at(lookup, raw, next, none);
                    }
                    return Err(AppError::configuration("PAGEBIN_PUBLIC_URL"));
                },
            },
            Err(error) => {
                proof {
                    rejected_at(lookup, raw, next, none);
                }
                return Err(error);
            },
        };
        proof {
            accepted_at(lookup, raw, next, none);
            raw = raw.push(next);
        }
        let read: Result<String, AppError> = self.or_default("PAGEBIN_MAX_UPLOAD_MB", "50");
        let ghost next = choose|v: Raw| #[trigger]
            call_ensures(lookup, ("PAGEBIN_MAX_UPLOAD_MB",), v) && match read {
                Ok(text) => readable(v) && text_or(v, "50"@) == text@,
                Err(error) => !readable(v),
            };
        let max_upload_bytes: usize = match read {
            Ok(text) => match parse_upload_limit(text.as_str()) {
                Some(limit) => limit,
                None => {
                    proof {
                        rejected_at(lookup, raw, next, none);
                    }
                    return Err(AppError::configuration("PAGEBIN_MAX_UPLOAD_MB"));
                },
            },
            Err(error) => {
                proof {
                    rejected_at(lookup, raw, next, none);
                }
                return Err(error);
            },
        };
        proof {
            accepted_at(lookup, raw, next, none);
            raw = raw.push(next);
        }
        let read: Result<String, AppError> = self.or_default("PAGEBIN_DATA_DIR", "data");
        let ghost next = choose|v: Raw| #[trigger]
            call_ensures(lookup, ("PAGEBIN_DATA_DIR",), v) && match read {
                Ok(text) => readable(v) && text_or(v, "data"@) == text@,
                Err(error) => !readable(v),
            };
        let data_dir: String = match read {
            Ok(text) => match validated_data_dir(text.as_str()) {
                Ok(directory) => directory,
                Err(error) => {
                    proof {
                        rejected_at(lookup, raw, next, none);
                    }
                    return Err(error);
                },
            },
            Err(error) => {
                proof {
                    rejected_at(lookup, raw, next, none);
                }
                return Err(error);
            },
        };
        let ghost directory: Option<Seq<char>> = Some(data_dir@);
        proof {
            directory_is_free(raw, none, directory);
            accepted_at(lookup, raw, next, directory);
            raw = raw.push(next);
        }
        let read: Result<String, AppError> = self.or_default("PAGEBIN_PORT", "5050");
        let ghost next = choose|v: Raw| #[trigger]
            call_ensures(lookup, ("PAGEBIN_PORT",), v) && match read {
                Ok(text) => readable(v) && text_or(v, "5050"@) == text@,
                Err(error) => !readable(v),
            };
        let port: u16 = match read {
            Ok(text) => {
                let chars: Vec<char> = chars_of(text.as_str());
                match parse_port(chars.as_slice()) {
                    Some(port) => port,
                    None => {
                        proof {
                            rejected_at(lookup, raw, next, directory);
                        }
                        return Err(AppError::configuration("PAGEBIN_PORT"));
                    },
                }
            },
            Err(error) => {
                proof {
                    rejected_at(lookup, raw, next, directory);
                }
                return Err(error);
            },
        };
        proof {
            accepted_at(lookup, raw, next, directory);
            raw = raw.push(next);
        }
        let read: Result<String, AppError> = self.or_default(
            "RUST_LOG",
            "pagebin=info,tower_http=info",
        );
        let ghost next = choose|v: Raw| #[trigger]
            call_ensures(lookup, ("RUST_LOG",), v) && match read {
                Ok(text) => readable(v) && text_or(v, "pagebin=info,tower_http=info"@) == text@,
                Err(error) => !readable(v),
            };
        let log_filter: String = match read {
            Ok(text) => text,
            Err(error) => {
                proof {
                    rejected_at(lookup, raw, next, directory);
                }
                return Err(error);
            },
        };
        if !accepts_log_filter(log_filter.as_str()) {
            proof {
                rejected_at(lookup, raw, next, directory);
            }
            return Err(AppError::configuration("RUST_LOG"));
        }
        proof {
            accepted_at(lookup, raw, next, directory);
            raw = raw.push(next);
        }
        let read: Result<Option<String>, AppError> = self.optional("PAGEBIN_SECRET");
        let ghost next = choose|v: Raw| #[trigger]
            call_ensures(lookup, ("PAGEBIN_SECRET",), v) && reads_as(v, "PAGEBIN_SECRET", read);
        let signing_secret: Option<[u8; MASTER_KEY_BYTES]> = match read {
            Ok(Some(text)) => match parse_secret(text.as_str()) {
                Ok(secret) => Some(secret),
                Err(error) => {
                    proof {
                        rejected_at(lookup, raw, next, directory);
                    }
                    return Err(error);
                },
            },
            Ok(None) => None,
            Err(error) => {
                proof {
                    rejected_at(lookup, raw, next, directory);
                }
                return Err(error);
            },
        };
        proof {
            accepted_at(lookup, raw, next, directory);
            raw = raw.push(next);
        }
        let read: Result<Option<String>, AppError> = self.optional("PAGEBIN_TRUST_PROXY");
        let ghost next = choose|v: Raw| #[trigger]
            call_ensures(lookup, ("PAGEBIN_TRUST_PROXY",), v) && reads_as(
                v,
                "PAGEBIN_TRUST_PROXY",
                read,
            );
        let trust_proxy: bool = match read {
            Ok(Some(text)) => {
                proof {
                    reveal_strlit("true");
                    reveal_strlit("false");
                    assert("true"@.len() != "false"@.len());
                }
                if same(text.as_str(), "true") {
                    true
                } else if same(text.as_str(), "false") {
                    false
                } else {
                    proof {
                        rejected_at(lookup, raw, next, directory);
                    }
                    return Err(AppError::configuration("PAGEBIN_TRUST_PROXY"));
                }
            },
            Ok(None) => false,
            Err(error) => {
                proof {
                    rejected_at(lookup, raw, next, directory);
                }
                return Err(error);
            },
        };
        proof {
            accepted_at(lookup, raw, next, directory);
            raw = raw.push(next);
        }
        let r: Result<Config, AppError> = Ok(
            Config {
                admin_host,
                admin_password,
                api_token,
                view_host,
                public_url,
                max_upload_bytes,
                data_dir,
                port,
                log_filter,
                signing_secret,
                trust_proxy,
            },
        );
        assert(build_outcome(lookup, raw, directory, r));
        r
    }
}

/// A variable that is read and rejected ends the reading.
proof fn rejected_at<F: Fn(&str) -> Raw>(
    lookup: F,
    raw: Seq<Raw>,
    next: Raw,
    directory: Option<Seq<char>>,
)
    requires
        raw.len() < variables(),
        looked_up(lookup, raw),
        all_valid(raw, directory),
        directory_read(raw.push(next), directory),
        call_ensures(lookup, (variable(raw.len() as int),), next),
        !variable_valid(raw.len() as int, raw.push(next), directory),
    ensures
        build_outcome(
            lookup,
            raw.push(next),
            directory,
            Err::<Config, AppError>(misconfigured(variable(raw.len() as int))),
        ),
{
    assert(raw.push(next).drop_last() =~= raw);
}

/// A variable that is read and valid joins those before it.
proof fn accepted_at<F: Fn(&str) -> Raw>(
    lookup: F,
    raw: Seq<Raw>,
    next: Raw,
    directory: Option<Seq<char>>,
)
    requires
        looked_up(lookup, raw),
        all_valid(raw, directory),
        call_ensures(lookup, (variable(raw.len() as int),), next),
        variable_valid(raw.len() as int, raw.push(next), directory),
    ensures
        looked_up(lookup, raw.push(next)),
        all_valid(raw.push(next), directory),
{
    one_more_valid(raw, next, directory);
}

/// What an operator may rely on: the two hosts differ, share links lie on the
/// host that serves sites, and plain HTTP appears in them on loopback only.
pub proof fn configuration_separates_origins(raw: Seq<Raw>, directory: Option<Seq<char>>)
    requires
        raw.len() == variables(),
        all_valid(raw, directory),
    ensures
        ({
            let config = config_of(raw, directory->0);
            let viewer = viewer_of(config.admin_host, config.view_host);
            &&& config.view_host != Some(config.admin_host)
            &&& has_prefix(config.public_url, "https://"@ + viewer) || (has_prefix(
                config.public_url,
                "http://"@ + viewer,
            ) && loopback(viewer))
            &&& config.max_upload_bytes > 0
            &&& password_allowed(config.admin_password)
            &&& config.api_token matches Some(token) ==> password_allowed(token)
        }),
{
    assert(variable_valid(1, raw, directory));
    assert(variable_valid(2, raw, directory));
    assert(variable_valid(3, raw, directory));
    assert(variable_valid(4, raw, directory));
    assert(variable_valid(5, raw, directory));
    let viewer = viewer_of(admin_host_of(raw), view_host_of(raw));
    let base = public_url(public_text(raw), viewer)->0;
    let parts = uri_parts(public_text(raw))->0;
    let scheme = parts.0->0;
    let port = port_text(parts.1->0);
    reveal_strlit("http");
    reveal_strlit("https");
    reveal_strlit("://");
    reveal_strlit("http://");
    reveal_strlit("https://");
    assert("https"@ + "://"@ =~= "https://"@);
    assert("http"@ + "://"@ =~= "http://"@);
    assert(base == scheme + "://"@ + viewer + port);
    let front = scheme + "://"@ + viewer;
    assert(base.take(front.len() as int) =~= front);
    if scheme == "https"@ {
        assert(front =~= "https://"@ + viewer);
    } else {
        assert(front =~= "http://"@ + viewer);
    }
}

}
