//! Which requests are served, for whom, and how their failures are answered.
use crate::error::{answer, diagnostic, AppError, ErrorKind};
use crate::host::{authority_host_of, host_of, loopback, valid_name};
use crate::ip6::{address_of, canonical_address};
use crate::routes::admin::{admin_headers, back_to, chosen_theme, known_font, theme_choice};
use crate::routes::cookies::{
    cookie_parts, cookies_allowed, decoded_name, literal_name, protected_name,
};
use crate::routes::forms::RawForm;
use crate::routes::reply::{error_status, feedback_text};
use crate::routes::{
    client_address, dispatched, header_chars, origin_allowed, origin_matches, site_path,
    ClientIpSource,
};
use crate::text::{lower, split, trimmed};
use crate::web::{port_number, port_part, UriView};
use vstd::prelude::*;

verus! {

/// Sites live below `/s`: the address itself and whatever follows it behind a
/// slash, and nothing that merely starts with the same letter.
pub proof fn sites_live_below_their_prefix(path: Seq<char>)
    ensures
        site_path(path) <==> path.len() >= 2 && path[0] == '/' && path[1] == 's' && (path.len() == 2
            || path[2] == '/'),
{
    reveal_strlit("/s");
    reveal_strlit("/s/");
    if path.len() == 2 && path[0] == '/' && path[1] == 's' {
        assert(path =~= "/s"@);
    }
    if path.len() >= 3 && path[0] == '/' && path[1] == 's' && path[2] == '/' {
        assert(path.take(3) =~= "/s/"@);
    }
    if crate::text::has_prefix(path, "/s/"@) {
        assert(path.take(3)[0] == path[0] && path.take(3)[1] == path[1] && path.take(3)[2]
            == path[2]);
    }
}

/// A request that names one host is served by it. The admin host serves
/// everything where it is alone, and everything but sites beside a viewer host;
/// the viewer host serves sites and nothing else.
pub proof fn hosts_serve_what_is_theirs(
    header: Seq<u8>,
    value: Seq<char>,
    host: Seq<char>,
    path: Seq<char>,
    admin: Seq<char>,
    viewer: Seq<char>,
)
    requires
        header_chars(header) == Some(value),
        authority_host_of(value) == Some(host),
        admin != viewer,
    ensures
        dispatched(seq![header], path, None, admin, None) <==> host == admin,
        dispatched(seq![header], path, None, admin, Some(viewer)) <==> (host == admin && !site_path(
            path,
        )) || (host == viewer && site_path(path)),
{
}

/// A request without a host, with more than one, with an unreadable one, or
/// with a target that names another authority is served by none. Letter case
/// does not matter to the comparison.
pub proof fn unclear_hosts_are_not_served(
    hosts: Seq<Seq<u8>>,
    path: Seq<char>,
    authority: Seq<char>,
    admin: Seq<char>,
    viewer: Option<Seq<char>>,
)
    ensures
        hosts.len() != 1 ==> !dispatched(hosts, path, None, admin, viewer) && !dispatched(
            hosts,
            path,
            Some(authority),
            admin,
            viewer,
        ),
        hosts.len() == 1 && header_chars(hosts[0]) is None ==> !dispatched(
            hosts,
            path,
            None,
            admin,
            viewer,
        ),
        hosts.len() == 1 && header_chars(hosts[0]) is Some ==> (dispatched(
            hosts,
            path,
            Some(authority),
            admin,
            viewer,
        ) <==> dispatched(hosts, path, None, admin, viewer) && lower(authority) == lower(
            header_chars(hosts[0])->0,
        )),
{
}

/// Where the socket is trusted, headers do not change the client's address, and
/// where a proxy is trusted, the peer does not: the last hop of the one header
/// counts, and a header that is missing, repeated or unreadable is refused. An
/// address is the same however it is carried.
pub proof fn clients_are_known_by_the_trusted_source(
    forwarded: Seq<Seq<u8>>,
    other: Seq<Seq<u8>>,
    peer: Seq<u16>,
    second: Seq<u16>,
)
    ensures
        client_address(ClientIpSource::Socket, forwarded, peer) == client_address(
            ClientIpSource::Socket,
            other,
            peer,
        ),
        client_address(ClientIpSource::Socket, forwarded, peer) == Some(canonical_address(peer)),
        client_address(ClientIpSource::Forwarded, forwarded, peer) == client_address(
            ClientIpSource::Forwarded,
            forwarded,
            second,
        ),
        forwarded.len() != 1 ==> client_address(ClientIpSource::Forwarded, forwarded, peer) is None,
        forwarded.len() == 1 && header_chars(forwarded[0]) is None ==> client_address(
            ClientIpSource::Forwarded,
            forwarded,
            peer,
        ) is None,
{
}

/// A forwarding header of one address gives that address; behind other hops the
/// last one counts, and every hop must be an address.
pub proof fn the_last_hop_is_the_client(
    single: Seq<u8>,
    chained: Seq<u8>,
    first: Seq<char>,
    last: Seq<char>,
    peer: Seq<u16>,
)
    requires
        !first.contains(','),
        !last.contains(','),
        header_chars(single) == Some(last),
        header_chars(chained) == Some(first + seq![','] + last),
    ensures
        client_address(ClientIpSource::Forwarded, seq![single], peer) == match address_of(
            trimmed(last),
        ) {
            Some(address) => Some(canonical_address(address)),
            None => None,
        },
        client_address(ClientIpSource::Forwarded, seq![chained], peer) == match (
            address_of(trimmed(first)),
            address_of(trimmed(last)),
        ) {
            (Some(_), Some(address)) => Some(canonical_address(address)),
            _ => None,
        },
{
    crate::text::split_single(last, ',');
    crate::text::split_cons(first, last, ',');
    let hops = split(first + seq![','] + last, ',');
    assert(hops =~= seq![first, last]);
    assert(hops[0] == first && hops[1] == last);
    assert(split(last, ',')[0] == last);
    if address_of(trimmed(first)) is Some && address_of(trimmed(last)) is Some {
        assert forall|i: int| 0 <= i < hops.len() implies address_of(
            trimmed(#[trigger] hops[i]),
        ) is Some by {
            assert(i == 0 || i == 1);
        }
    }
    if address_of(trimmed(last)) is Some {
        assert forall|i: int| 0 <= i < split(last, ',').len() implies address_of(
            trimmed(#[trigger] split(last, ',')[i]),
        ) is Some by {
            assert(i == 0);
        }
    }
}

/// An address that carries an older one is that one; others are themselves, so
/// naming a client twice changes nothing.
pub proof fn carried_addresses_are_the_older_ones(a: u16, b: u16, c: u16, d: u16, parts: Seq<u16>)
    requires
        a < 256 && b < 256 && c < 256 && d < 256,
    ensures
        canonical_address(
            seq![0u16, 0, 0, 0, 0, 0xffff, (a * 256 + b) as u16, (c * 256 + d) as u16],
        ) == seq![a, b, c, d],
        canonical_address(seq![a, b, c, d]) == seq![a, b, c, d],
        canonical_address(canonical_address(parts)) == canonical_address(parts),
        parts.len() == 8 && !(forall|i: int| 0 <= i < 5 ==> #[trigger] parts[i] == 0)
            ==> canonical_address(parts) == parts,
        parts.len() == 8 && parts[5] != 0xffff ==> canonical_address(parts) == parts,
{
    assert(canonical_address(
        seq![0u16, 0, 0, 0, 0, 0xffff, (a * 256 + b) as u16, (c * 256 + d) as u16],
    ) =~= seq![a, b, c, d]);
}

/// A form without an origin is taken, and one with two is not. An origin is a
/// scheme and an authority and nothing else, its host is the requested one, and
/// it is secure unless the host is the machine itself.
pub proof fn origins_are_those_of_the_request(
    origin: Seq<u8>,
    second: Seq<u8>,
    host: Seq<u8>,
    raw: Seq<char>,
    requested: Seq<char>,
    parts: UriView,
)
    requires
        header_chars(origin) == Some(raw),
        header_chars(host) == Some(requested),
        crate::web::uri_parts(raw) == Some(parts),
    ensures
        origin_allowed(Seq::empty(), seq![host]),
        !origin_allowed(seq![origin, second], seq![host]),
        !origin_allowed(seq![origin], Seq::empty()),
        origin_allowed(seq![origin], seq![host]) ==> {
            &&& parts.0 is Some && parts.1 is Some
            &&& raw == parts.0->0 + seq![':', '/', '/'] + parts.1->0
            &&& authority_host_of(parts.1->0) is Some
            &&& authority_host_of(parts.1->0) == authority_host_of(requested)
            &&& parts.0->0 == seq!['h', 't', 't', 'p', 's'] || (parts.0->0 == seq![
                'h',
                't',
                't',
                'p',
            ] && loopback(authority_host_of(requested)->0))
        },
{
    reveal_strlit("://");
    reveal_strlit("https");
    reveal_strlit("http");
    assert("://"@ =~= seq![':', '/', '/']);
    assert("https"@ =~= seq!['h', 't', 't', 'p', 's']);
    assert("http"@ =~= seq!['h', 't', 't', 'p']);
}

/// The ports of an origin and of the request agree, where a port that is not
/// written is 443 of a secure origin and 80 of another; nothing more than that,
/// the host and the scheme is asked of an origin.
pub proof fn origins_agree_in_their_ports(
    authority: Seq<char>,
    requested: Seq<char>,
    tail: (Seq<char>, Option<Seq<char>>, Option<Seq<char>>),
)
    requires
        authority_host_of(authority) is Some,
        authority_host_of(authority) == authority_host_of(requested),
    ensures
        ({
            let raw = "https"@ + "://"@ + authority;
            let parts: UriView = (Some("https"@), Some(authority), tail.0, tail.1, tail.2);
            let port = match port_part(authority) {
                Some(port) => port as int,
                None => 443,
            };
            origin_matches(raw, parts, requested) <==> port_part(requested) == Some(port as u16)
                || (port_part(requested) is None && port == 443)
        }),
        ({
            let raw = "http"@ + "://"@ + authority;
            let parts: UriView = (Some("http"@), Some(authority), tail.0, tail.1, tail.2);
            let port = match port_part(authority) {
                Some(port) => port as int,
                None => 80,
            };
            origin_matches(raw, parts, requested) <==> loopback(authority_host_of(authority)->0) && (
            port_part(requested) == Some(port as u16) || (port_part(requested) is None && port
                == 80))
        }),
{
    reveal_strlit("https");
    reveal_strlit("http");
    assert("https"@.len() == 5 && "http"@.len() == 4);
}

/// Whatever fails inside the server is answered alike, with status 500 and no
/// detail; a rejection is answered with its own status and message. What the
/// operator reads tells the failures apart, and names the variable at fault.
pub proof fn failures_are_answered_alike(kind: ErrorKind, other: ErrorKind, name: &'static str)
    ensures
        !(kind is Request) ==> error_status(AppError { kind }) == 500,
        !(kind is Request) && !(other is Request) ==> answer(kind) == answer(other),
        kind matches ErrorKind::Request(status, message) ==> answer(kind) == (status, message)
            && diagnostic(kind) == message@,
        diagnostic(ErrorKind::Configuration(name)) == "missing or invalid configuration: "@ + name@,
        diagnostic(ErrorKind::Storage) == "storage initialization failed"@,
        diagnostic(ErrorKind::Database) == "database initialization failed"@,
        diagnostic(ErrorKind::Migration) == "database migration failed"@,
        diagnostic(ErrorKind::Listener) == "listener operation failed"@,
        diagnostic(ErrorKind::Logging) == "logging initialization failed"@,
        diagnostic(ErrorKind::Authentication) == "authentication operation failed"@,
        diagnostic(ErrorKind::Publishing) == "publishing operation failed"@,
{
}

/// A busy server says so, and every other rejection says its own message.
pub proof fn feedback_says_what_was_wrong(status: u16, message: &'static str)
    ensures
        status != 429 ==> feedback_text(AppError { kind: ErrorKind::Request(status, message) })
            == message@,
        feedback_text(AppError { kind: ErrorKind::Request(429, message) })
            == "Password processing is busy. Try again shortly."@,
{
}

/// A theme that was chosen is the one that is shown afterwards; where none was,
/// or an unknown one is sent, the dark one is shown. There are two.
pub proof fn chosen_themes_are_shown(form: Result<RawForm, AppError>, other: Seq<char>)
    ensures
        theme_choice(form) matches Ok(choice) ==> chosen_theme(Some(choice))@ == choice && (choice
            == "ledger"@ || choice == "ledger-light"@),
        chosen_theme(None)@ == "ledger"@,
        other != "ledger-light"@ ==> chosen_theme(Some(other))@ == "ledger"@,
        chosen_theme(Some("ledger-light"@))@ == "ledger-light"@,
{
    reveal_strlit("ledger");
    reveal_strlit("ledger-light");
    assert("ledger"@.len() != "ledger-light"@.len());
}

/// A theme form of one known choice is accepted, and any other choice is not.
pub proof fn known_themes_are_accepted(raw: RawForm, choice: Seq<char>)
    requires
        crate::routes::forms::form_values(raw, seq![("theme"@, 16usize)]) == Ok::<
            Seq<Option<Seq<char>>>,
            AppError,
        >(seq![Some(choice)]),
    ensures
        choice == "ledger"@ || choice == "ledger-light"@ ==> theme_choice(Ok(raw)) == Ok::<
            Seq<char>,
            AppError,
        >(choice),
        choice != "ledger"@ && choice != "ledger-light"@ ==> theme_choice(Ok(raw)) == Err::<
            Seq<char>,
            AppError,
        >(crate::laws::forms::refused(400)),
{
    assert(crate::routes::admin::theme_fields() =~= seq![("theme"@, 16usize)]);
}

/// A browser is sent back to a path of this server: to the one that it came
/// from where that is local, and to the front page otherwise.
pub proof fn returns_stay_on_the_server(path: Seq<char>)
    ensures
        back_to(None) == seq!['/'],
        path.len() > 0 && path[0] == '/' && (path.len() == 1 || path[1] != '/') ==> back_to(
            Some(path),
        ) == path,
        path.len() == 0 || path[0] != '/' ==> back_to(Some(path)) == seq!['/'],
        path.len() > 1 && path[1] == '/' ==> back_to(Some(path)) == seq!['/'],
{
    reveal_strlit("/");
    reveal_strlit("//");
    assert("/"@ =~= seq!['/']);
    if path.len() > 0 && path[0] == '/' {
        assert(path.take(1) =~= "/"@);
        if path.len() > 1 && path[1] == '/' {
            assert(path.take(2) =~= "//"@);
        } else if path.len() > 1 {
            assert(path.take(2)[1] == path[1]);
        }
    } else if path.len() > 0 {
        assert(path.take(1)[0] == path[0]);
    }
}

/// Every admin response names its protections; only files that never change may
/// be cached, and scripts run on successful scripted pages alone.
pub proof fn admin_responses_are_guarded(status: u16, scripted: bool, cached: bool)
    ensures
        ({
            let headers = admin_headers(status, scripted, cached);
            &&& headers[0] == ("x-content-type-options", "nosniff")
            &&& headers[1] == ("referrer-policy", "same-origin")
            &&& headers[2].0 == "content-security-policy"
            &&& headers.len() == if cached {
                3int
            } else {
                4
            }
            &&& !cached ==> headers[3] == ("cache-control", "private, no-store")
            &&& headers[2].1 == if scripted && 200 <= status <= 299 {
                "default-src 'none'; style-src 'self'; font-src 'self'; form-action 'self'; frame-ancestors 'none'; base-uri 'none'; script-src 'self'"
            } else {
                "default-src 'none'; style-src 'self'; font-src 'self'; form-action 'self'; frame-ancestors 'none'; base-uri 'none'"
            }
        }),
{
}

/// A name of a host consists of labels between dots: each has one to 63 letters,
/// digits and inner hyphens, and all have at most 253 characters together. It is
/// known by its small letters.
pub proof fn hosts_are_names_of_labels(value: Seq<char>, i: int, j: int)
    requires
        host_of(value) is Some,
        !(value.len() >= 2 && value[0] == '[' && value.last() == ']'),
    ensures
        ({
            let host = host_of(value)->0;
            let labels = split(host, '.');
            &&& 1 <= host.len() <= 253
            &&& 0 <= i < labels.len() ==> 1 <= labels[i].len() <= 63 && labels[i][0] != '-'
                && labels[i].last() != '-'
            &&& 0 <= i < labels.len() && 0 <= j < labels[i].len() ==> {
                ||| '0' <= labels[i][j] && labels[i][j] <= '9'
                ||| 'a' <= labels[i][j] && labels[i][j] <= 'z'
                ||| labels[i][j] == '-'
            }
        }),
{
    let name = crate::host::undotted(value);
    crate::host::host_is_canonical(value);
    let host = host_of(value)->0;
    assert(host == lower(name));
    assert(host.len() == name.len());
    crate::text::split_lower(name, '.');
    let labels = split(host, '.');
    if 0 <= i < labels.len() {
        let label = split(name, '.')[i];
        assert(crate::host::valid_label(label));
        assert(labels[i] == lower(label));
        assert(labels[i].len() == label.len());
        assert(crate::host::label_char(label[0]));
        assert(crate::host::label_char(label[label.len() - 1]));
        if 0 <= j < labels[i].len() {
            assert(crate::host::label_char(label[j]));
        }
    }
}

/// A name that keeps to the rules is a host, in small letters and without a
/// final dot.
pub proof fn sound_names_are_hosts(value: Seq<char>)
    requires
        1 <= value.len() <= 253,
        value[0] != '[',
        value.last() != '.',
        forall|i: int|
            0 <= i < split(value, '.').len() ==> sound_label(#[trigger] split(value, '.')[i]),
    ensures
        host_of(value) == Some(lower(value)),
        host_of(value.push('.')) == Some(lower(value)),
{
    assert(value.push('.').drop_last() =~= value);
    assert(valid_name(value)) by {
        assert forall|i: int| 0 <= i < split(value, '.').len() implies crate::host::valid_label(
            #[trigger] split(value, '.')[i],
        ) by {
            let label = split(value, '.')[i];
            assert(sound_label(label));
            assert forall|j: int| 0 <= j < label.len() implies crate::host::label_char(
                #[trigger] label[j],
            ) by {
                assert(sound_char(label[j]));
            }
        }
    }
}

/// A letter, a digit or a hyphen.
pub open spec fn sound_char(c: char) -> bool {
    ||| '0' <= c && c <= '9'
    ||| 'a' <= c && c <= 'z'
    ||| 'A' <= c && c <= 'Z'
    ||| c == '-'
}

/// One to 63 such characters with no hyphen at either end.
pub open spec fn sound_label(label: Seq<char>) -> bool {
    &&& 1 <= label.len() <= 63
    &&& label[0] != '-'
    &&& label.last() != '-'
    &&& forall|j: int| 0 <= j < label.len() ==> sound_char(#[trigger] label[j])
}

/// The machine itself is known by `localhost`, by the names below it, by the
/// addresses that start with 127; no other address of that form is the machine.
pub proof fn the_machine_is_known_by_these_hosts(name: Seq<char>, a: u16, b: u16, c: u16, d: u16)
    requires
        a < 256 && b < 256 && c < 256 && d < 256,
    ensures
        loopback("localhost"@),
        loopback(name + ".localhost"@),
        loopback(crate::ip::v4_text(seq![a, b, c, d])) <==> a == 127,
{
    let whole = name + ".localhost"@;
    assert(whole.skip(whole.len() - ".localhost"@.len()) =~= ".localhost"@);
    let parts = seq![a, b, c, d];
    assert(crate::ip::octets(parts));
    let text = crate::ip::v4_text(parts);
    crate::text::decimal_value(a as nat);
    crate::text::decimal_value(d as nat);
    assert(text[0] == crate::text::decimal(a as nat)[0]);
    assert(text.last() == crate::text::decimal(d as nat).last());
    assert(crate::host::unbracketed(text) == text);
    if loopback(text) && a != 127 {
        reveal_strlit("localhost");
        reveal_strlit(".localhost");
        if crate::text::has_suffix(text, ".localhost"@) {
            let end = text.skip(text.len() - 10);
            assert(end[9] == text.last());
        }
        assert forall|other: Seq<u16>|
            crate::ip::octets(other) && text == #[trigger] crate::ip::v4_text(
                other,
            ) implies other == parts by {
            crate::ip6::v4_unique(parts, other);
        }
        v4_text_is_no_newer_address(parts);
    }
}

/// Of the addresses in brackets one is the machine itself: seven zeros and a one.
pub proof fn the_machine_has_one_newer_address(parts: Seq<u16>)
    requires
        parts.len() == 8,
    ensures
        loopback(seq!['['] + crate::ip6::v6_text(parts) + seq![']']) <==> parts == seq![
            0u16,
            0,
            0,
            0,
            0,
            0,
            0,
            1,
        ],
{
    reveal_strlit("localhost");
    reveal_strlit(".localhost");
    let text = crate::ip6::v6_text(parts);
    let host = seq!['['] + text + seq![']'];
    crate::ip6::v6_round_trip(parts);
    assert(host.subrange(1, host.len() - 1) =~= text);
    assert(host[0] == '[' && host.last() == ']');
    if crate::text::has_suffix(host, ".localhost"@) {
        assert(host.skip(host.len() - 10)[9] == host.last());
    }
    assert forall|other: Seq<u16>|
        crate::ip::octets(other) implies text != #[trigger] crate::ip::v4_text(other) by {
        v4_text_is_no_newer_address(other);
    }
}

proof fn v4_text_is_no_newer_address(parts: Seq<u16>)
    requires
        crate::ip::octets(parts),
    ensures
        crate::ip6::v6_of(crate::ip::v4_text(parts)) is None,
{
    let text = crate::ip::v4_text(parts);
    assert forall|i: int| 0 <= i < text.len() implies text[i] != ':' by {
        crate::ip6::v4_text_chars(parts, i);
    }
    no_pair(text);
    crate::text::split_single(text, ':');
    let all = split(text, ':');
    assert(all.drop_last() =~= Seq::empty());
    let dot = crate::text::decimal(parts[0] as nat).len() as int;
    assert(text[dot] == '.');
    assert(!crate::ip6::hex_any('.'));
    assert(crate::ip6::group(text) is None);
    assert(crate::ip6::groups(all) is None);
    assert(crate::ip6::groups(Seq::empty()) == Some(Seq::<u16>::empty()));
    assert(crate::ip6::segments(all, true) matches Some(found) ==> found.len() == 2);
}

proof fn no_pair(s: Seq<char>)
    requires
        !s.contains(':'),
    ensures
        crate::ip6::first_pair(s) == s.len(),
    decreases s.len(),
{
    if s.len() >= 2 {
        assert(s.contains(s[0]));
        assert forall|c: char| s.skip(1).contains(c) implies s.contains(c) by {
            let i = choose|i: int| 0 <= i < s.skip(1).len() && s.skip(1)[i] == c;
            assert(s[i + 1] == c);
        }
        no_pair(s.skip(1));
    }
}

/// A port is read as its number, and there are 65535 of them beside none.
pub proof fn ports_are_numbers(text: Seq<char>, n: nat)
    ensures
        n <= 65_535 ==> port_number(crate::text::decimal(n)) == Some(n as u16),
        n > 65_535 ==> port_number(crate::text::decimal(n)) is None,
{
    crate::text::decimal_value(n);
    let s = crate::text::decimal(n);
    assert(s.len() > 0 && crate::text::is_digit(s[0]));
}

/// The fonts that are served.
pub proof fn fonts_are_known_by_name(name: Seq<char>)
    requires
        known_font(name),
    ensures
        crate::text::has_suffix(name, ".woff2"@),
        crate::text::has_prefix(name, "AtkinsonHyperlegible"@),
{
    reveal_strlit(".woff2");
    reveal_strlit("AtkinsonHyperlegible");
    reveal_strlit("AtkinsonHyperlegibleNext-Regular.woff2");
    reveal_strlit("AtkinsonHyperlegibleNext-SemiBold.woff2");
    reveal_strlit("AtkinsonHyperlegibleNext-Bold.woff2");
    reveal_strlit("AtkinsonHyperlegibleMono-Regular.woff2");
    reveal_strlit("AtkinsonHyperlegibleMono-Medium.woff2");
    assert(name.skip(name.len() - 6) =~= ".woff2"@);
    assert(name.take(20) =~= "AtkinsonHyperlegible"@);
}

/// Cookies are read from every header in turn, between semicolons; a header that
/// is not readable makes them unreadable.
pub proof fn cookies_stand_between_semicolons(
    headers: Seq<Seq<u8>>,
    header: Seq<u8>,
    first: Seq<char>,
    second: Seq<char>,
)
    requires
        !first.contains(';'),
        !second.contains(';'),
    ensures
        cookie_parts(Seq::empty()) == Some(Seq::<Seq<char>>::empty()),
        cookie_parts(headers) is Some && header_chars(header) == Some(
            first + seq![';'] + second,
        ) ==> cookie_parts(headers.push(header)) == Some(
            cookie_parts(headers)->0 + seq![first, second],
        ),
        cookie_parts(headers) is Some && header_chars(header) == Some(first) ==> cookie_parts(
            headers.push(header),
        ) == Some(cookie_parts(headers)->0.push(first)),
        header_chars(header) is None || cookie_parts(headers) is None ==> cookie_parts(
            headers.push(header),
        ) is None,
{
    assert(headers.push(header).drop_last() =~= headers);
    crate::text::split_single(first, ';');
    crate::text::split_single(second, ';');
    crate::text::split_cons(first, second, ';');
    assert(split(first + seq![';'] + second, ';') =~= seq![first, second]);
    if cookie_parts(headers) is Some {
        assert(cookie_parts(headers)->0 + seq![first] =~= cookie_parts(headers)->0.push(first));
    }
}

/// Cookies are refused where a protected name comes twice, or is written in
/// another way than it reads; other cookies do not matter.
pub proof fn protected_cookies_come_once(
    headers: Seq<Seq<u8>>,
    names: Seq<Seq<char>>,
    parts: Seq<Seq<char>>,
    name: Seq<char>,
    i: int,
    j: int,
)
    requires
        cookie_parts(headers) == Some(parts),
        names.contains(name),
        0 <= i < parts.len(),
        0 <= j < parts.len(),
    ensures
        i != j && decoded_name(parts[i]) == Some(name) && decoded_name(parts[j]) == Some(name)
            ==> !cookies_allowed(headers, names),
        decoded_name(parts[i]) == Some(name) && literal_name(parts[i]) != Some(name)
            ==> !cookies_allowed(headers, names),
        (forall|k: int|
            0 <= k < parts.len() ==> (decoded_name(#[trigger] parts[k]) is None || !names.contains(
                decoded_name(parts[k])->0,
            ))) ==> cookies_allowed(headers, names),
        parts.len() == 1 && decoded_name(parts[0]) == Some(name) && literal_name(parts[0]) == Some(
            name,
        ) ==> cookies_allowed(headers, names),
{
    if i != j && decoded_name(parts[i]) == Some(name) && decoded_name(parts[j]) == Some(name) {
        assert(protected_name(parts[i], names) == Some(name));
        assert(protected_name(parts[j], names) == Some(name));
    }
    if decoded_name(parts[i]) == Some(name) {
        assert(protected_name(parts[i], names) == Some(name));
    }
}

/// Unreadable cookies are refused.
pub proof fn unreadable_cookies_are_refused(headers: Seq<Seq<u8>>, names: Seq<Seq<char>>)
    requires
        cookie_parts(headers) is None,
    ensures
        !cookies_allowed(headers, names),
{
}

}
