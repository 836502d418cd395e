//! What the settings of the server mean.
use crate::auth::tokens::hex_text;
use crate::config::{
    built, config_of, dotenv_entries, dotenv_entry, last_value, merged, password_allowed,
    public_url, public_url_of, secret_bytes, text_of, upload_limit, valid_secret, variable_valid,
    Config, Raw,
};
use crate::error::{AppError, ErrorKind};
use crate::host::{authority_host_of, host_of, loopback};
use crate::text::{decimal, is_white};
use crate::web::{port_part, UriView};
use vstd::prelude::*;
use vstd::utf8::encode_utf8;

verus! {

/// A password has 1 to 131072 bytes and no line end or null character in it.
pub proof fn passwords_are_bounded_lines(password: Seq<char>)
    ensures
        password_allowed(password) <==> {
            &&& 1 <= encode_utf8(password).len() <= 131_072
            &&& forall|i: int|
                0 <= i < password.len() ==> #[trigger] password[i] as int != 0 && password[i] as int
                    != 10 && password[i] as int != 13
        },
{
    if password_allowed(password) {
        assert forall|i: int| 0 <= i < password.len() implies #[trigger] password[i] as int != 0
            && password[i] as int != 10 && password[i] as int != 13 by {
            assert(password.contains(password[i]));
        }
    }
}

/// The upload limit is given in MiB: so many times 1048576 bytes. None is no
/// limit, and one that does not fit the machine is refused.
pub proof fn upload_limits_are_mebibytes(n: nat)
    ensures
        n >= 1 && n * 1_048_576 <= isize::MAX && n * 1_048_576 <= i64::MAX ==> upload_limit(
            decimal(n),
        ) == Some((n * 1_048_576) as usize),
        n * 1_048_576 > i64::MAX ==> upload_limit(decimal(n)) is None,
        upload_limit(decimal(0)) is None,
        upload_limit(Seq::empty()) is None,
{
    crate::text::decimal_value(n);
    crate::text::decimal_value(0);
}

/// A secret is written as the 64 hexadecimal digits of its 32 bytes: what is
/// written is read back, and any other length is refused.
pub proof fn secrets_are_read_back(bytes: Seq<u8>, text: Seq<char>)
    requires
        bytes.len() == 32,
    ensures
        valid_secret(hex_text(bytes)),
        secret_bytes(hex_text(bytes)) == bytes,
        text.len() != 64 ==> !valid_secret(text),
{
    crate::auth::tokens::hex_text_is_hex(bytes);
    let written = hex_text(bytes);
    assert(written.len() == 64);
    assert forall|i: int| 0 <= i < written.len() implies crate::ip6::hex_any(
        #[trigger] written[i],
    ) by {
        assert(crate::text::is_hex(written[i]));
    }
    assert forall|i: int| 0 <= i < 32 implies secret_bytes(written)[i] == bytes[i] by {
        digits_of_byte(bytes, i);
    }
    assert(secret_bytes(written) =~= bytes);
}

proof fn digits_of_byte(bytes: Seq<u8>, i: int)
    requires
        0 <= i < bytes.len(),
    ensures
        hex_text(bytes).len() == 2 * bytes.len(),
        crate::ip6::hex_digit_value(hex_text(bytes)[2 * i]) == bytes[i] as int / 16,
        crate::ip6::hex_digit_value(hex_text(bytes)[2 * i + 1]) == bytes[i] as int % 16,
    decreases bytes.len(),
{
    crate::auth::tokens::hex_text_is_hex(bytes);
    let front = bytes.drop_last();
    crate::auth::tokens::hex_text_is_hex(front);
    if i < front.len() {
        digits_of_byte(front, i);
        assert(hex_text(bytes)[2 * i] == hex_text(front)[2 * i]);
        assert(hex_text(bytes)[2 * i + 1] == hex_text(front)[2 * i + 1]);
    } else {
        assert(hex_text(front).len() == 2 * i);
    }
}

/// A letter, a digit or an underscore: what names of variables consist of.
pub open spec fn name_char(c: char) -> bool {
    ||| 'A' <= c && c <= 'Z'
    ||| '0' <= c && c <= '9'
    ||| c == '_'
}

/// A line of a settings file that names a variable and gives it a value gives it
/// exactly the text behind the equals sign; `export` before the name and a
/// return at the end of the line do not matter. A line that starts with a number
/// sign says nothing, and neither does one without an equals sign.
pub proof fn lines_give_variables_their_values(
    name: Seq<char>,
    value: Seq<char>,
    text: Seq<char>,
)
    requires
        name.len() > 0,
        forall|i: int| 0 <= i < name.len() ==> name_char(#[trigger] name[i]),
        value.len() == 0 || value.last() != '\r',
    ensures
        dotenv_entry(name + seq!['='] + value) == Some((name, value)),
        dotenv_entry("export "@ + name + seq!['='] + value) == Some((name, value)),
        dotenv_entry(name + seq!['='] + value + seq!['\r']) == Some((name, value)),
        dotenv_entry(seq!['#'] + text) is None,
        !text.contains('=') ==> dotenv_entry(text) is None,
{
    reveal_strlit("export ");
    let line = name + seq!['='] + value;
    assert(name_char(name[0]));
    assert(!is_white(line[0]));
    assert(crate::text::trim_start(line) == line);
    assert(line[0] != 'e');
    assert(crate::config::without_return(line) == line) by {
        if value.len() == 0 {
            assert(line.last() == '=');
        } else {
            assert(line.last() == value.last());
        }
    }
    named(name, value);
    let exported = "export "@ + name + seq!['='] + value;
    assert(exported[0] == 'e');
    assert(exported.last() == line.last());
    assert(crate::text::trim_start(exported) == exported);
    assert(exported.take(7) =~= "export "@);
    assert(exported.skip(7) =~= line);
    assert(!crate::text::has_prefix(line, "export "@)) by {
        if crate::text::has_prefix(line, "export "@) {
            assert(line.take(7)[0] == line[0]);
        }
    }
    let returned = line + seq!['\r'];
    assert(returned.drop_last() =~= line);
    let comment = seq!['#'] + text;
    assert(comment[0] == '#');
    assert(crate::config::without_return(comment).len() > 0);
    assert(crate::config::without_return(comment)[0] == '#');
    assert(!crate::text::has_prefix(crate::config::without_return(comment), "export "@)) by {
        let kept = crate::config::without_return(comment);
        if crate::text::has_prefix(kept, "export "@) {
            assert(kept.take(7)[0] == kept[0]);
        }
    }
    if !text.contains('=') {
        let kept = crate::config::without_return(text);
        assert forall|c: char| kept.contains(c) implies text.contains(c) by {
            let i = choose|i: int| 0 <= i < kept.len() && kept[i] == c;
            assert(text[i] == c);
        }
        trimmed_within(kept);
        let start = crate::text::trim_start(kept);
        assert(!kept.contains('='));
        assert(!start.contains('='));
        if start.len() >= 7 && start.skip(7).contains('=') {
            let i = choose|i: int| 0 <= i < start.skip(7).len() && start.skip(7)[i] == '=';
            assert(start[i + 7] == '=');
        }
    }
}

proof fn trimmed_within(s: Seq<char>)
    ensures
        forall|c: char| #[trigger] crate::text::trim_start(s).contains(c) ==> s.contains(c),
    decreases s.len(),
{
    if s.len() > 0 && is_white(s[0]) {
        trimmed_within(s.skip(1));
        assert forall|c: char| #[trigger] crate::text::trim_start(s).contains(c) implies s.contains(
            c,
        ) by {
            assert(crate::text::trim_start(s.skip(1)).contains(c));
            let i = choose|i: int| 0 <= i < s.skip(1).len() && s.skip(1)[i] == c;
            assert(s[i + 1] == c);
        }
    }
}

proof fn named(name: Seq<char>, value: Seq<char>)
    requires
        name.len() > 0,
        forall|i: int| 0 <= i < name.len() ==> name_char(#[trigger] name[i]),
    ensures
        ({
            let line = name + seq!['='] + value;
            let at = crate::text::first_index(line, '=');
            &&& at == name.len()
            &&& line.contains('=')
            &&& crate::text::trimmed(line.take(at)) == name
            &&& line.skip(at + 1) == value
        }),
{
    let line = name + seq!['='] + value;
    assert(line[name.len() as int] == '=');
    assert forall|i: int| 0 <= i < name.len() implies line[i] != '=' by {
        assert(name_char(name[i]));
    }
    crate::text::first_index_unique(line, '=', name.len() as int);
    assert(line.take(name.len() as int) =~= name);
    assert(line.skip(name.len() as int + 1) =~= value);
    assert(name_char(name[0]) && name_char(name[name.len() - 1]));
    assert(!is_white(name[0]) && !is_white(name.last()));
}

/// The last line that names a variable decides its value, lines about others do
/// not matter, and a variable that is set in the environment is not taken from
/// the file.
pub proof fn the_last_line_decides(
    entries: Seq<(Seq<char>, Seq<char>)>,
    name: Seq<char>,
    value: Seq<char>,
    other: Seq<char>,
    set: Raw,
    raw: Raw,
)
    requires
        merged(set, entries, name, raw),
    ensures
        last_value(entries.push((name, value)), name) == Some(value),
        other != name ==> last_value(entries.push((name, value)), other) == last_value(
            entries,
            other,
        ),
        last_value(Seq::empty(), name) is None,
        set is Some ==> raw == set,
        set is None && last_value(entries, name) is Some ==> raw is Some && raw->0@ == encode_utf8(
            last_value(entries, name)->0,
        ),
        set is None && last_value(entries, name) is None ==> raw is None,
{
    assert(entries.push((name, value)).drop_last() =~= entries);
}

/// A refused setting is named by its variable, and the first that is refused is.
pub proof fn refusals_name_the_variable(
    raw: Seq<Raw>,
    directory: Option<Seq<char>>,
    r: Result<Config, AppError>,
)
    requires
        built(raw, directory, r),
        r is Err,
    ensures
        r->Err_0.kind == ErrorKind::Configuration(
            if raw.len() == 1 {
                "PAGEBIN_ADMIN_HOST"
            } else if raw.len() == 2 {
                "PAGEBIN_ADMIN_PASSWORD"
            } else if raw.len() == 3 {
                "PAGEBIN_API_TOKEN"
            } else if raw.len() == 4 {
                "PAGEBIN_VIEW_HOST"
            } else if raw.len() == 5 {
                "PAGEBIN_PUBLIC_URL"
            } else if raw.len() == 6 {
                "PAGEBIN_MAX_UPLOAD_MB"
            } else if raw.len() == 7 {
                "PAGEBIN_DATA_DIR"
            } else if raw.len() == 8 {
                "PAGEBIN_PORT"
            } else if raw.len() == 9 {
                "RUST_LOG"
            } else if raw.len() == 10 {
                "PAGEBIN_SECRET"
            } else {
                "PAGEBIN_TRUST_PROXY"
            },
        ),
        !variable_valid(raw.len() - 1, raw, directory),
        1 <= raw.len() <= 11,
{
}

/// The server needs an admin host and an admin password and nothing else: the
/// port is 5050, uploads have 50 MiB, there is no token, no viewer host and no
/// secret, the socket is trusted, and the address of the server is its host's.
pub proof fn host_and_password_are_enough(
    raw: Seq<Raw>,
    host: Seq<char>,
    password: Seq<char>,
    directory: Seq<char>,
)
    requires
        raw.len() == 11,
        text_of(raw[0]) == Some(host),
        host_of(host) is Some,
        text_of(raw[1]) == Some(password),
        forall|i: int| 2 <= i < 11 ==> #[trigger] raw[i] is None,
    ensures
        ({
            let config = config_of(raw, directory);
            &&& config.admin_host == host_of(host)->0
            &&& config.admin_password == password
            &&& config.api_token is None && config.view_host is None
            &&& config.max_upload_bytes == 50 * 1_048_576
            &&& config.port == 5050
            &&& config.log_filter == "pagebin=info,tower_http=info"@
            &&& config.signing_secret is None
            &&& !config.trust_proxy
            &&& config.data_dir == directory
        }),
        crate::config::public_text(raw) == "https://"@ + host_of(host)->0,
        crate::config::text_or(raw[6], "data"@) == "data"@,
        forall|i: int|
            2 <= i < 11 && i != 4 && i != 6 && i != 8 ==> #[trigger] variable_valid(
                i,
                raw,
                Some(directory),
            ),
        host.len() > 0 ==> variable_valid(0, raw, Some(directory)),
        password_allowed(password) && password.len() > 0 ==> variable_valid(
            1,
            raw,
            Some(directory),
        ),
{
    assert(raw[2] is None && raw[3] is None && raw[4] is None && raw[5] is None && raw[6] is None
        && raw[7] is None && raw[8] is None && raw[9] is None && raw[10] is None);
    reveal_strlit("50");
    reveal_strlit("5050");
    reveal_strlit("true");
    assert("50"@ =~= decimal(50)) by {
        reveal_with_fuel(crate::text::decimal, 3);
    }
    assert("5050"@ =~= decimal(5050)) by {
        reveal_with_fuel(crate::text::decimal, 5);
    }
    upload_limits_are_mebibytes(50);
    crate::laws::requests::ports_are_numbers("5050"@, 5050);
}

/// What is set is taken: each variable decides its own setting, whatever the
/// others are.
pub proof fn variables_set_what_they_name(
    raw: Seq<Raw>,
    directory: Seq<char>,
    text: Seq<char>,
    n: nat,
)
    requires
        raw.len() == 11,
    ensures
        text_of(raw[0]) == Some(text) && host_of(text) is Some ==> config_of(
            raw,
            directory,
        ).admin_host == host_of(text)->0,
        text_of(raw[1]) == Some(text) ==> config_of(raw, directory).admin_password == text,
        text_of(raw[2]) == Some(text) ==> config_of(raw, directory).api_token == Some(text),
        text_of(raw[3]) == Some(text) ==> config_of(raw, directory).view_host == host_of(text),
        text_of(raw[5]) == Some(decimal(n)) && 1 <= n && n * 1_048_576 <= isize::MAX && n
            * 1_048_576 <= i64::MAX ==> config_of(raw, directory).max_upload_bytes == n * 1_048_576,
        text_of(raw[7]) == Some(decimal(n)) && n <= 65_535 ==> config_of(raw, directory).port == n,
        text_of(raw[8]) == Some(text) ==> config_of(raw, directory).log_filter == text,
        text_of(raw[9]) == Some(text) ==> config_of(raw, directory).signing_secret == Some(
            secret_bytes(text),
        ),
        text_of(raw[10]) == Some(seq!['t', 'r', 'u', 'e']) <==> config_of(
            raw,
            directory,
        ).trust_proxy,
        config_of(raw, directory).data_dir == directory,
{
    upload_limits_are_mebibytes(n);
    crate::laws::requests::ports_are_numbers(decimal(n), n);
    reveal_strlit("true");
    assert("true"@ =~= seq!['t', 'r', 'u', 'e']);
}

/// Settings that cannot be meant are refused: a host or a password that is not
/// one, a viewer host that is the admin host, a port, limit or secret that does
/// not read, a directory without a name, a switch that is neither on nor off,
/// and whatever is set to nothing.
pub proof fn senseless_settings_are_refused(
    raw: Seq<Raw>,
    directory: Option<Seq<char>>,
    text: Seq<char>,
    i: int,
)
    requires
        raw.len() == 11,
        0 <= i < 11,
    ensures
        raw[0] is None ==> !variable_valid(0, raw, directory),
        raw[1] is None ==> !variable_valid(1, raw, directory),
        text_of(raw[0]) == Some(text) && host_of(text) is None ==> !variable_valid(
            0,
            raw,
            directory,
        ),
        text_of(raw[1]) == Some(text) && !password_allowed(text) ==> !variable_valid(
            1,
            raw,
            directory,
        ),
        text_of(raw[2]) == Some(text) && !password_allowed(text) ==> !variable_valid(
            2,
            raw,
            directory,
        ),
        text_of(raw[3]) == Some(text) && (host_of(text) is None || host_of(text) == Some(
            config_of(raw, Seq::empty()).admin_host,
        )) ==> !variable_valid(3, raw, directory),
        text_of(raw[5]) == Some(text) && upload_limit(text) is None ==> !variable_valid(
            5,
            raw,
            directory,
        ),
        text_of(raw[6]) == Some(text) && (text.len() == 0 || text.contains('\0'))
            ==> !variable_valid(6, raw, directory),
        directory is None ==> !variable_valid(6, raw, directory),
        text_of(raw[7]) == Some(text) && crate::web::port_number(text) is None ==> !variable_valid(
            7,
            raw,
            directory,
        ),
        text_of(raw[8]) == Some(text) && !crate::config::log_filter_accepted(text)
            ==> !variable_valid(8, raw, directory),
        text_of(raw[9]) == Some(text) && !valid_secret(text) ==> !variable_valid(9, raw, directory),
        text_of(raw[10]) == Some(text) && text != "true"@ && text != "false"@ ==> !variable_valid(
            10,
            raw,
            directory,
        ),
        raw[i] is Some && raw[i]->0@.len() == 0 ==> !variable_valid(i, raw, directory),
{
    if raw[i] is Some && raw[i]->0@.len() == 0 {
        assert(!crate::config::readable(raw[i])) by {
            vstd::utf8::decode_utf8_encode_utf8(raw[i]->0@);
            if crate::text::utf8_text(raw[i]->0@) is Some {
                let text = crate::text::utf8_text(raw[i]->0@)->0;
                if text.len() > 0 {
                    vstd::utf8::encode_utf8_first_scalar(text);
                }
            }
        }
    }
}

/// The public address is the scheme, the viewer's host and the port where one is
/// written. It is secure unless the host is the machine itself, names the
/// viewer's host, and has no path, query or port zero.
pub proof fn public_addresses_are_origins(
    authority: Seq<char>,
    viewer: Seq<char>,
    path: Seq<char>,
    query: Seq<char>,
    target: Option<Seq<char>>,
)
    requires
        authority_host_of(authority) == Some(viewer),
        port_part(authority) != Some(0u16),
    ensures
        ({
            let port = if port_part(authority) is Some {
                authority.skip(crate::text::last_index(authority, ':'))
            } else {
                Seq::empty()
            };
            &&& public_url_of((Some("https"@), Some(authority), "/"@, None, target), viewer) == Some(
                "https"@ + "://"@ + viewer + port,
            )
            &&& public_url_of((Some("https"@), Some(authority), ""@, None, target), viewer) == Some(
                "https"@ + "://"@ + viewer + port,
            )
            &&& public_url_of((Some("http"@), Some(authority), "/"@, None, target), viewer) == if loopback(
                viewer,
            ) {
                Some("http"@ + "://"@ + viewer + port)
            } else {
                None
            }
        }),
        path != ""@ && path != "/"@ ==> public_url_of(
            (Some("https"@), Some(authority), path, None, target),
            viewer,
        ) is None,
        public_url_of((Some("https"@), Some(authority), "/"@, Some(query), target), viewer) is None,
        public_url_of((None, Some(authority), "/"@, None, target), viewer) is None,
        public_url_of((Some("https"@), None, "/"@, None, target), viewer) is None,
{
    reveal_strlit("https");
    reveal_strlit("http");
    assert("https"@.len() != "http"@.len());
}

/// An address of another host, of port zero or of another scheme is refused.
pub proof fn other_addresses_are_refused(parts: UriView, viewer: Seq<char>)
    ensures
        parts.1 is Some && authority_host_of(parts.1->0) != Some(viewer) ==> public_url_of(
            parts,
            viewer,
        ) is None,
        parts.1 is Some && port_part(parts.1->0) == Some(0u16) ==> public_url_of(parts, viewer)
            is None,
        parts.0 is Some && parts.0->0 != "https"@ && parts.0->0 != "http"@ ==> public_url_of(
            parts,
            viewer,
        ) is None,
{
}

/// The public address is read from the whole text; one with a fragment, or that
/// is no address, is refused.
pub proof fn addresses_have_no_fragment(value: Seq<char>, viewer: Seq<char>)
    ensures
        value.contains('#') ==> public_url(value, viewer) is None,
        crate::web::uri_parts(value) is None ==> public_url(value, viewer) is None,
        !value.contains('#') && crate::web::uri_parts(value) is Some ==> public_url(value, viewer)
            == public_url_of(crate::web::uri_parts(value)->0, viewer),
{
}

/// A settings file is read line by line, and a line that says nothing leaves no
/// trace.
pub proof fn files_are_read_line_by_line(lines: Seq<Seq<char>>, line: Seq<char>)
    ensures
        dotenv_entries(Seq::empty()) == Seq::<(Seq<char>, Seq<char>)>::empty(),
        dotenv_entry(line) is Some ==> dotenv_entries(lines.push(line)) == dotenv_entries(
            lines,
        ).push(dotenv_entry(line)->0),
        dotenv_entry(line) is None ==> dotenv_entries(lines.push(line)) == dotenv_entries(lines),
{
    assert(lines.push(line).drop_last() =~= lines);
}

/// A configuration stands only where every variable is valid, and the variables
/// before a refused one are.
pub proof fn configurations_are_valid_throughout(
    raw: Seq<Raw>,
    directory: Option<Seq<char>>,
    r: Result<Config, AppError>,
    i: int,
)
    requires
        built(raw, directory, r),
        0 <= i < raw.len(),
    ensures
        r is Ok ==> raw.len() == 11 && variable_valid(i, raw, directory),
        r is Ok ==> r->Ok_0@ == config_of(raw, directory->0) && directory is Some,
        r is Err && i + 1 < raw.len() ==> variable_valid(i, raw.drop_last(), directory),
{
    if r is Ok {
        assert(variable_valid(6, raw, directory));
    }
}

}
