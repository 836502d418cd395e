//! How hosts, ports and addresses are written and read.
use crate::host::{authority_host_of, host_of};
use crate::ip6::{colon_text, group, hex_number, v6_of, v6_text};
use crate::laws::texts::sixteen;
use crate::text::decimal;
use crate::web::{authority_accepted, port_part};
use vstd::prelude::*;

verus! {

/// An authority is a host with a port or without one: a name before a colon, and
/// a port that is none is refused. Where a user is named there is no host.
pub proof fn authorities_are_hosts_and_ports(name: Seq<char>, port: nat, user: Seq<char>)
    requires
        name.len() > 0,
        name[0] != '[',
        !name.contains(':'),
        !name.contains('@'),
        authority_accepted(name),
        authority_accepted(name + seq![':'] + decimal(port)),
    ensures
        authority_host_of(name) == host_of(name),
        port_part(name) is None,
        port <= 65_535 ==> authority_host_of(name + seq![':'] + decimal(port)) == host_of(name)
            && port_part(name + seq![':'] + decimal(port)) == Some(port as u16),
        port > 65_535 ==> authority_host_of(name + seq![':'] + decimal(port)) is None && port_part(
            name + seq![':'] + decimal(port),
        ) is None,
        authority_host_of(user + seq!['@'] + name) is None,
{
    no_port(name);
    assert(name.take(name.len() as int) =~= name);
    assert(name.skip(name.len() as int) =~= Seq::empty());
    let whole = name + seq![':'] + decimal(port);
    crate::text::decimal_value(port);
    with_port(name, decimal(port));
    assert(!whole.contains('@')) by {
        if whole.contains('@') {
            let i = choose|i: int| 0 <= i < whole.len() && whole[i] == '@';
            if i < name.len() {
                assert(name[i] == '@');
            } else if i > name.len() {
                assert(crate::text::is_digit(decimal(port)[i - name.len() - 1]));
            }
        }
    }
    assert forall|i: int| 0 <= i < name.len() implies whole[i] != ':' by {
        assert(name.contains(name[i]));
    }
    crate::text::first_index_unique(whole, ':', name.len() as int);
    assert(whole[0] == name[0]);
    assert(whole.take(name.len() as int) =~= name);
    assert(whole.skip(name.len() as int) =~= seq![':'] + decimal(port));
    assert((seq![':'] + decimal(port)).skip(1) =~= decimal(port));
    let named = user + seq!['@'] + name;
    assert(named[user.len() as int] == '@');
}

/// An address in brackets is a host, with a port behind them or without one.
pub proof fn bracketed_addresses_are_hosts(parts: Seq<u16>, port: nat)
    requires
        parts.len() == 8,
        authority_accepted(seq!['['] + v6_text(parts) + seq![']']),
        authority_accepted(seq!['['] + v6_text(parts) + seq![']'] + seq![':'] + decimal(port)),
        port <= 65_535,
        !v6_text(parts).contains(']'),
        !v6_text(parts).contains('@'),
    ensures
        host_of(seq!['['] + v6_text(parts) + seq![']']) == Some(
            seq!['['] + v6_text(parts) + seq![']'],
        ),
        authority_host_of(seq!['['] + v6_text(parts) + seq![']']) == Some(
            seq!['['] + v6_text(parts) + seq![']'],
        ),
        authority_host_of(seq!['['] + v6_text(parts) + seq![']'] + seq![':'] + decimal(port))
            == Some(seq!['['] + v6_text(parts) + seq![']']),
{
    let text = v6_text(parts);
    let host = seq!['['] + text + seq![']'];
    crate::ip6::v6_round_trip(parts);
    assert(host.subrange(1, host.len() - 1) =~= text);
    let whole = host + seq![':'] + decimal(port);
    crate::text::decimal_value(port);
    let close = text.len() as int + 1;
    assert forall|i: int| 0 <= i < close implies host[i] != ']' && whole[i] != ']' by {
        if i > 0 {
            assert(text.contains(text[i - 1]));
            assert(host[i] == text[i - 1] && whole[i] == text[i - 1]);
        }
    }
    crate::text::first_index_unique(host, ']', close);
    crate::text::first_index_unique(whole, ']', close);
    assert(host.take(close + 1) =~= host);
    assert(host.skip(host.len() as int) =~= Seq::empty());
    assert(whole.take(close + 1) =~= host);
    assert(whole.skip(host.len() as int) =~= seq![':'] + decimal(port));
    assert((seq![':'] + decimal(port)).skip(1) =~= decimal(port));
    assert(host.take(host.len() as int) =~= host);
    assert(whole.take(host.len() as int) =~= host);
    assert(!host.contains('@') && !whole.contains('@')) by {
        if whole.contains('@') {
            let i = choose|i: int| 0 <= i < whole.len() && whole[i] == '@';
            if 0 < i < close {
                assert(text[i - 1] == '@');
            } else if i > close + 1 {
                assert(crate::text::is_digit(decimal(port)[i - close - 2]));
            }
        }
        if host.contains('@') {
            let i = choose|i: int| 0 <= i < host.len() && host[i] == '@';
            if 0 < i < close {
                assert(text[i - 1] == '@');
            }
        }
    }
}

proof fn no_port(name: Seq<char>)
    requires
        !name.contains(':'),
    ensures
        crate::text::first_index(name, ':') == name.len(),
        crate::text::last_index(name, ':') == -1,
    decreases name.len(),
{
    if name.len() > 0 {
        assert(name.contains(name[name.len() - 1]));
        assert forall|c: char| name.drop_last().contains(c) implies name.contains(c) by {
            let i = choose|i: int| 0 <= i < name.drop_last().len() && name.drop_last()[i] == c;
            assert(name[i] == c);
        }
        no_port(name.drop_last());
        assert forall|i: int| 0 <= i < name.len() implies name[i] != ':' by {
            assert(name.contains(name[i]));
        }
        crate::text::first_index_found(name, ':');
    }
}

proof fn with_port(name: Seq<char>, port: Seq<char>)
    requires
        crate::text::all_digits(port),
    ensures
        crate::text::last_index(name + seq![':'] + port, ':') == name.len(),
        (name + seq![':'] + port).skip(name.len() as int + 1) == port,
    decreases port.len(),
{
    let whole = name + seq![':'] + port;
    assert(whole.skip(name.len() as int + 1) =~= port);
    if port.len() > 0 {
        assert(crate::text::is_digit(port[port.len() - 1]));
        assert(whole.drop_last() =~= name + seq![':'] + port.drop_last());
        assert forall|i: int| 0 <= i < port.drop_last().len() implies crate::text::is_digit(
            #[trigger] port.drop_last()[i],
        ) by {
            assert(crate::text::is_digit(port[i]));
        }
        with_port(name, port.drop_last());
    } else {
        assert(whole.last() == ':');
    }
}

/// A segment has one to four hexadecimal digits in letters of either case, and
/// is read from the left.
pub proof fn segments_are_hexadecimal(s: Seq<char>, k: int)
    requires
        0 <= k < 16,
    ensures
        group(Seq::empty()) is None,
        s.len() > 4 ==> group(s) is None,
        group(seq![sixteen()[k]]) == Some(k as u16),
        group(s) is Some && s.len() < 4 ==> group(s.push(sixteen()[k])) == Some(
            (16 * group(s)->0 + k) as u16,
        ),
        group(s) is Some && s.len() < 4 && k >= 10 ==> group(s.push((55 + k) as char)) == group(
            s.push(sixteen()[k]),
        ),
        group(s) is None && s.len() > 0 ==> group(s.push(sixteen()[k])) is None,
{
    let c = sixteen()[k];
    let big = (55 + k) as char;
    assert(crate::ip6::hex_any(c) && crate::ip6::hex_digit_value(c) == k);
    assert(seq![c].drop_last() =~= Seq::empty());
    assert(crate::ip6::hex_value(Seq::empty()) == 0);
    assert(crate::ip6::hex_value(seq![c]) == k);
    assert(s.push(c).drop_last() =~= s);
    assert(s.push(big).drop_last() =~= s);
    if k >= 10 {
        assert(crate::ip6::hex_any(big) && crate::ip6::hex_digit_value(big) == k);
    }
    if group(s) is Some {
        small_values(s);
    }
    if group(s) is None && 0 < s.len() <= 4 {
        let bad = choose|i: int| 0 <= i < s.len() && !crate::ip6::hex_any(#[trigger] s[i]);
        assert(s.push(c)[bad] == s[bad]);
    }
}

proof fn small_values(s: Seq<char>)
    requires
        s.len() <= 4,
        forall|i: int| 0 <= i < s.len() ==> crate::ip6::hex_any(#[trigger] s[i]),
    ensures
        0 <= crate::ip6::hex_value(s),
        s.len() == 0 ==> crate::ip6::hex_value(s) < 1,
        s.len() == 1 ==> crate::ip6::hex_value(s) < 16,
        s.len() == 2 ==> crate::ip6::hex_value(s) < 256,
        s.len() == 3 ==> crate::ip6::hex_value(s) < 4096,
        s.len() == 4 ==> crate::ip6::hex_value(s) < 65_536,
    decreases s.len(),
{
    if s.len() > 0 {
        assert(crate::ip6::hex_any(s[s.len() - 1]));
        small_values(s.drop_last());
    }
}

/// A number is written in hexadecimal without leading zeros: a digit of its own,
/// or the digits of its sixteenth and one more.
pub proof fn segments_are_written_short(n: nat)
    ensures
        n < 16 ==> hex_number(n) == seq![sixteen()[n as int]],
        n >= 16 ==> hex_number(n) == hex_number(n / 16).push(sixteen()[n as int % 16]),
{
}

/// Segments stand between colons.
pub proof fn segments_stand_between_colons(parts: Seq<u16>, last: u16)
    ensures
        colon_text(seq![last]) == hex_number(last as nat),
        parts.len() > 0 ==> colon_text(parts.push(last)) == colon_text(parts) + seq![':']
            + hex_number(last as nat),
{
    let all = parts.push(last);
    assert(crate::ip6::group_texts(all).drop_last() =~= crate::ip6::group_texts(parts));
    assert(crate::ip6::group_texts(all).last() == hex_number(last as nat));
    assert(crate::ip6::group_texts(seq![last])[0] == hex_number(last as nat));
}

/// Every address is read back from its text.
pub proof fn addresses_are_read_back(parts: Seq<u16>, octets: Seq<u16>)
    requires
        parts.len() == 8,
        crate::ip::octets(octets),
    ensures
        v6_of(v6_text(parts)) == Some(parts),
        crate::ip6::address_of(crate::ip::v4_text(octets)) == Some(octets),
        crate::ip::v4_text(octets) == decimal(octets[0] as nat) + seq!['.'] + decimal(
            octets[1] as nat,
        ) + seq!['.'] + decimal(octets[2] as nat) + seq!['.'] + decimal(octets[3] as nat),
{
    crate::ip6::v6_round_trip(parts);
    let text = crate::ip::v4_text(octets);
    let chosen = choose|p: Seq<u16>| crate::ip::octets(p) && text == #[trigger] crate::ip::v4_text(
        p,
    );
    crate::ip6::v4_unique(octets, chosen);
    assert(text =~= decimal(octets[0] as nat) + seq!['.'] + decimal(octets[1] as nat) + seq!['.']
        + decimal(octets[2] as nat) + seq!['.'] + decimal(octets[3] as nat));
}

}
