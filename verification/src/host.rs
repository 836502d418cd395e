//! Canonical hostnames shared by configuration and request validation.
use crate::ip::{octets, parse_v4, v4_text};
use crate::ip6::{
    parse_v6, push_v6, v6_of, v6_of_lower, v6_round_trip, v6_text, v6_text_is_small,
    without_capitals,
};
use crate::text::{
    ascii_lower, chars_of, contains, digits_number, ends_with, has_prefix, has_suffix, is_digit,
    is_lower, is_upper, lower, lower_chars, number_of, same, split, split_lower, split_nonempty,
    split_on, starts_with, string_of, views,
};
use crate::web::{authority_accepted, authority_host, host_part};
use vstd::prelude::*;

verus! {

/// The longest hostname.
pub const MAX_HOST_LENGTH: usize = 253;

/// The longest label between two dots.
pub const MAX_LABEL_LENGTH: usize = 63;

pub open spec fn label_char(c: char) -> bool {
    is_digit(c) || is_lower(c) || is_upper(c) || c == '-'
}

/// A label of a hostname.
pub open spec fn valid_label(s: Seq<char>) -> bool {
    &&& 1 <= s.len() <= MAX_LABEL_LENGTH
    &&& s[0] != '-'
    &&& s.last() != '-'
    &&& forall|i: int| 0 <= i < s.len() ==> label_char(#[trigger] s[i])
}

/// A hostname of labels, in any case.
pub open spec fn valid_name(s: Seq<char>) -> bool {
    &&& 1 <= s.len() <= MAX_HOST_LENGTH
    &&& forall|i: int| 0 <= i < split(s, '.').len() ==> valid_label(#[trigger] split(s, '.')[i])
}

/// A text without the one dot it may end in.
pub open spec fn undotted(s: Seq<char>) -> Seq<char> {
    if s.len() > 0 && s.last() == '.' {
        s.drop_last()
    } else {
        s
    }
}

/// A text in square brackets.
pub open spec fn bracketed(s: Seq<char>) -> bool {
    s.len() >= 2 && s[0] == '[' && s.last() == ']'
}

/// The canonical form of a host: a bracketed version 6 address in its canonical
/// text, or a name in small letters without a final dot. A version 4 address is
/// such a name, and its own canonical form.
pub open spec fn host_of(value: Seq<char>) -> Option<Seq<char>> {
    if bracketed(value) {
        match v6_of(value.subrange(1, value.len() - 1)) {
            Some(parts) => Some(seq!['['] + v6_text(parts) + seq![']']),
            None => None,
        }
    } else if valid_name(undotted(value)) {
        Some(lower(undotted(value)))
    } else {
        None
    }
}

/// Nothing, or a colon and a port number in digits.
pub open spec fn port_suffix(s: Seq<char>) -> bool {
    s.len() == 0 || (s[0] == ':' && digits_number(s.skip(1), 65_535) is Some)
}

/// The canonical host of an authority whose host part is known.
pub open spec fn host_before_port(value: Seq<char>, host: Seq<char>) -> Option<Seq<char>> {
    if has_prefix(value, host) && port_suffix(value.skip(host.len() as int)) {
        host_of(host)
    } else {
        None
    }
}

/// The canonical host of a request authority, without user information and
/// with a numeric port or none.
pub open spec fn authority_host_of(value: Seq<char>) -> Option<Seq<char>> {
    if !value.contains('@') && authority_accepted(value) {
        host_before_port(value, host_part(value))
    } else {
        None
    }
}

/// The text between the brackets of a bracketed host.
pub open spec fn unbracketed(host: Seq<char>) -> Seq<char> {
    if bracketed(host) {
        host.subrange(1, host.len() - 1)
    } else {
        host
    }
}

/// A loopback name or address.
pub open spec fn loopback(host: Seq<char>) -> bool {
    ||| host == "localhost"@
    ||| has_suffix(host, ".localhost"@)
    ||| exists|parts: Seq<u16>|
        octets(parts) && parts[0] == 127 && unbracketed(host) == #[trigger] v4_text(parts)
    ||| v6_of(unbracketed(host)) == Some(seq![0u16, 0, 0, 0, 0, 0, 0, 1])
}

fn label_is_valid(s: &[char]) -> (r: bool)
    ensures
        r == valid_label(s@),
{
    if s.len() < 1 || s.len() > MAX_LABEL_LENGTH || s[0] == '-' || s[s.len() - 1] == '-' {
        return false;
    }
    let mut i: usize = 0;
    while i < s.len()
        invariant
            i <= s@.len(),
            forall|j: int| 0 <= j < i ==> label_char(#[trigger] s@[j]),
        decreases s@.len() - i,
    {
        let c: char = s[i];
        if !((c >= '0' && c <= '9') || (c >= 'a' && c <= 'z') || (c >= 'A' && c <= 'Z') || c
            == '-') {
            assert(!label_char(s@[i as int]));
            return false;
        }
        i = i + 1;
    }
    true
}

fn name_is_valid(s: &[char]) -> (r: bool)
    ensures
        r == valid_name(s@),
{
    if s.len() < 1 || s.len() > MAX_HOST_LENGTH {
        return false;
    }
    let parts: Vec<Vec<char>> = split_on(s, '.');
    let mut i: usize = 0;
    while i < parts.len()
        invariant
            i <= parts@.len(),
            views(parts@) == split(s@, '.'),
            forall|j: int| 0 <= j < i ==> valid_label(#[trigger] split(s@, '.')[j]),
        decreases parts@.len() - i,
    {
        assert(split(s@, '.')[i as int] == parts@[i as int]@);
        if !label_is_valid(parts[i].as_slice()) {
            return false;
        }
        i = i + 1;
    }
    true
}

/// A canonical host.
#[derive(Debug)]
pub struct Host {
    text: String,
}

impl Host {
    #[verifier::type_invariant]
    spec fn well_formed(self) -> bool {
        host_of(self.text@) == Some(self.text@)
    }

    /// The host's characters.
    pub closed spec fn view(&self) -> Seq<char> {
        self.text@
    }

    /// Parses a hostname or bracketed IPv6 address without a port.
    pub fn parse(value: &str) -> (r: Option<Self>)
        ensures
            (match r {
                Some(host) => Some(host@),
                None => None,
            }) == host_of(value@),
    {
        let chars: Vec<char> = chars_of(value);
        let length: usize = chars.len();
        proof {
            if host_of(value@) is Some {
                host_is_canonical(value@);
            }
        }
        if length >= 2 && chars[0] == '[' && chars[length - 1] == ']' {
            let inner: &[char] = vstd::slice::slice_subrange(chars.as_slice(), 1, length - 1);
            assert(inner@ =~= value@.subrange(1, value@.len() - 1));
            return match parse_v6(inner) {
                None => None,
                Some(parts) => {
                    let mut text = String::new();
                    text.push('[');
                    push_v6(&mut text, parts.as_slice());
                    text.push(']');
                    assert(text@ =~= seq!['['] + v6_text(parts@) + seq![']']);
                    Some(Host { text })
                },
            };
        }
        let end: usize = if length > 0 && chars[length - 1] == '.' {
            length - 1
        } else {
            length
        };
        let name: &[char] = vstd::slice::slice_subrange(chars.as_slice(), 0, end);
        assert(name@ =~= undotted(value@));
        if name_is_valid(name) {
            let small: Vec<char> = lower_chars(name);
            Some(Host { text: string_of(small.as_slice()) })
        } else {
            None
        }
    }

    /// Parses a request authority, validating its optional numeric port.
    pub fn from_authority(value: &str) -> (r: Option<Self>)
        ensures
            (match r {
                Some(host) => Some(host@),
                None => None,
            }) == authority_host_of(value@),
    {
        let chars: Vec<char> = chars_of(value);
        if contains(chars.as_slice(), '@') {
            return None;
        }
        match authority_host(value) {
            None => None,
            Some(host) => Host::before_port(value, host.as_str()),
        }
    }

    /// The host of an authority whose host part is known, where nothing or a
    /// numeric port stands behind that part.
    pub fn before_port(value: &str, host: &str) -> (r: Option<Self>)
        ensures
            (match r {
                Some(found) => Some(found@),
                None => None,
            }) == host_before_port(value@, host@),
    {
        let chars: Vec<char> = chars_of(value);
        let head: Vec<char> = chars_of(host);
        if !starts_with(chars.as_slice(), head.as_slice()) {
            return None;
        }
        let suffix: &[char] = vstd::slice::slice_subrange(
            chars.as_slice(),
            head.len(),
            chars.len(),
        );
        assert(suffix@ =~= value@.skip(host@.len() as int));
        if suffix.len() > 0 {
            if suffix[0] != ':' {
                return None;
            }
            let port: &[char] = vstd::slice::slice_subrange(suffix, 1, suffix.len());
            assert(port@ =~= suffix@.skip(1));
            if number_of(port, 65_535).is_none() {
                return None;
            }
        }
        Host::parse(host)
    }

    /// Identifies the loopback names and addresses allowed for local HTTP.
    pub fn is_loopback(&self) -> (r: bool)
        ensures
            r == loopback(self@),
    {
        let chars: Vec<char> = chars_of(self.text.as_str());
        let suffix: Vec<char> = chars_of(".localhost");
        if same(self.text.as_str(), "localhost") || ends_with(
            chars.as_slice(),
            suffix.as_slice(),
        ) {
            return true;
        }
        let length: usize = chars.len();
        let inner: &[char] = if length >= 2 && chars[0] == '[' && chars[length - 1] == ']' {
            vstd::slice::slice_subrange(chars.as_slice(), 1, length - 1)
        } else {
            chars.as_slice()
        };
        assert(inner@ =~= unbracketed(self@));
        if let Some(parts) = parse_v4(inner) {
            if parts[0] == 127 {
                return true;
            }
            proof {
                assert forall|p: Seq<u16>| octets(p) && inner@ == #[trigger] v4_text(p) implies p[0]
                    != 127 by {
                    crate::ip6::v4_unique(p, parts@);
                }
            }
        }
        match parse_v6(inner) {
            None => false,
            Some(parts) => {
                let all: bool = parts[0] == 0 && parts[1] == 0 && parts[2] == 0 && parts[3] == 0
                    && parts[4] == 0 && parts[5] == 0 && parts[6] == 0 && parts[7] == 1;
                proof {
                    let one = seq![0u16, 0, 0, 0, 0, 0, 0, 1];
                    if all {
                        assert(parts@ =~= one);
                    } else if parts@ == one {
                        assert(one[7] == 1 && one[0] == 0);
                    }
                }
                all
            },
        }
    }

    /// Returns the normalized hostname without a port.
    pub fn as_str(&self) -> (r: &str)
        ensures
            r@ == self@,
            host_of(r@) == Some(r@),
    {
        proof {
            use_type_invariant(self);
        }
        self.text.as_str()
    }

    /// Whether two hosts are the same.
    pub fn same(&self, other: &Host) -> (r: bool)
        ensures
            r == (self@ == other@),
    {
        same(self.text.as_str(), other.text.as_str())
    }

    /// An equal host.
    pub fn copy(&self) -> (r: Self)
        ensures
            r@ == self@,
    {
        proof {
            use_type_invariant(self);
        }
        Host { text: self.text.as_str().to_owned() }
    }
}

/// A canonical host is its own canonical form: parsing it again changes nothing.
pub proof fn host_is_canonical(value: Seq<char>)
    requires
        host_of(value) is Some,
    ensures
        host_of(host_of(value)->0) == host_of(value),
{
    let host = host_of(value)->0;
    if bracketed(value) {
        let parts = v6_of(value.subrange(1, value.len() - 1))->0;
        v6_parts(value.subrange(1, value.len() - 1));
        v6_round_trip(parts);
        assert(host.subrange(1, host.len() - 1) =~= v6_text(parts));
    } else {
        let name = undotted(value);
        split_lower(name, '.');
        split_nonempty(name, '.');
        let labels = split(name, '.');
        let small = split(host, '.');
        assert forall|i: int| 0 <= i < small.len() implies valid_label(#[trigger] small[i]) by {
            assert(valid_label(labels[i]));
            assert(small[i] == lower(labels[i]));
            assert forall|j: int| 0 <= j < small[i].len() implies label_char(
                #[trigger] small[i][j],
            ) by {
                assert(label_char(labels[i][j]));
            }
        }
        assert(lower(host) =~= host);
        name_edges(host);
    }
}

/// An address that was read has eight segments.
proof fn v6_parts(s: Seq<char>)
    requires
        v6_of(s) is Some,
    ensures
        v6_of(s)->0.len() == 8,
{
}

/// A name neither ends in a dot nor begins with a bracket.
proof fn name_edges(s: Seq<char>)
    requires
        valid_name(s),
    ensures
        s.last() != '.',
        s[0] != '[',
{
    split_nonempty(s, '.');
    let labels = split(s, '.');
    assert(valid_label(labels[labels.len() - 1]));
    if s.last() == '.' {
        assert(labels.last() =~= Seq::<char>::empty());
    }
    if s[0] == '[' {
        first_char_stays(s);
        assert(valid_label(labels[0]));
        assert(label_char(labels[0][0]));
    }
}

/// The first part of a text begins as the text does, unless that is a separator.
proof fn first_char_stays(s: Seq<char>)
    requires
        s.len() > 0,
        s[0] != '.',
    ensures
        split(s, '.')[0].len() > 0,
        split(s, '.')[0][0] == s[0],
        split(s, '.').len() > 0,
    decreases s.len(),
{
    split_nonempty(s, '.');
    let front = s.drop_last();
    split_nonempty(front, '.');
    if s.len() == 1 {
        assert(front =~= Seq::empty());
    } else {
        first_char_stays(front);
    }
}

/// A version 4 address in dotted notation is a host, and its own canonical form.
pub proof fn v4_addresses_are_hosts(parts: Seq<u16>)
    requires
        octets(parts),
    ensures
        host_of(v4_text(parts)) == Some(v4_text(parts)),
{
    let text = v4_text(parts);
    crate::ip::v4_text_split(parts);
    let labels = split(text, '.');
    assert forall|i: int| 0 <= i < labels.len() implies valid_label(#[trigger] labels[i]) by {
        crate::text::decimal_value(parts[i] as nat);
        assert(labels[i] == crate::text::decimal(parts[i] as nat));
        short_decimal(parts[i] as nat);
        assert(is_digit(labels[i][0]));
        assert(is_digit(labels[i][labels[i].len() - 1]));
        assert forall|j: int| 0 <= j < labels[i].len() implies label_char(
            #[trigger] labels[i][j],
        ) by {
            assert(is_digit(labels[i][j]));
        }
    }
    short_decimal(parts[0] as nat);
    short_decimal(parts[1] as nat);
    short_decimal(parts[2] as nat);
    short_decimal(parts[3] as nat);
    name_edges(text);
    assert forall|i: int| 0 <= i < text.len() implies ascii_lower(#[trigger] text[i]) == text[i] by {
        crate::ip6::v4_text_chars(parts, i);
    }
    assert(lower(text) =~= text);
}

/// An octet takes at most three digits.
proof fn short_decimal(n: nat)
    requires
        n < 256,
    ensures
        1 <= crate::text::decimal(n).len() <= 3,
{
    reveal_with_fuel(crate::text::decimal, 4);
}

/// Whether a host is read does not depend on the case of its letters, and
/// neither does what is read.
pub proof fn hosts_are_blind_to_case(value: Seq<char>, other: Seq<char>)
    requires
        lower(value) == lower(other),
    ensures
        host_of(value) == host_of(other),
{
    host_of_lower(value);
    host_of_lower(other);
}

/// One dot behind a name changes nothing.
pub proof fn hosts_are_blind_to_one_final_dot(value: Seq<char>)
    requires
        !bracketed(value),
        value.len() == 0 || value.last() != '.',
    ensures
        host_of(value.push('.')) == host_of(value),
{
    assert(undotted(value.push('.')) =~= value);
}

/// A canonical host holds no capital letter and does not end in a dot.
pub proof fn canonical_hosts_are_small(value: Seq<char>)
    requires
        host_of(value) is Some,
    ensures
        without_capitals(host_of(value)->0),
        host_of(value)->0.last() != '.',
{
    let host = host_of(value)->0;
    if bracketed(value) {
        let parts = v6_of(value.subrange(1, value.len() - 1))->0;
        v6_parts(value.subrange(1, value.len() - 1));
        v6_text_is_small(parts);
        assert forall|i: int| 0 <= i < host.len() implies !is_upper(#[trigger] host[i]) by {
            if 0 < i < host.len() - 1 {
                assert(host[i] == v6_text(parts)[i - 1]);
            }
        }
    } else {
        name_edges(undotted(value));
    }
}

/// A host in small letters is the same host.
proof fn host_of_lower(value: Seq<char>)
    ensures
        host_of(lower(value)) == host_of(value),
{
    let small = lower(value);
    if bracketed(value) {
        let inner = value.subrange(1, value.len() - 1);
        assert(small.subrange(1, small.len() - 1) =~= lower(inner));
        v6_of_lower(inner);
    } else {
        let name = undotted(value);
        assert(undotted(small) =~= lower(name));
        assert(lower(lower(name)) =~= lower(name));
        split_lower(name, '.');
        let labels = split(name, '.');
        let low = split(lower(name), '.');
        assert forall|i: int| 0 <= i < labels.len() implies valid_label(#[trigger] labels[i])
            == valid_label(low[i]) by {
            assert(low[i] == lower(labels[i]));
            assert(forall|j: int| 0 <= j < labels[i].len() ==> label_char(#[trigger] labels[i][j])
                == label_char(low[i][j]));
            if valid_label(low[i]) {
                assert forall|j: int| 0 <= j < labels[i].len() implies label_char(
                    #[trigger] labels[i][j],
                ) by {
                    assert(label_char(low[i][j]));
                }
            }
        }
        assert(valid_name(lower(name)) == valid_name(name)) by {
            if valid_name(lower(name)) {
                assert forall|i: int| 0 <= i < labels.len() implies valid_label(
                    #[trigger] labels[i],
                ) by {
                    assert(valid_label(low[i]));
                }
            }
            if valid_name(name) {
                assert forall|i: int| 0 <= i < low.len() implies valid_label(
                    #[trigger] low[i],
                ) by {
                    assert(valid_label(labels[i]));
                }
            }
        }
    }
}

}
