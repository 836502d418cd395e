//! Version 6 addresses as text: reading, and the one canonical way of writing.
use crate::auth::tokens::hex_char;
use crate::ip::{
    joined, octets, parse_v4, push_v4, v4_text, v4_text_split, IpAddr,
};
use crate::text::{
    decimal_value, digit, is_digit, is_upper, lower, push_text, split, split_lower, split_on,
    split_single, views,
};
use vstd::prelude::*;

verus! {

/// A hexadecimal digit in either case.
pub open spec fn hex_any(c: char) -> bool {
    is_digit(c) || ('a' <= c && c <= 'f') || ('A' <= c && c <= 'F')
}

/// The number of a hexadecimal digit.
pub open spec fn hex_digit_value(c: char) -> int {
    if is_digit(c) {
        c as int - 48
    } else if 'a' <= c && c <= 'f' {
        c as int - 87
    } else {
        c as int - 55
    }
}

/// The number that a row of hexadecimal digits denotes.
pub open spec fn hex_value(s: Seq<char>) -> int
    decreases s.len(),
{
    if s.len() == 0 {
        0
    } else {
        16 * hex_value(s.drop_last()) + hex_digit_value(s.last())
    }
}

/// One segment: one to four hexadecimal digits.
pub open spec fn group(s: Seq<char>) -> Option<u16> {
    if 1 <= s.len() <= 4 && (forall|i: int| 0 <= i < s.len() ==> hex_any(#[trigger] s[i])) {
        Some(hex_value(s) as u16)
    } else {
        None
    }
}

/// The segments of groups, where each is one.
pub open spec fn groups(parts: Seq<Seq<char>>) -> Option<Seq<u16>>
    decreases parts.len(),
{
    if parts.len() == 0 {
        Some(Seq::empty())
    } else {
        match (groups(parts.drop_last()), group(parts.last())) {
            (Some(front), Some(last)) => Some(front.push(last)),
            _ => None,
        }
    }
}

/// The octets of a dotted text.
pub open spec fn v4_of(s: Seq<char>) -> Option<Seq<u16>> {
    if exists|parts: Seq<u16>| octets(parts) && s == #[trigger] v4_text(parts) {
        Some(choose|parts: Seq<u16>| octets(parts) && s == #[trigger] v4_text(parts))
    } else {
        None
    }
}

/// Two segments of four octets.
pub open spec fn embedded(parts: Seq<u16>) -> Seq<u16> {
    seq![(parts[0] * 256 + parts[1]) as u16, (parts[2] * 256 + parts[3]) as u16]
}

/// The segments of groups, of which the last may be a dotted version 4 address.
pub open spec fn segments(parts: Seq<Seq<char>>, dotted: bool) -> Option<Seq<u16>> {
    match groups(parts) {
        Some(all) => Some(all),
        None => if dotted && parts.len() > 0 {
            match (groups(parts.drop_last()), v4_of(parts.last())) {
                (Some(front), Some(last)) => Some(front + embedded(last)),
                _ => None,
            }
        } else {
            None
        },
    }
}

/// The segments on one side of a double colon.
pub open spec fn side(s: Seq<char>, dotted: bool) -> Option<Seq<u16>> {
    if s.len() == 0 {
        Some(Seq::empty())
    } else {
        segments(split(s, ':'), dotted)
    }
}

/// The position of the first double colon, or the length where there is none.
pub open spec fn first_pair(s: Seq<char>) -> int
    decreases s.len(),
{
    if s.len() < 2 {
        s.len() as int
    } else if s[0] == ':' && s[1] == ':' {
        0
    } else {
        1 + first_pair(s.skip(1))
    }
}

/// So many zero segments.
pub open spec fn zeros(n: int) -> Seq<u16> {
    Seq::new(n as nat, |i: int| 0u16)
}

/// The address that a text denotes: eight segments, or fewer around one double
/// colon, which stands for at least one zero segment.
pub open spec fn v6_of(s: Seq<char>) -> Option<Seq<u16>> {
    let at = first_pair(s);
    if at < s.len() {
        match (side(s.take(at), false), side(s.skip(at + 2), true)) {
            (Some(head), Some(tail)) => if head.len() + tail.len() <= 7 {
                Some(head + zeros(8 - head.len() - tail.len()) + tail)
            } else {
                None
            },
            _ => None,
        }
    } else {
        match segments(split(s, ':'), true) {
            Some(all) => if all.len() == 8 {
                Some(all)
            } else {
                None
            },
            None => None,
        }
    }
}

/// A number in lowercase hexadecimal notation, without leading zeros.
pub open spec fn hex_number(n: nat) -> Seq<char>
    decreases n,
{
    if n < 16 {
        seq![hex_char(n as int)]
    } else {
        hex_number(n / 16).push(hex_char(n as int % 16))
    }
}

/// The texts of segments.
pub open spec fn group_texts(parts: Seq<u16>) -> Seq<Seq<char>> {
    Seq::new(parts.len(), |i: int| hex_number(parts[i] as nat))
}

/// Segments with a colon between each two of them.
pub open spec fn colon_text(parts: Seq<u16>) -> Seq<char> {
    joined(group_texts(parts), ':')
}

/// How many zero segments stand from a position on.
pub open spec fn zeros_from(parts: Seq<u16>, at: int) -> int
    decreases parts.len() - at,
{
    if 0 <= at < parts.len() && parts[at] == 0 {
        1 + zeros_from(parts, at + 1)
    } else {
        0
    }
}

/// The first of the positions below `n` from which the most zeros stand.
pub open spec fn longest_from(parts: Seq<u16>, n: int) -> int
    decreases n,
{
    if n <= 1 {
        0
    } else {
        let best = longest_from(parts, n - 1);
        if zeros_from(parts, n - 1) > zeros_from(parts, best) {
            n - 1
        } else {
            best
        }
    }
}

/// A version 4 address mapped into version 6.
pub open spec fn is_mapped(parts: Seq<u16>) -> bool {
    &&& parts.len() == 8
    &&& parts[0] == 0 && parts[1] == 0 && parts[2] == 0 && parts[3] == 0 && parts[4] == 0
    &&& parts[5] == 0xffff
}

/// The octets of a mapped address.
pub open spec fn mapped_octets(parts: Seq<u16>) -> Seq<u16> {
    seq![
        (parts[6] / 256) as u16,
        (parts[6] % 256) as u16,
        (parts[7] / 256) as u16,
        (parts[7] % 256) as u16,
    ]
}

/// The canonical text of an address: a mapped address ends in dotted notation;
/// else the first longest row of two or more zeros becomes a double colon.
pub open spec fn v6_text(parts: Seq<u16>) -> Seq<char> {
    let start = longest_from(parts, 8);
    let count = zeros_from(parts, start);
    if is_mapped(parts) {
        "::ffff:"@ + v4_text(mapped_octets(parts))
    } else if count >= 2 {
        colon_text(parts.take(start)) + "::"@ + colon_text(parts.skip(start + count))
    } else {
        colon_text(parts)
    }
}

pub fn hex_digit_number(c: char) -> (r: Option<u16>)
    ensures
        match r {
            Some(n) => hex_any(c) && n == hex_digit_value(c) && n < 16,
            None => !hex_any(c),
        },
{
    if digit(c) {
        Some((c as u8 - 48) as u16)
    } else if c >= 'a' && c <= 'f' {
        Some((c as u8 - 87) as u16)
    } else if c >= 'A' && c <= 'F' {
        Some((c as u8 - 55) as u16)
    } else {
        None
    }
}

fn parse_group(s: &[char]) -> (r: Option<u16>)
    ensures
        r == group(s@),
{
    if s.len() < 1 || s.len() > 4 {
        return None;
    }
    let mut n: u32 = 0;
    let mut i: usize = 0;
    while i < s.len()
        invariant
            i <= s@.len() <= 4,
            n == hex_value(s@.take(i as int)),
            i == 0 ==> n == 0,
            i == 1 ==> n < 0x10,
            i == 2 ==> n < 0x100,
            i == 3 ==> n < 0x1000,
            i == 4 ==> n < 0x10000,
            forall|j: int| 0 <= j < i ==> hex_any(#[trigger] s@[j]),
        decreases s@.len() - i,
    {
        assert(s@.take(i + 1).drop_last() =~= s@.take(i as int));
        match hex_digit_number(s[i]) {
            None => {
                assert(!hex_any(s@[i as int]));
                return None;
            },
            Some(d) => {
                n = n * 16 + d as u32;
            },
        }
        i = i + 1;
    }
    assert(s@.take(i as int) =~= s@);
    Some(n as u16)
}

/// The segments of the first groups.
fn parse_groups(parts: &Vec<Vec<char>>, count: usize) -> (r: Option<Vec<u16>>)
    requires
        count <= parts@.len(),
    ensures
        (match r {
            Some(all) => Some(all@),
            None => None,
        }) == groups(views(parts@).take(count as int)),
{
    let ghost texts = views(parts@);
    let mut all: Vec<u16> = Vec::new();
    let mut i: usize = 0;
    assert(all@ =~= Seq::empty());
    while i < count
        invariant
            i <= count <= parts@.len(),
            texts == views(parts@),
            groups(texts.take(i as int)) == Some(all@),
        decreases count - i,
    {
        assert(texts.take(i + 1).drop_last() =~= texts.take(i as int));
        assert(texts[i as int] == parts@[i as int]@);
        match parse_group(parts[i].as_slice()) {
            Some(n) => {
                all.push(n);
            },
            None => {
                proof {
                    groups_fail(texts.take(count as int), i + 1);
                    assert(texts.take(count as int).take(i + 1) =~= texts.take(i + 1));
                }
                return None;
            },
        }
        i = i + 1;
    }
    Some(all)
}

/// Where the first groups fail, all fail.
proof fn groups_fail(parts: Seq<Seq<char>>, n: int)
    requires
        0 <= n <= parts.len(),
        groups(parts.take(n)) is None,
    ensures
        groups(parts) is None,
    decreases parts.len() - n,
{
    if n == parts.len() {
        assert(parts.take(n) =~= parts);
    } else {
        assert(parts.take(n + 1).drop_last() =~= parts.take(n));
        groups_fail(parts, n + 1);
    }
}

/// A dotted text denotes one address.
pub proof fn v4_unique(a: Seq<u16>, b: Seq<u16>)
    requires
        octets(a),
        octets(b),
        v4_text(a) == v4_text(b),
    ensures
        a == b,
{
    v4_text_split(a);
    v4_text_split(b);
    assert forall|i: int| 0 <= i < 4 implies a[i] == b[i] by {
        decimal_value(a[i] as nat);
        decimal_value(b[i] as nat);
        let parts = split(v4_text(a), '.');
        assert(parts[i] == crate::text::decimal(a[i] as nat));
        assert(parts[i] == crate::text::decimal(b[i] as nat));
    }
    assert(a =~= b);
}

/// The segments of groups, of which the last may be dotted.
fn parse_segments(s: &[char], dotted: bool) -> (r: Option<Vec<u16>>)
    ensures
        (match r {
            Some(all) => Some(all@),
            None => None,
        }) == segments(split(s@, ':'), dotted),
{
    let parts: Vec<Vec<char>> = split_on(s, ':');
    let ghost texts = views(parts@);
    let count: usize = parts.len();
    assert(texts.take(count as int) =~= texts);
    match parse_groups(&parts, count) {
        Some(all) => Some(all),
        None => {
            if !dotted {
                return None;
            }
            assert(texts.take(count - 1) =~= texts.drop_last());
            assert(texts.last() == parts@[count - 1]@);
            match parse_groups(&parts, count - 1) {
                None => None,
                Some(front) => match parse_v4(parts[count - 1].as_slice()) {
                    None => None,
                    Some(last) => {
                        proof {
                            let chosen = choose|p: Seq<u16>|
                                octets(p) && texts.last() == #[trigger] v4_text(p);
                            v4_unique(last@, chosen);
                        }
                        let mut all: Vec<u16> = front;
                        assert(last@[0] < 256 && last@[1] < 256 && last@[2] < 256 && last@[3]
                            < 256);
                        all.push(last[0] * 256 + last[1]);
                        all.push(last[2] * 256 + last[3]);
                        assert(all@ =~= front@ + embedded(last@));
                        Some(all)
                    },
                },
            }
        },
    }
}

proof fn first_pair_unique(s: Seq<char>, at: int)
    requires
        0 <= at <= s.len(),
        at < s.len() ==> at + 1 < s.len() && s[at] == ':' && s[at + 1] == ':',
        forall|i: int| 0 <= i < at && i + 1 < s.len() ==> !(#[trigger] s[i] == ':' && s[i + 1] == ':'),
    ensures
        first_pair(s) == at,
    decreases s.len(),
{
    if s.len() >= 2 {
        if s[0] == ':' && s[1] == ':' {
            if at > 0 {
                assert(!(s[0int] == ':' && s[0int + 1] == ':'));
            }
        } else {
            let rest = s.skip(1);
            assert forall|i: int| 0 <= i < at - 1 && i + 1 < rest.len() implies !(#[trigger] rest[i]
                == ':' && rest[i + 1] == ':') by {
                assert(rest[i] == s[i + 1] && rest[i + 1] == s[i + 2]);
                assert(!(s[i + 1] == ':' && s[i + 1 + 1] == ':'));
            }
            first_pair_unique(rest, at - 1);
        }
    }
}

fn find_pair(s: &[char]) -> (r: usize)
    ensures
        r == first_pair(s@),
        r <= s@.len(),
        r < s@.len() ==> r + 2 <= s@.len(),
{
    let mut i: usize = 0;
    while i < s.len() && i + 1 < s.len()
        invariant
            i <= s@.len(),
            forall|j: int|
                0 <= j < i && j + 1 < s@.len() ==> !(#[trigger] s@[j] == ':' && s@[j + 1] == ':'),
        decreases s@.len() - i,
    {
        if s[i] == ':' && s[i + 1] == ':' {
            proof {
                first_pair_unique(s@, i as int);
            }
            return i;
        }
        i = i + 1;
    }
    proof {
        first_pair_unique(s@, s@.len() as int);
    }
    s.len()
}

fn parse_side(s: &[char], dotted: bool) -> (r: Option<Vec<u16>>)
    ensures
        (match r {
            Some(all) => Some(all@),
            None => None,
        }) == side(s@, dotted),
{
    if s.len() == 0 {
        let none: Vec<u16> = Vec::new();
        assert(none@ =~= Seq::empty());
        Some(none)
    } else {
        parse_segments(s, dotted)
    }
}

/// Reads an address.
pub fn parse_v6(s: &[char]) -> (r: Option<Vec<u16>>)
    ensures
        (match r {
            Some(parts) => Some(parts@),
            None => None,
        }) == v6_of(s@),
        r matches Some(parts) ==> parts@.len() == 8,
{
    let at: usize = find_pair(s);
    if at < s.len() {
        let before: &[char] = vstd::slice::slice_subrange(s, 0, at);
        let behind: &[char] = vstd::slice::slice_subrange(s, at + 2, s.len());
        assert(before@ =~= s@.take(at as int));
        assert(behind@ =~= s@.skip(at + 2));
        match (parse_side(before, false), parse_side(behind, true)) {
            (Some(head), Some(tail)) => {
                if head.len() > 7 || tail.len() > 7 - head.len() {
                    return None;
                }
                let gap: usize = 8 - head.len() - tail.len();
                let ghost first = head@;
                let mut parts: Vec<u16> = head;
                let mut i: usize = 0;
                while i < gap
                    invariant
                        i <= gap,
                        parts@ == first + zeros(i as int),
                    decreases gap - i,
                {
                    parts.push(0);
                    i = i + 1;
                    assert(parts@ =~= first + zeros(i as int));
                }
                let mut k: usize = 0;
                while k < tail.len()
                    invariant
                        k <= tail@.len(),
                        parts@ == first + zeros(gap as int) + tail@.take(k as int),
                    decreases tail@.len() - k,
                {
                    parts.push(tail[k]);
                    k = k + 1;
                    assert(parts@ =~= first + zeros(gap as int) + tail@.take(k as int));
                }
                assert(tail@.take(k as int) =~= tail@);
                Some(parts)
            },
            _ => None,
        }
    } else {
        match parse_segments(s, true) {
            Some(all) => {
                if all.len() == 8 {
                    Some(all)
                } else {
                    None
                }
            },
            None => None,
        }
    }
}

/// Appends a number in lowercase hexadecimal notation.
fn push_hex(out: &mut String, n: u16)
    ensures
        final(out)@ == old(out)@ + hex_number(n as nat),
    decreases n,
{
    if n >= 16 {
        push_hex(out, n / 16);
    }
    let d: u8 = (n % 16) as u8;
    if d < 10 {
        out.push((48 + d) as char);
    } else {
        out.push((87 + d) as char);
    }
    assert(out@ =~= old(out)@ + hex_number(n as nat));
}

/// Appends segments with colons between them.
fn push_colon_text(out: &mut String, parts: &[u16])
    ensures
        final(out)@ == old(out)@ + colon_text(parts@),
{
    let ghost texts = group_texts(parts@);
    let ghost start = out@;
    let mut i: usize = 0;
    assert(out@ =~= start + joined(texts.take(0), ':'));
    while i < parts.len()
        invariant
            i <= parts@.len(),
            texts == group_texts(parts@),
            out@ == start + joined(texts.take(i as int), ':'),
        decreases parts@.len() - i,
    {
        assert(texts.take(i + 1).drop_last() =~= texts.take(i as int));
        if i > 0 {
            out.push(':');
        }
        push_hex(out, parts[i]);
        i = i + 1;
        assert(out@ =~= start + joined(texts.take(i as int), ':'));
    }
    assert(texts.take(i as int) =~= texts);
}

fn count_zeros(parts: &[u16], at: usize) -> (r: usize)
    requires
        at <= parts@.len() <= 8,
    ensures
        r == zeros_from(parts@, at as int),
        at + r <= parts@.len(),
    decreases parts@.len() - at,
{
    if at < parts.len() && parts[at] == 0 {
        1 + count_zeros(parts, at + 1)
    } else {
        0
    }
}

/// Appends the canonical text of an address.
pub fn push_v6(out: &mut String, parts: &[u16])
    requires
        parts@.len() == 8,
    ensures
        final(out)@ == old(out)@ + v6_text(parts@),
{
    if parts[0] == 0 && parts[1] == 0 && parts[2] == 0 && parts[3] == 0 && parts[4] == 0 && parts[5]
        == 0xffff {
        let mut dotted: Vec<u16> = Vec::new();
        dotted.push(parts[6] / 256);
        dotted.push(parts[6] % 256);
        dotted.push(parts[7] / 256);
        dotted.push(parts[7] % 256);
        assert(dotted@ =~= mapped_octets(parts@));
        push_text(out, "::ffff:");
        push_v4(out, dotted.as_slice());
        assert(out@ =~= old(out)@ + v6_text(parts@));
        return;
    }
    let mut best: usize = 0;
    let mut i: usize = 1;
    while i < 8
        invariant
            1 <= i <= 8,
            best < 8,
            parts@.len() == 8,
            best == longest_from(parts@, i as int),
        decreases 8 - i,
    {
        if count_zeros(parts, i) > count_zeros(parts, best) {
            best = i;
        }
        i = i + 1;
    }
    let count: usize = count_zeros(parts, best);
    if count >= 2 {
        let head: &[u16] = vstd::slice::slice_subrange(parts, 0, best);
        let tail: &[u16] = vstd::slice::slice_subrange(parts, best + count, 8);
        assert(head@ =~= parts@.take(best as int));
        assert(tail@ =~= parts@.skip(best + count));
        push_colon_text(out, head);
        push_text(out, "::");
        push_colon_text(out, tail);
    } else {
        push_colon_text(out, parts);
    }
    assert(out@ =~= old(out)@ + v6_text(parts@));
}

/// Hexadecimal notation denotes its number.
proof fn hex_number_value(n: nat)
    ensures
        hex_value(hex_number(n)) == n,
        hex_number(n).len() > 0,
        forall|i: int| 0 <= i < hex_number(n).len() ==> hex_any(#[trigger] hex_number(n)[i]),
        !hex_number(n).contains(':'),
    decreases n,
{
    if n < 16 {
        reveal_with_fuel(hex_value, 2);
        assert(hex_number(n).drop_last() =~= Seq::<char>::empty());
    } else {
        hex_number_value(n / 16);
        assert(hex_number(n).drop_last() =~= hex_number(n / 16));
    }
    if hex_number(n).contains(':') {
        let i = choose|i: int| 0 <= i < hex_number(n).len() && hex_number(n)[i] == ':';
        assert(hex_any(hex_number(n)[i]));
    }
}

proof fn hex_number_group(n: u16)
    ensures
        group(hex_number(n as nat)) == Some(n),
{
    hex_number_value(n as nat);
    reveal_with_fuel(hex_number, 5);
    assert(hex_number(n as nat).len() <= 4);
}

/// A part without separators added behind a separator.
proof fn split_snoc(s: Seq<char>, part: Seq<char>, sep: char)
    requires
        !part.contains(sep),
    ensures
        split(s + seq![sep] + part, sep) == split(s, sep).push(part),
    decreases part.len(),
{
    let whole = s + seq![sep] + part;
    if part.len() == 0 {
        assert(part =~= Seq::empty());
        assert(whole.drop_last() =~= s);
    } else {
        assert(part.contains(part.last()));
        assert forall|c: char| part.drop_last().contains(c) implies part.contains(c) by {
            let i = choose|i: int| 0 <= i < part.drop_last().len() && part.drop_last()[i] == c;
            assert(part[i] == c);
        }
        split_snoc(s, part.drop_last(), sep);
        assert(whole.drop_last() =~= s + seq![sep] + part.drop_last());
        assert(part.drop_last().push(part.last()) =~= part);
        assert(split(whole, sep) =~= split(s, sep).push(part));
    }
}

/// What a row of segments looks like as text: its parts are the segments, and
/// no colon stands at either end or beside another.
proof fn colon_text_shape(parts: Seq<u16>)
    requires
        parts.len() > 0,
    ensures
        split(colon_text(parts), ':') == group_texts(parts),
        groups(group_texts(parts)) == Some(parts),
        colon_text(parts).len() > 0,
        colon_text(parts)[0] != ':',
        colon_text(parts).last() != ':',
        forall|i: int|
            0 <= i && i + 1 < colon_text(parts).len() ==> !(#[trigger] colon_text(parts)[i] == ':'
                && colon_text(parts)[i + 1] == ':'),
    decreases parts.len(),
{
    let texts = group_texts(parts);
    let last = hex_number(parts.last() as nat);
    hex_number_value(parts.last() as nat);
    hex_number_group(parts.last());
    assert(texts.last() == last);
    assert(last.contains(last[0]) && last.contains(last.last()));
    if parts.len() == 1 {
        split_single(last, ':');
        assert(texts =~= seq![last]);
        reveal_with_fuel(groups, 2);
        assert(texts.drop_last() =~= Seq::<Seq<char>>::empty());
        assert(groups(texts)->0 =~= parts);
        assert forall|i: int| 0 <= i && i + 1 < colon_text(parts).len() implies !(
        #[trigger] colon_text(parts)[i] == ':' && colon_text(parts)[i + 1] == ':') by {
            assert(last.contains(last[i]));
        }
    } else {
        let front = parts.drop_last();
        colon_text_shape(front);
        assert(texts.drop_last() =~= group_texts(front));
        let before = colon_text(front);
        let text = colon_text(parts);
        assert(text == before + seq![':'] + last);
        split_snoc(before, last, ':');
        assert(split(text, ':') =~= texts);
        assert(groups(texts)->0 =~= parts);
        assert forall|i: int| 0 <= i && i + 1 < text.len() implies !(#[trigger] text[i] == ':'
            && text[i + 1] == ':') by {
            if i + 1 < before.len() {
                assert(text[i] == before[i] && text[i + 1] == before[i + 1]);
            } else if i < before.len() {
                assert(text[i] == before.last());
            } else if i == before.len() {
                assert(text[i + 1] == last[0]);
            } else {
                assert(text[i] == last[i - before.len() - 1]);
                assert(last.contains(text[i]));
            }
        }
    }
}

/// The text of segments beside a double colon gives them back.
proof fn side_round_trip(parts: Seq<u16>, dotted: bool)
    ensures
        side(colon_text(parts), dotted) == Some(parts),
{
    if parts.len() == 0 {
        assert(group_texts(parts).len() == 0);
        assert(parts =~= Seq::empty());
    } else {
        colon_text_shape(parts);
    }
}

proof fn zeros_from_are_zeros(parts: Seq<u16>, at: int)
    requires
        0 <= at <= parts.len(),
    ensures
        0 <= zeros_from(parts, at) <= parts.len() - at,
        forall|j: int| at <= j < at + zeros_from(parts, at) ==> #[trigger] parts[j] == 0,
    decreases parts.len() - at,
{
    if at < parts.len() && parts[at] == 0 {
        zeros_from_are_zeros(parts, at + 1);
    }
}

proof fn longest_from_is_a_position(parts: Seq<u16>, n: int)
    requires
        1 <= n <= parts.len(),
    ensures
        0 <= longest_from(parts, n) < n,
    decreases n,
{
    if n > 1 {
        longest_from_is_a_position(parts, n - 1);
    }
}

/// A double colon stands for the zeros that are missing to eight segments, one
/// at least; with eight segments written there is no room for it.
pub proof fn elided_zeros_are_read(a: Seq<u16>, b: Seq<u16>)
    ensures
        a.len() + b.len() <= 7 ==> v6_of(colon_text(a) + "::"@ + colon_text(b)) == Some(
            a + zeros(8 - a.len() - b.len()) + b,
        ),
        a.len() + b.len() > 7 ==> v6_of(colon_text(a) + "::"@ + colon_text(b)) is None,
{
    reveal_strlit("::");
    let head = colon_text(a);
    let tail = colon_text(b);
    let text = head + "::"@ + tail;
    assert(a.len() == 0 ==> head.len() == 0) by {
        assert(group_texts(a).len() == a.len());
    }
    if a.len() > 0 {
        colon_text_shape(a);
    }
    let at = head.len() as int;
    assert forall|i: int| 0 <= i < at && i + 1 < text.len() implies !(#[trigger] text[i] == ':'
        && text[i + 1] == ':') by {
        assert(a.len() > 0);
        if i + 1 < at {
            assert(text[i] == head[i] && text[i + 1] == head[i + 1]);
        } else {
            assert(text[i] == head.last());
        }
    }
    assert(text[at] == ':' && text[at + 1] == ':');
    first_pair_unique(text, at);
    assert(text.take(at) =~= head);
    assert(text.skip(at + 2) =~= tail);
    side_round_trip(a, false);
    side_round_trip(b, true);
}

/// Segments that are all written are read as they are, eight of them and no
/// other number.
pub proof fn written_segments_are_read(parts: Seq<u16>)
    requires
        parts.len() > 0,
    ensures
        parts.len() == 8 ==> v6_of(colon_text(parts)) == Some(parts),
        parts.len() != 8 ==> v6_of(colon_text(parts)) is None,
{
    colon_text_shape(parts);
    first_pair_unique(colon_text(parts), colon_text(parts).len() as int);
}

/// Zeros from a position on, so many at least.
pub open spec fn zero_run(parts: Seq<u16>, at: int, count: int) -> bool {
    0 <= at && 0 <= count && at + count <= parts.len() && forall|j: int|
        at <= j < at + count ==> #[trigger] parts[j] == 0
}

/// The text of an address elides its longest row of zeros, the first of them
/// where there are several; a single zero is written.
pub proof fn the_longest_zeros_are_elided(parts: Seq<u16>, at: int, count: int)
    requires
        parts.len() == 8,
        !is_mapped(parts),
        zero_run(parts, at, count),
        forall|k: int, n: int| #[trigger]
            zero_run(parts, k, n) ==> n < count || (n == count && at <= k) || n == 0,
    ensures
        count >= 2 ==> v6_text(parts) == colon_text(parts.take(at)) + "::"@ + colon_text(
            parts.skip(at + count),
        ),
        count < 2 ==> v6_text(parts) == colon_text(parts),
{
    let start = longest_from(parts, 8);
    longest_from_is_a_position(parts, 8);
    longest_from_is_longest(parts, 8, start);
    zeros_from_are_zeros(parts, start);
    let most = zeros_from(parts, start);
    assert(zero_run(parts, start, most));
    if count > 0 {
        longest_from_is_longest(parts, 8, at);
        zeros_from_are_zeros(parts, at);
        zeros_from_is_longest(parts, at, count);
        assert(zero_run(parts, at, zeros_from(parts, at)));
    }
}

proof fn zeros_from_is_longest(parts: Seq<u16>, at: int, count: int)
    requires
        zero_run(parts, at, count),
    ensures
        zeros_from(parts, at) >= count,
    decreases count,
{
    if count > 0 {
        assert(parts[at] == 0);
        assert(zero_run(parts, at + 1, count - 1));
        zeros_from_is_longest(parts, at + 1, count - 1);
    } else {
        zeros_from_are_zeros(parts, at);
    }
}

proof fn longest_from_is_longest(parts: Seq<u16>, n: int, k: int)
    requires
        1 <= n <= parts.len(),
        0 <= k < n,
    ensures
        zeros_from(parts, k) <= zeros_from(parts, longest_from(parts, n)),
        k < longest_from(parts, n) ==> zeros_from(parts, k) < zeros_from(
            parts,
            longest_from(parts, n),
        ),
    decreases n,
{
    if n > 1 {
        longest_from_is_a_position(parts, n - 1);
        if k < n - 1 {
            longest_from_is_longest(parts, n - 1, k);
        }
    }
}

proof fn compressed_round_trip(parts: Seq<u16>, start: int, count: int)
    requires
        parts.len() == 8,
        0 <= start,
        2 <= count,
        start + count <= 8,
        forall|j: int| start <= j < start + count ==> #[trigger] parts[j] == 0,
    ensures
        v6_of(colon_text(parts.take(start)) + "::"@ + colon_text(parts.skip(start + count)))
            == Some(parts),
{
    let a = parts.take(start);
    let b = parts.skip(start + count);
    elided_zeros_are_read(a, b);
    assert(a + zeros(8 - a.len() - b.len()) + b =~= parts);
}

proof fn dotted_text_is_no_group(parts: Seq<u16>)
    requires
        octets(parts),
    ensures
        !v4_text(parts).contains(':'),
        group(v4_text(parts)) is None,
        v4_of(v4_text(parts)) == Some(parts),
{
    let dotted = v4_text(parts);
    if dotted.contains(':') {
        let i = choose|i: int| 0 <= i < dotted.len() && dotted[i] == ':';
        v4_text_chars(parts, i);
    }
    let dot = crate::text::decimal(parts[0] as nat).len() as int;
    assert(dotted[dot] == '.');
    assert(!hex_any(dotted[dot]));
    let chosen = choose|p: Seq<u16>| octets(p) && dotted == #[trigger] v4_text(p);
    v4_unique(parts, chosen);
}

proof fn group_of_ones()
    ensures
        groups(seq![seq!['f', 'f', 'f', 'f']]) == Some(seq![0xffffu16]),
{
    let word = seq!['f', 'f', 'f', 'f'];
    assert(group(word) == Some(0xffffu16)) by {
        reveal_with_fuel(hex_value, 5);
        assert(word.drop_last() =~= seq!['f', 'f', 'f']);
        assert(word.drop_last().drop_last() =~= seq!['f', 'f']);
        assert(word.drop_last().drop_last().drop_last() =~= seq!['f']);
    }
    reveal_with_fuel(groups, 2);
    assert(seq![word].drop_last() =~= Seq::<Seq<char>>::empty());
    assert(groups(seq![word])->0 =~= seq![0xffffu16]);
}

proof fn mapped_round_trip(parts: Seq<u16>)
    requires
        is_mapped(parts),
    ensures
        v6_of("::ffff:"@ + v4_text(mapped_octets(parts))) == Some(parts),
{
    reveal_strlit("::ffff:");
    let q = mapped_octets(parts);
    assert(octets(q));
    let dotted = v4_text(q);
    dotted_text_is_no_group(q);
    let text = "::ffff:"@ + dotted;
    first_pair_unique(text, 0);
    assert(text.take(0) =~= Seq::<char>::empty());
    let tail = text.skip(2);
    let word = seq!['f', 'f', 'f', 'f'];
    assert(tail =~= word + seq![':'] + dotted);
    assert(!word.contains(':'));
    split_single(word, ':');
    split_snoc(word, dotted, ':');
    let both = seq![word].push(dotted);
    assert(split(tail, ':') == both);
    assert(both.drop_last() =~= seq![word]);
    assert(groups(both) is None);
    group_of_ones();
    let found = seq![0xffffu16] + embedded(q);
    assert(segments(both, true) == Some(found));
    assert(found =~= seq![0xffffu16, parts[6], parts[7]]);
    assert(Seq::<u16>::empty() + zeros(5) + found =~= parts);
}

/// A dotted text holds digits and dots.
pub proof fn v4_text_chars(parts: Seq<u16>, i: int)
    requires
        octets(parts),
        0 <= i < v4_text(parts).len(),
    ensures
        is_digit(v4_text(parts)[i]) || v4_text(parts)[i] == '.',
{
    let a = crate::text::decimal(parts[0] as nat);
    let b = crate::text::decimal(parts[1] as nat);
    let c = crate::text::decimal(parts[2] as nat);
    let d = crate::text::decimal(parts[3] as nat);
    decimal_value(parts[0] as nat);
    decimal_value(parts[1] as nat);
    decimal_value(parts[2] as nat);
    decimal_value(parts[3] as nat);
    let text = v4_text(parts);
    if i < a.len() {
        assert(text[i] == a[i]);
    } else if i > a.len() && i < a.len() + 1 + b.len() {
        assert(text[i] == b[i - a.len() - 1]);
    } else if i > a.len() + 1 + b.len() && i < a.len() + b.len() + c.len() + 2 {
        assert(text[i] == c[i - a.len() - b.len() - 2]);
    } else if i > a.len() + b.len() + c.len() + 2 {
        assert(text[i] == d[i - a.len() - b.len() - c.len() - 3]);
    }
}

/// The canonical text of an address denotes that address.
pub proof fn v6_round_trip(parts: Seq<u16>)
    requires
        parts.len() == 8,
    ensures
        v6_of(v6_text(parts)) == Some(parts),
{
    let start = longest_from(parts, 8);
    let count = zeros_from(parts, start);
    if is_mapped(parts) {
        mapped_round_trip(parts);
    } else if count >= 2 {
        longest_from_is_a_position(parts, 8);
        zeros_from_are_zeros(parts, start);
        compressed_round_trip(parts, start, count);
    } else {
        colon_text_shape(parts);
        first_pair_unique(colon_text(parts), colon_text(parts).len() as int);
    }
}

/// The address of either version that a text denotes.
pub open spec fn address_of(s: Seq<char>) -> Option<Seq<u16>> {
    match v4_of(s) {
        Some(parts) => Some(parts),
        None => v6_of(s),
    }
}

/// The version 4 address of a mapped address; every other address is itself.
pub open spec fn canonical_address(parts: Seq<u16>) -> Seq<u16> {
    if is_mapped(parts) {
        mapped_octets(parts)
    } else {
        parts
    }
}

impl IpAddr {
    /// Reads an address of either version.
    pub fn parse(s: &[char]) -> (r: Option<Self>)
        ensures
            (match r {
                Some(address) => Some(address@),
                None => None,
            }) == address_of(s@),
    {
        match parse_v4(s) {
            Some(parts) => {
                proof {
                    let chosen = choose|p: Seq<u16>| octets(p) && s@ == #[trigger] v4_text(p);
                    v4_unique(parts@, chosen);
                }
                Some(IpAddr::from_parts(parts))
            },
            None => match parse_v6(s) {
                Some(parts) => Some(IpAddr::from_parts(parts)),
                None => None,
            },
        }
    }

    /// A mapped address becomes the version 4 address that it stands for.
    pub fn to_canonical(&self) -> (r: Self)
        ensures
            r@ == canonical_address(self@),
    {
        let parts: &[u16] = self.parts();
        if parts.len() == 8 && parts[0] == 0 && parts[1] == 0 && parts[2] == 0 && parts[3] == 0
            && parts[4] == 0 && parts[5] == 0xffff {
            let mut four: Vec<u16> = Vec::new();
            four.push(parts[6] / 256);
            four.push(parts[6] % 256);
            four.push(parts[7] / 256);
            four.push(parts[7] % 256);
            assert(four@ =~= mapped_octets(self@));
            IpAddr::from_parts(four)
        } else {
            self.copy()
        }
    }
}

/// An address in small letters is the same address.
pub proof fn v6_of_lower(s: Seq<char>)
    ensures
        v6_of(lower(s)) == v6_of(s),
{
    first_pair_lower(s);
    let at = first_pair(s);
    first_pair_bounds(s);
    if at < s.len() {
        assert(lower(s).take(at) =~= lower(s.take(at)));
        assert(lower(s).skip(at + 2) =~= lower(s.skip(at + 2)));
        side_lower(s.take(at), false);
        side_lower(s.skip(at + 2), true);
    } else {
        split_lower(s, ':');
        segments_lower(split(s, ':'), split(lower(s), ':'), true);
    }
}

proof fn first_pair_bounds(s: Seq<char>)
    ensures
        0 <= first_pair(s) <= s.len(),
        first_pair(s) < s.len() ==> first_pair(s) + 2 <= s.len(),
    decreases s.len(),
{
    if s.len() >= 2 && !(s[0] == ':' && s[1] == ':') {
        first_pair_bounds(s.skip(1));
    }
}

proof fn first_pair_lower(s: Seq<char>)
    ensures
        first_pair(lower(s)) == first_pair(s),
    decreases s.len(),
{
    if s.len() >= 2 {
        assert(lower(s).skip(1) =~= lower(s.skip(1)));
        first_pair_lower(s.skip(1));
    }
}

proof fn side_lower(s: Seq<char>, dotted: bool)
    ensures
        side(lower(s), dotted) == side(s, dotted),
{
    if s.len() > 0 {
        split_lower(s, ':');
        segments_lower(split(s, ':'), split(lower(s), ':'), dotted);
    }
}

proof fn segments_lower(parts: Seq<Seq<char>>, small: Seq<Seq<char>>, dotted: bool)
    requires
        small.len() == parts.len(),
        forall|i: int| 0 <= i < parts.len() ==> #[trigger] small[i] == lower(parts[i]),
    ensures
        segments(small, dotted) == segments(parts, dotted),
{
    groups_lower(parts, small);
    if parts.len() > 0 {
        groups_lower(parts.drop_last(), small.drop_last());
        assert(small[small.len() - 1] == lower(parts.last()));
        v4_of_lower(parts.last());
    }
}

proof fn groups_lower(parts: Seq<Seq<char>>, small: Seq<Seq<char>>)
    requires
        small.len() == parts.len(),
        forall|i: int| 0 <= i < parts.len() ==> #[trigger] small[i] == lower(parts[i]),
    ensures
        groups(small) == groups(parts),
    decreases parts.len(),
{
    if parts.len() > 0 {
        groups_lower(parts.drop_last(), small.drop_last());
        assert(small[small.len() - 1] == lower(parts.last()));
        group_lower(parts.last());
    }
}

proof fn group_lower(s: Seq<char>)
    ensures
        group(lower(s)) == group(s),
{
    let small = lower(s);
    assert(forall|i: int| 0 <= i < s.len() ==> hex_any(#[trigger] s[i]) == hex_any(small[i]));
    if forall|i: int| 0 <= i < small.len() ==> hex_any(#[trigger] small[i]) {
        assert forall|i: int| 0 <= i < s.len() implies hex_any(#[trigger] s[i]) by {
            assert(hex_any(small[i]));
        }
        hex_value_lower(s);
    }
}

proof fn hex_value_lower(s: Seq<char>)
    requires
        forall|i: int| 0 <= i < s.len() ==> hex_any(#[trigger] s[i]),
    ensures
        hex_value(lower(s)) == hex_value(s),
    decreases s.len(),
{
    if s.len() > 0 {
        assert(lower(s).drop_last() =~= lower(s.drop_last()));
        hex_value_lower(s.drop_last());
        assert(hex_any(s[s.len() - 1]));
    }
}

proof fn v4_of_lower(s: Seq<char>)
    ensures
        v4_of(lower(s)) == v4_of(s),
{
    assert forall|parts: Seq<u16>| octets(parts) implies (lower(s) == #[trigger] v4_text(parts)
        <==> s == v4_text(parts)) by {
        assert forall|i: int| 0 <= i < v4_text(parts).len() implies is_digit(
            #[trigger] v4_text(parts)[i],
        ) || v4_text(parts)[i] == '.' by {
            v4_text_chars(parts, i);
        }
        if lower(s) == v4_text(parts) {
            assert forall|i: int| 0 <= i < s.len() implies #[trigger] s[i] == v4_text(
                parts,
            )[i] by {
                assert(lower(s)[i] == v4_text(parts)[i]);
            }
            assert(s =~= v4_text(parts));
        }
        if s == v4_text(parts) {
            assert(lower(s) =~= s);
        }
    }
    if v4_of(s) is Some || v4_of(lower(s)) is Some {
        let parts = if v4_of(s) is Some {
            v4_of(s)->0
        } else {
            v4_of(lower(s))->0
        };
        assert(octets(parts));
        assert(s == v4_text(parts));
        assert(lower(s) == v4_text(parts));
        assert(lower(s) == s);
    }
}

/// A text without capital letters.
pub open spec fn without_capitals(s: Seq<char>) -> bool {
    forall|i: int| 0 <= i < s.len() ==> !is_upper(#[trigger] s[i])
}

/// The canonical text of an address holds no capital letter.
pub proof fn v6_text_is_small(parts: Seq<u16>)
    requires
        parts.len() == 8,
    ensures
        without_capitals(v6_text(parts)),
{
    reveal_strlit("::ffff:");
    reveal_strlit("::");
    let start = longest_from(parts, 8);
    let count = zeros_from(parts, start);
    if is_mapped(parts) {
        let octets = mapped_octets(parts);
        assert forall|i: int| 0 <= i < v4_text(octets).len() implies !is_upper(
            #[trigger] v4_text(octets)[i],
        ) by {
            v4_text_chars(octets, i);
        }
    } else if count >= 2 {
        groups_are_small(parts.take(start));
        groups_are_small(parts.skip(start + count));
    } else {
        groups_are_small(parts);
    }
}

proof fn groups_are_small(parts: Seq<u16>)
    ensures
        without_capitals(colon_text(parts)),
{
    let texts = group_texts(parts);
    assert forall|i: int| 0 <= i < texts.len() implies #[trigger] without_capitals(texts[i]) by {
        hex_number_is_small(parts[i] as nat);
    }
    joined_is_small(texts);
}

proof fn hex_number_is_small(n: nat)
    ensures
        without_capitals(hex_number(n)),
    decreases n,
{
    if n >= 16 {
        hex_number_is_small(n / 16);
    }
}

proof fn joined_is_small(texts: Seq<Seq<char>>)
    requires
        forall|i: int| 0 <= i < texts.len() ==> #[trigger] without_capitals(texts[i]),
    ensures
        without_capitals(joined(texts, ':')),
    decreases texts.len(),
{
    if texts.len() > 1 {
        assert forall|i: int| 0 <= i < texts.len() - 1 implies #[trigger] without_capitals(
            texts.drop_last()[i],
        ) by {
            assert(without_capitals(texts[i]));
        }
        joined_is_small(texts.drop_last());
        assert(without_capitals(texts[texts.len() - 1]));
    } else if texts.len() == 1 {
        assert(without_capitals(texts[0]));
    }
}

}
