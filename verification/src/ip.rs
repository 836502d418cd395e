//! Internet addresses: four octets or eight 16-bit segments.
use crate::text::{
    decimal, decimal_value, is_digit,
    number_of, push_decimal, split, split_cons, split_nonempty, split_on, split_single,
    value_decimal, views,
};
use vstd::prelude::*;

verus! {

/// Four octets or eight segments.
pub open spec fn valid_address(parts: Seq<u16>) -> bool {
    ||| parts.len() == 4 && (forall|i: int| 0 <= i < 4 ==> #[trigger] parts[i] < 256)
    ||| parts.len() == 8
}

/// An internet address of either version.
#[derive(Debug)]
pub struct IpAddr {
    parts: Vec<u16>,
}

impl IpAddr {
    #[verifier::type_invariant]
    spec fn well_formed(self) -> bool {
        valid_address(self.parts@)
    }

    /// The octets of a version 4 address, or the segments of a version 6 address.
    pub closed spec fn view(&self) -> Seq<u16> {
        self.parts@
    }

    /// A version 4 address of four octets.
    pub fn v4(a: u8, b: u8, c: u8, d: u8) -> (r: Self)
        ensures
            r@ == seq![a as u16, b as u16, c as u16, d as u16],
    {
        let mut parts: Vec<u16> = Vec::new();
        parts.push(a as u16);
        parts.push(b as u16);
        parts.push(c as u16);
        parts.push(d as u16);
        assert(parts@ =~= seq![a as u16, b as u16, c as u16, d as u16]);
        IpAddr { parts }
    }

    /// A version 6 address of eight segments.
    pub fn v6(segments: [u16; 8]) -> (r: Self)
        ensures
            r@ == segments@,
    {
        let mut parts: Vec<u16> = Vec::new();
        let mut i: usize = 0;
        while i < 8
            invariant
                i <= 8,
                parts@ == segments@.take(i as int),
            decreases 8 - i,
        {
            parts.push(segments[i]);
            i = i + 1;
        }
        IpAddr { parts }
    }

    /// An address of four octets or eight segments.
    pub fn from_parts(parts: Vec<u16>) -> (r: Self)
        requires
            valid_address(parts@),
        ensures
            r@ == parts@,
    {
        IpAddr { parts }
    }

    /// The octets or segments.
    pub fn parts(&self) -> (r: &[u16])
        ensures
            r@ == self@,
            valid_address(r@),
    {
        proof {
            use_type_invariant(self);
        }
        self.parts.as_slice()
    }

    /// An equal address.
    pub fn copy(&self) -> (r: Self)
        ensures
            r@ == self@,
    {
        proof {
            use_type_invariant(self);
        }
        let mut parts: Vec<u16> = Vec::new();
        let mut i: usize = 0;
        while i < self.parts.len()
            invariant
                i <= self.parts@.len(),
                parts@ == self.parts@.take(i as int),
            decreases self.parts@.len() - i,
        {
            parts.push(self.parts[i]);
            i = i + 1;
        }
        assert(parts@ =~= self.parts@);
        IpAddr { parts }
    }

    /// Whether two addresses are equal.
    pub fn same(&self, other: &IpAddr) -> (r: bool)
        ensures
            r == (self@ == other@),
    {
        if self.parts.len() != other.parts.len() {
            return false;
        }
        let mut i: usize = 0;
        while i < self.parts.len()
            invariant
                i <= self.parts@.len(),
                self.parts@.len() == other.parts@.len(),
                forall|j: int| 0 <= j < i ==> self.parts@[j] == other.parts@[j],
            decreases self.parts@.len() - i,
        {
            if self.parts[i] != other.parts[i] {
                return false;
            }
            i = i + 1;
        }
        assert(self@ =~= other@);
        true
    }
}

/// Four octets.
pub open spec fn octets(parts: Seq<u16>) -> bool {
    parts.len() == 4 && valid_address(parts)
}

/// Four octets in dotted decimal notation.
pub open spec fn v4_text(parts: Seq<u16>) -> Seq<char> {
    decimal(parts[0] as nat) + seq!['.'] + (decimal(parts[1] as nat) + seq!['.'] + (decimal(
        parts[2] as nat,
    ) + seq!['.'] + decimal(parts[3] as nat)))
}

/// A decimal number holds no dot.
proof fn decimal_plain(n: nat, c: char)
    requires
        !is_digit(c),
    ensures
        !decimal(n).contains(c),
{
    decimal_value(n);
    if decimal(n).contains(c) {
        let i = choose|i: int| 0 <= i < decimal(n).len() && decimal(n)[i] == c;
        assert(is_digit(decimal(n)[i]));
    }
}

/// The parts of a dotted text between its dots.
pub proof fn v4_text_split(parts: Seq<u16>)
    requires
        octets(parts),
    ensures
        split(v4_text(parts), '.') == seq![
            decimal(parts[0] as nat),
            decimal(parts[1] as nat),
            decimal(parts[2] as nat),
            decimal(parts[3] as nat),
        ],
{
    let a = decimal(parts[0] as nat);
    let b = decimal(parts[1] as nat);
    let c = decimal(parts[2] as nat);
    let d = decimal(parts[3] as nat);
    decimal_plain(parts[0] as nat, '.');
    decimal_plain(parts[1] as nat, '.');
    decimal_plain(parts[2] as nat, '.');
    decimal_plain(parts[3] as nat, '.');
    split_single(d, '.');
    split_cons(c, d, '.');
    split_cons(b, c + seq!['.'] + d, '.');
    split_cons(a, b + seq!['.'] + (c + seq!['.'] + d), '.');
    assert(split(v4_text(parts), '.') =~= seq![a, b, c, d]);
}

/// The number of one octet, where the text is its decimal notation.
fn octet(s: &[char]) -> (r: Option<u16>)
    ensures
        match r {
            Some(n) => n < 256 && s@ == decimal(n as nat),
            None => forall|n: nat| n < 256 ==> s@ != #[trigger] decimal(n),
        },
{
    match number_of(s, 255) {
        Some(n) => {
            if s.len() > 1 && s[0] == '0' {
                proof {
                    assert forall|m: nat| m < 256 implies s@ != #[trigger] decimal(m) by {
                        decimal_value(m);
                        assert(decimal(0).len() == 1);
                    }
                }
                return None;
            }
            proof {
                if s@[0] == '0' {
                    assert(s@ =~= decimal(0));
                    decimal_value(0);
                } else {
                    value_decimal(s@);
                }
            }
            Some(n as u16)
        },
        None => {
            proof {
                assert forall|m: nat| m < 256 implies s@ != #[trigger] decimal(m) by {
                    decimal_value(m);
                }
            }
            None
        },
    }
}

/// Joining the parts of a text gives it back.
proof fn split_joins(s: Seq<char>, sep: char)
    ensures
        split(s, sep).len() > 0,
        s == joined(split(s, sep), sep),
    decreases s.len(),
{
    split_nonempty(s, sep);
    if s.len() == 0 {
        assert(split(s, sep) =~= seq![Seq::empty()]);
        reveal_with_fuel(joined, 2);
        assert(s =~= joined(split(s, sep), sep));
    } else {
        let front = s.drop_last();
        split_joins(front, sep);
        let parts = split(front, sep);
        if s.last() == sep {
            assert(parts.push(Seq::empty()).drop_last() =~= parts);
            assert(s =~= joined(parts.push(Seq::empty()), sep));
        } else {
            let grown = parts.drop_last().push(parts.last().push(s.last()));
            assert(s =~= front.push(s.last()));
            if parts.len() == 1 {
                assert(grown[0] == parts[0].push(s.last()));
            } else {
                assert(grown.drop_last() =~= parts.drop_last());
                assert(joined(grown, sep) == joined(parts.drop_last(), sep) + seq![sep]
                    + parts.last().push(s.last()));
            }
            assert(s =~= joined(grown, sep));
        }
    }
}

/// Texts with a separator between each two of them.
pub open spec fn joined(parts: Seq<Seq<char>>, sep: char) -> Seq<char>
    decreases parts.len(),
{
    if parts.len() == 0 {
        Seq::empty()
    } else if parts.len() == 1 {
        parts[0]
    } else {
        joined(parts.drop_last(), sep) + seq![sep] + parts.last()
    }
}

proof fn joined_four(parts: Seq<Seq<char>>, sep: char)
    requires
        parts.len() == 4,
    ensures
        joined(parts, sep) == parts[0] + seq![sep] + (parts[1] + seq![sep] + (parts[2] + seq![sep]
            + parts[3])),
{
    reveal_with_fuel(joined, 4);
    let three = parts.drop_last();
    let two = three.drop_last();
    let one = two.drop_last();
    assert(three[0] == parts[0] && three[1] == parts[1] && three[2] == parts[2]);
    assert(joined(one, sep) == parts[0]);
    assert(joined(two, sep) =~= parts[0] + seq![sep] + parts[1]);
    assert(joined(three, sep) =~= parts[0] + seq![sep] + parts[1] + seq![sep] + parts[2]);
    assert(joined(parts, sep) =~= parts[0] + seq![sep] + (parts[1] + seq![sep] + (parts[2]
        + seq![sep] + parts[3])));
}

/// Reads four octets in dotted decimal notation, each without leading zeros.
pub fn parse_v4(s: &[char]) -> (r: Option<Vec<u16>>)
    ensures
        match r {
            Some(parts) => octets(parts@) && s@ == v4_text(parts@),
            None => forall|parts: Seq<u16>| octets(parts) ==> s@ != #[trigger] v4_text(parts),
        },
{
    let pieces: Vec<Vec<char>> = split_on(s, '.');
    proof {
        split_joins(s@, '.');
        assert forall|parts: Seq<u16>| octets(parts) && s@ == #[trigger] v4_text(
            parts,
        ) implies split(s@, '.') == seq![
            decimal(parts[0] as nat),
            decimal(parts[1] as nat),
            decimal(parts[2] as nat),
            decimal(parts[3] as nat),
        ] by {
            v4_text_split(parts);
        }
    }
    if pieces.len() != 4 {
        assert(split(s@, '.').len() != 4);
        return None;
    }
    let mut parts: Vec<u16> = Vec::new();
    let mut i: usize = 0;
    while i < 4
        invariant
            i <= 4,
            pieces@.len() == 4,
            views(pieces@) == split(s@, '.'),
            parts@.len() == i,
            forall|j: int|
                0 <= j < i ==> #[trigger] parts@[j] < 256 && split(s@, '.')[j] == decimal(
                    parts@[j] as nat,
                ),
            forall|p: Seq<u16>|
                octets(p) && s@ == #[trigger] v4_text(p) ==> split(s@, '.') == seq![
                    decimal(p[0] as nat),
                    decimal(p[1] as nat),
                    decimal(p[2] as nat),
                    decimal(p[3] as nat),
                ],
        decreases 4 - i,
    {
        assert(split(s@, '.')[i as int] == pieces@[i as int]@);
        match octet(pieces[i].as_slice()) {
            Some(n) => {
                parts.push(n);
            },
            None => {
                proof {
                    assert forall|p: Seq<u16>| octets(p) implies s@ != #[trigger] v4_text(p) by {
                        if s@ == v4_text(p) {
                            assert(split(s@, '.')[i as int] == decimal(p[i as int] as nat));
                        }
                    }
                }
                return None;
            },
        }
        i = i + 1;
    }
    proof {
        joined_four(split(s@, '.'), '.');
        assert(parts@[0] < 256 && parts@[1] < 256 && parts@[2] < 256 && parts@[3] < 256);
    }
    Some(parts)
}

/// Appends four octets in dotted decimal notation.
pub fn push_v4(out: &mut String, parts: &[u16])
    requires
        parts@.len() == 4,
    ensures
        final(out)@ == old(out)@ + v4_text(parts@),
{
    push_decimal(out, parts[0] as u64);
    out.push('.');
    push_decimal(out, parts[1] as u64);
    out.push('.');
    push_decimal(out, parts[2] as u64);
    out.push('.');
    push_decimal(out, parts[3] as u64);
    assert(out@ =~= old(out)@ + v4_text(parts@));
}

}
