//! What names, titles, numbers and choices may be, and what they stand for.
use crate::auth::tokens::hex_text;
use crate::sites::validate::{
    expiry_choice, html_name, slug_char, valid_filename, valid_path, valid_segment, valid_slug,
    valid_title, Expiry,
};
use crate::text::{
    ascii_lower, decimal, decimal_value, digits_number, last_index, lower, plus_number, split,
    split_nonempty, split_single, trim_end, trim_start, trimmed, value,
};
use vstd::prelude::*;
use vstd::utf8::encode_utf8;

verus! {

/// A choice of so many hours or days lasts so many hours or days, in seconds.
/// One hour, one day, seven days and thirty days can be chosen, and no other
/// number of either.
pub proof fn durations_last_as_long_as_they_say(n: nat)
    ensures
        expiry_choice(decimal(n).push('h')) == if n == 1 {
            Some(Expiry::After((n * 60 * 60) as i64))
        } else {
            None
        },
        expiry_choice(decimal(n).push('d')) == if n == 1 || n == 7 || n == 30 {
            Some(Expiry::After((n * 24 * 60 * 60) as i64))
        } else {
            None
        },
{
    choice_texts();
    let hours = decimal(n).push('h');
    let days = decimal(n).push('d');
    decimal_value(n);
    assert(hours.drop_last() =~= decimal(n));
    assert(days.drop_last() =~= decimal(n));
    assert(hours.last() == 'h' && days.last() == 'd');
    reveal_with_fuel(decimal, 3);
    reveal_with_fuel(value, 4);
    if hours == "1h"@ {
        assert(decimal(n) =~= seq!['1']);
        assert(decimal(n).drop_last() =~= Seq::empty());
        assert(n == 1);
    }
    if days == "1d"@ {
        assert(decimal(n) =~= seq!['1']);
        assert(decimal(n).drop_last() =~= Seq::empty());
        assert(n == 1);
    }
    if days == "7d"@ {
        assert(decimal(n) =~= seq!['7']);
        assert(decimal(n).drop_last() =~= Seq::empty());
        assert(n == 7);
    }
    if days == "30d"@ {
        assert(decimal(n) =~= seq!['3', '0']);
        assert(decimal(n).drop_last() =~= seq!['3']);
        assert(decimal(n).drop_last().drop_last() =~= Seq::empty());
        assert(n == 30);
    }
    if n == 1 {
        assert(hours =~= "1h"@);
        assert(days =~= "1d"@);
    }
    if n == 7 {
        assert(days =~= "7d"@);
    }
    if n == 30 {
        assert(days =~= "30d"@);
    }
    assert(hours.len() >= 2 && days.len() >= 2);
    assert(is_digit_row(hours) && is_digit_row(days));
    assert("keep"@[0] == 'k' && "never"@[0] == 'n');
}

spec fn is_digit_row(s: Seq<char>) -> bool {
    '0' <= s[0] && s[0] <= '9'
}

proof fn choice_texts()
    ensures
        "keep"@ == seq!['k', 'e', 'e', 'p'],
        "never"@ == seq!['n', 'e', 'v', 'e', 'r'],
        ""@ == Seq::<char>::empty(),
        "1h"@ == seq!['1', 'h'],
        "1d"@ == seq!['1', 'd'],
        "7d"@ == seq!['7', 'd'],
        "30d"@ == seq!['3', '0', 'd'],
{
    reveal_strlit("keep");
    reveal_strlit("never");
    reveal_strlit("");
    reveal_strlit("1h");
    reveal_strlit("1d");
    reveal_strlit("7d");
    reveal_strlit("30d");
    assert("keep"@ =~= seq!['k', 'e', 'e', 'p']);
    assert("never"@ =~= seq!['n', 'e', 'v', 'e', 'r']);
    assert(""@ =~= Seq::<char>::empty());
    assert("1h"@ =~= seq!['1', 'h']);
    assert("1d"@ =~= seq!['1', 'd']);
    assert("7d"@ =~= seq!['7', 'd']);
    assert("30d"@ =~= seq!['3', '0', 'd']);
}

/// The choices without a duration: only `keep` keeps, and only nothing or
/// `never` means never. Whatever else is accepted is a duration that ends in
/// hours or days and is longer than nothing.
pub proof fn choices_without_a_duration(s: Seq<char>)
    ensures
        expiry_choice(s) == Some(Expiry::Keep) <==> s == seq!['k', 'e', 'e', 'p'],
        expiry_choice(s) == Some(Expiry::Never) <==> s.len() == 0 || s == seq![
            'n',
            'e',
            'v',
            'e',
            'r',
        ],
        expiry_choice(s) matches Some(Expiry::After(seconds)) ==> seconds > 0 && (s.last() == 'h'
            || s.last() == 'd'),
{
    choice_texts();
    if s.len() == 0 {
        assert(s =~= ""@);
    }
}

/// A title has at most two hundred characters and eight hundred bytes, on one
/// line; every such text is one, the empty one too.
pub proof fn titles_are_bounded_single_lines(s: Seq<char>)
    ensures
        valid_title(s) <==> s.len() <= 200 && encode_utf8(s).len() <= 800 && (forall|i: int|
            0 <= i < s.len() ==> {
                let c = #[trigger] s[i];
                c != '\0' && c != '\r' && c != '\n'
            }),
{
    if valid_title(s) {
        assert forall|i: int| 0 <= i < s.len() implies {
            let c = #[trigger] s[i];
            c != '\0' && c != '\r' && c != '\n'
        } by {
            assert(s.contains(s[i]));
        }
    }
}

/// A slug has three to sixty-four small letters, digits and hyphens, no hyphen
/// at its ends, and is none of the names that the server keeps; every such text
/// is one.
pub proof fn slugs_are_url_components(s: Seq<char>)
    ensures
        valid_slug(s) <==> {
            &&& 3 <= s.len() <= 64
            &&& s[0] != '-' && s[s.len() - 1] != '-'
            &&& forall|i: int|
                0 <= i < s.len() ==> {
                    let c = #[trigger] s[i];
                    ('a' <= c && c <= 'z') || ('0' <= c && c <= '9') || c == '-'
                }
            &&& s != seq!['a', 'p', 'i']
            &&& s != seq!['n', 'e', 'w']
            &&& s != seq!['l', 'o', 'g', 'i', 'n']
            &&& s != seq!['l', 'o', 'g', 'o', 'u', 't']
            &&& s != seq!['s', 't', 'a', 't', 'i', 'c']
            &&& s != seq!['h', 'e', 'a', 'l', 't', 'h']
        },
{
    reveal_strlit("api");
    reveal_strlit("static");
    reveal_strlit("login");
    reveal_strlit("logout");
    reveal_strlit("new");
    reveal_strlit("s");
    reveal_strlit("health");
    assert("api"@ =~= seq!['a', 'p', 'i']);
    assert("new"@ =~= seq!['n', 'e', 'w']);
    assert("login"@ =~= seq!['l', 'o', 'g', 'i', 'n']);
    assert("logout"@ =~= seq!['l', 'o', 'g', 'o', 'u', 't']);
    assert("static"@ =~= seq!['s', 't', 'a', 't', 'i', 'c']);
    assert("health"@ =~= seq!['h', 'e', 'a', 'l', 't', 'h']);
    assert("s"@.len() == 1);
    if valid_slug(s) {
        assert forall|i: int| 0 <= i < s.len() implies {
            let c = #[trigger] s[i];
            ('a' <= c && c <= 'z') || ('0' <= c && c <= '9') || c == '-'
        } by {
            assert(slug_char(s[i]));
        }
    }
}

/// A path is safe exactly where each of its parts is: joining two safe paths by
/// a slash makes a safe path, and nothing else does.
pub proof fn paths_are_safe_part_by_part(front: Seq<char>, back: Seq<char>)
    ensures
        valid_path(front + seq!['/'] + back) <==> valid_path(front) && valid_path(back),
{
    let whole = front + seq!['/'] + back;
    split_joined(front, back, '/');
    split_nonempty(front, '/');
    split_nonempty(back, '/');
    let a = split(front, '/');
    let b = split(back, '/');
    let all = split(whole, '/');
    assert forall|c: char| whole.contains(c) <==> front.contains(c) || c == '/' || back.contains(
        c,
    ) by {
        if front.contains(c) {
            let i = choose|i: int| 0 <= i < front.len() && front[i] == c;
            assert(whole[i] == c);
        }
        if back.contains(c) {
            let i = choose|i: int| 0 <= i < back.len() && back[i] == c;
            assert(whole[front.len() + 1 + i] == c);
        }
        assert(whole[front.len() as int] == '/');
    }
    if valid_path(whole) {
        assert forall|i: int| 0 <= i < a.len() implies valid_segment(#[trigger] a[i]) by {
            assert(all[i] == a[i]);
            assert(valid_segment(all[i]));
        }
        assert forall|i: int| 0 <= i < b.len() implies valid_segment(#[trigger] b[i]) by {
            assert(all[a.len() + i] == b[i]);
            assert(valid_segment(all[a.len() + i]));
        }
        empty_parts(front);
        empty_parts(back);
    }
    if valid_path(front) && valid_path(back) {
        assert forall|i: int| 0 <= i < all.len() implies valid_segment(#[trigger] all[i]) by {
            if i < a.len() {
                assert(valid_segment(a[i]));
            } else {
                assert(valid_segment(b[i - a.len()]));
            }
        }
    }
}

proof fn empty_parts(s: Seq<char>)
    ensures
        s.len() == 0 ==> split(s, '/')[0].len() == 0,
{
}

/// Splitting a joined text gives the parts of both.
proof fn split_joined(front: Seq<char>, back: Seq<char>, sep: char)
    ensures
        split(front + seq![sep] + back, sep) == split(front, sep) + split(back, sep),
    decreases back.len(),
{
    let whole = front + seq![sep] + back;
    split_nonempty(front, sep);
    split_nonempty(back, sep);
    if back.len() == 0 {
        assert(whole.drop_last() =~= front);
        assert(split(whole, sep) =~= split(front, sep) + split(back, sep));
    } else {
        let rest = back.drop_last();
        split_joined(front, rest, sep);
        split_nonempty(rest, sep);
        assert(whole.drop_last() =~= front + seq![sep] + rest);
        assert(whole.last() == back.last());
        assert(split(whole, sep) =~= split(front, sep) + split(back, sep));
    }
}

/// A single name is a safe path unless it is empty, names the directory itself
/// or the one above, names the unlock form, or holds a separator or a null; and
/// only a single name is a flat file name.
pub proof fn names_are_safe_paths(name: Seq<char>)
    requires
        !name.contains('/'),
    ensures
        valid_path(name) <==> {
            &&& name.len() > 0
            &&& name != seq!['.']
            &&& name != seq!['.', '.']
            &&& name != seq!['_', '_', 'u', 'n', 'l', 'o', 'c', 'k']
            &&& !name.contains('\\')
            &&& !name.contains('\0')
        },
        valid_filename(name) == valid_path(name),
        forall|other: Seq<char>| #[trigger] valid_filename(other) ==> !other.contains('/')
            && valid_path(other),
{
    reveal_strlit(".");
    reveal_strlit("..");
    reveal_strlit("__unlock");
    assert("."@ =~= seq!['.']);
    assert(".."@ =~= seq!['.', '.']);
    assert("__unlock"@ =~= seq!['_', '_', 'u', 'n', 'l', 'o', 'c', 'k']);
    split_single(name, '/');
    assert(split(name, '/')[0] == name);
}

/// The extension of a file decides whether it is HTML, in any case: `html` or
/// `htm` behind the last dot, and nothing else.
pub proof fn html_is_known_by_its_extension(stem: Seq<char>, extension: Seq<char>)
    requires
        !extension.contains('.'),
    ensures
        html_name(stem + seq!['.'] + extension) <==> lower(extension) == seq!['h', 't', 'm', 'l']
            || lower(extension) == seq!['h', 't', 'm'],
        !html_name(extension),
{
    reveal_strlit("html");
    reveal_strlit("htm");
    assert("html"@ =~= seq!['h', 't', 'm', 'l']);
    assert("htm"@ =~= seq!['h', 't', 'm']);
    let name = stem + seq!['.'] + extension;
    last_dot(stem, extension);
    assert(name.skip(stem.len() as int + 1) =~= extension);
    no_dot(extension);
}

proof fn last_dot(stem: Seq<char>, extension: Seq<char>)
    requires
        !extension.contains('.'),
    ensures
        last_index(stem + seq!['.'] + extension, '.') == stem.len(),
    decreases extension.len(),
{
    let name = stem + seq!['.'] + extension;
    if extension.len() == 0 {
        assert(name.last() == '.');
    } else {
        let rest = extension.drop_last();
        assert(extension.contains(extension.last()));
        assert forall|c: char| rest.contains(c) implies extension.contains(c) by {
            let i = choose|i: int| 0 <= i < rest.len() && rest[i] == c;
            assert(extension[i] == c);
        }
        last_dot(stem, rest);
        assert(name.drop_last() =~= stem + seq!['.'] + rest);
        assert(name.last() == extension.last());
    }
}

proof fn no_dot(s: Seq<char>)
    requires
        !s.contains('.'),
    ensures
        last_index(s, '.') == -1,
    decreases s.len(),
{
    if s.len() > 0 {
        let rest = s.drop_last();
        assert(s.contains(s.last()));
        assert forall|c: char| rest.contains(c) implies s.contains(c) by {
            let i = choose|i: int| 0 <= i < rest.len() && rest[i] == c;
            assert(s[i] == c);
        }
        no_dot(rest);
    }
}

/// Capitals of the alphabet become the small letters of the same place, and
/// every other character stays.
pub proof fn small_letters(c: char)
    ensures
        'A' <= c && c <= 'Z' ==> 'a' <= ascii_lower(c) && ascii_lower(c) <= 'z' && ascii_lower(
            c,
        ) as int - 'a' as int == c as int - 'A' as int,
        c < 'A' || 'Z' < c ==> ascii_lower(c) == c,
        ascii_lower(ascii_lower(c)) == ascii_lower(c),
{
}

/// Decimal notation has ten digits: one more digit behind a number is ten times
/// the number and that digit.
pub proof fn numbers_are_decimal(n: nat, d: nat)
    requires
        d < 10,
    ensures
        decimal(d) == seq![(48 + d) as char],
        n > 0 ==> decimal(10 * n + d) == decimal(n).push((48 + d) as char),
        value(decimal(n).push((48 + d) as char)) == 10 * n + d,
{
    decimal_value(n);
    let more = decimal(n).push((48 + d) as char);
    assert(more.drop_last() =~= decimal(n));
    if n > 0 {
        assert((10 * n + d) / 10 == n && (10 * n + d) % 10 == d);
    }
}

/// A number is read from the decimal notation of it up to its bound, with or
/// without a plus sign where one may stand, and from nothing that holds
/// anything but digits.
pub proof fn numbers_are_read_from_digits(n: nat, max: nat, s: Seq<char>)
    ensures
        digits_number(decimal(n), max) == if n <= max {
            Some(n)
        } else {
            None
        },
        plus_number(decimal(n), max) == digits_number(decimal(n), max),
        plus_number(seq!['+'] + decimal(n), max) == digits_number(decimal(n), max),
        digits_number(s, max) is Some ==> s.len() > 0 && (forall|i: int|
            0 <= i < s.len() ==> '0' <= #[trigger] s[i] && s[i] <= '9'),
{
    decimal_value(n);
    assert((seq!['+'] + decimal(n)).skip(1) =~= decimal(n));
    assert(crate::text::is_digit(decimal(n)[0]));
    if digits_number(s, max) is Some {
        assert forall|i: int| 0 <= i < s.len() implies '0' <= #[trigger] s[i] && s[i] <= '9' by {
            assert(crate::text::is_digit(s[i]));
        }
    }
}

/// Trimming takes white space off both ends and nothing else: what is left
/// neither begins nor ends with any, and stands in the text as it was.
pub proof fn trimming_keeps_the_inside(s: Seq<char>)
    ensures
        exists|from: int, to: int|
            0 <= from <= to <= s.len() && trimmed(s) == #[trigger] s.subrange(from, to),
        trimmed(s).len() > 0 ==> trimmed(s)[0] != ' ' && trimmed(s)[0] != '\t' && trimmed(
            s,
        ).last() != ' ' && trimmed(s).last() != '\t',
        s.len() > 0 && s[0] > ' ' && s[0] < '\u{7f}' && s.last() > ' ' && s.last() < '\u{7f}'
            ==> trimmed(s) == s,
        trim_start(seq![' '] + s) == trim_start(s),
        trim_end(s.push(' ')) == trim_end(s),
{
    let front = trim_start(s);
    let from = trimmed_front(s);
    let length = trimmed_back(front);
    assert(trimmed(s) =~= s.subrange(from, from + length));
    assert((seq![' '] + s).skip(1) =~= s);
    assert(s.push(' ').drop_last() =~= s);
}

proof fn trimmed_front(s: Seq<char>) -> (from: int)
    ensures
        0 <= from <= s.len(),
        trim_start(s) == s.skip(from),
        trim_start(s).len() > 0 ==> !crate::text::is_white(trim_start(s)[0]),
    decreases s.len(),
{
    if s.len() > 0 && crate::text::is_white(s[0]) {
        let rest = trimmed_front(s.skip(1));
        assert(s.skip(1).skip(rest) =~= s.skip(rest + 1));
        rest + 1
    } else {
        assert(s.skip(0) =~= s);
        0
    }
}

proof fn trimmed_back(s: Seq<char>) -> (length: int)
    ensures
        0 <= length <= s.len(),
        trim_end(s) == s.take(length),
        trim_end(s).len() > 0 ==> !crate::text::is_white(trim_end(s).last()),
    decreases s.len(),
{
    if s.len() > 0 && crate::text::is_white(s.last()) {
        let length = trimmed_back(s.drop_last());
        assert(s.drop_last().take(length) =~= s.take(length));
        length
    } else {
        assert(s.take(s.len() as int) =~= s);
        s.len() as int
    }
}

/// A byte is written as its two hexadecimal digits in small letters, the higher
/// one first, and bytes one after the other.
pub proof fn bytes_are_written_in_hexadecimal(bytes: Seq<u8>, byte: u8)
    ensures
        hex_text(bytes.push(byte)) == hex_text(bytes) + seq![
            sixteen()[byte as int / 16],
            sixteen()[byte as int % 16],
        ],
        hex_text(Seq::empty()) == Seq::<char>::empty(),
{
    assert(bytes.push(byte).drop_last() =~= bytes);
}

/// The hexadecimal digits in their order.
pub open spec fn sixteen() -> Seq<char> {
    seq!['0', '1', '2', '3', '4', '5', '6', '7', '8', '9', 'a', 'b', 'c', 'd', 'e', 'f']
}

/// The characters of the Unicode property White_Space, by their numbers.
pub open spec fn white_numbers() -> Seq<int> {
    seq![
        9,
        10,
        11,
        12,
        13,
        32,
        133,
        160,
        5760,
        8192,
        8193,
        8194,
        8195,
        8196,
        8197,
        8198,
        8199,
        8200,
        8201,
        8202,
        8232,
        8233,
        8239,
        8287,
        12288,
    ]
}

/// White space is what Unicode says it is.
pub proof fn white_space_is_known_by_number(c: char)
    ensures
        crate::text::is_white(c) <==> exists|i: int|
            0 <= i < 25 && #[trigger] white_numbers()[i] == c as int,
{
    let n = c as int;
    let w = white_numbers();
    assert(w[0] == 9 && w[1] == 10 && w[2] == 11 && w[3] == 12 && w[4] == 13 && w[5] == 32 && w[6]
        == 133 && w[7] == 160 && w[8] == 5760);
    assert(w[9] == 8192 && w[10] == 8193 && w[11] == 8194 && w[12] == 8195 && w[13] == 8196 && w[14]
        == 8197 && w[15] == 8198 && w[16] == 8199 && w[17] == 8200 && w[18] == 8201 && w[19]
        == 8202);
    assert(w[20] == 8232 && w[21] == 8233 && w[22] == 8239 && w[23] == 8287 && w[24] == 12288);
}

/// Parts that are joined with their separator are the text again, and no part
/// holds a separator: so a text is taken apart in one way.
pub proof fn parts_make_up_the_text(text: Seq<char>, sep: char, i: int)
    ensures
        crate::ip::joined(crate::text::split(text, sep), sep) == text,
        0 <= i < crate::text::split(text, sep).len() ==> !crate::text::split(text, sep)[i].contains(
            sep,
        ),
    decreases text.len(),
{
    crate::text::split_nonempty(text, sep);
    if text.len() == 0 {
        assert(text =~= Seq::empty());
    } else {
        let front = text.drop_last();
        let parts = crate::text::split(front, sep);
        crate::text::split_nonempty(front, sep);
        parts_make_up_the_text(front, sep, i);
        parts_make_up_the_text(front, sep, parts.len() - 1);
        assert(front.push(text.last()) =~= text);
        let all = crate::text::split(text, sep);
        if text.last() == sep {
            assert(all.drop_last() =~= parts);
            assert(crate::ip::joined(all, sep) =~= text);
        } else {
            assert(all.drop_last() =~= parts.drop_last());
            assert(all.last() == parts.last().push(text.last()));
            if parts.len() > 1 {
                assert(crate::ip::joined(parts, sep) == crate::ip::joined(parts.drop_last(), sep)
                    + seq![sep] + parts.last());
                assert(crate::ip::joined(all, sep) =~= text);
            } else {
                assert(parts[0] == front);
                assert(crate::ip::joined(all, sep) =~= text);
            }
            if i == all.len() - 1 {
                let last = parts.last().push(text.last());
                if last.contains(sep) {
                    let k = choose|k: int| 0 <= k < last.len() && last[k] == sep;
                    assert(parts.last()[k] == sep);
                }
            }
        }
    }
}

}
