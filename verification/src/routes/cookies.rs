//! Signed cookies without aliases or duplicates.
use crate::auth::MASTER_KEY_BYTES;
use crate::error::AppError;
use crate::routes::{header_chars, header_text, header_views, invalid, invalid_form};
use crate::text::{chars_of, same, split, split_on, string_of, views};
use axum::http::header::COOKIE;
use axum::http::{HeaderMap, HeaderValue};
use axum_extra::extract::cookie::{Cookie, CookieJar, Key, SignedCookieJar};
use vstd::prelude::*;

verus! {

/// The bytes of a cookie signing key.
pub const COOKIE_KEY_BYTES: usize = 64;

/// The name that `Cookie::parse_encoded` reads from one part of a cookie
/// header, after percent decoding.
pub uninterp spec fn decoded_name(part: Seq<char>) -> Option<Seq<char>>;

/// The name that `Cookie::parse` reads from one part of a cookie header, as it
/// is written.
pub uninterp spec fn literal_name(part: Seq<char>) -> Option<Seq<char>>;

/// The value of a cookie whose signature `SignedCookieJar` verifies.
pub uninterp spec fn signed_value(
    headers: Seq<Seq<u8>>,
    key: Seq<u8>,
    name: Seq<char>,
) -> Option<Seq<char>>;

/// The value of a cookie in a plain `CookieJar`.
pub uninterp spec fn plain_value(headers: Seq<Seq<u8>>, name: Seq<char>) -> Option<Seq<char>>;

/// The 64 bytes that `Key::derive_from` makes of a master key.
pub uninterp spec fn derived_key(master: Seq<u8>) -> Seq<u8>;

/// `Cookie::parse_encoded` reads a cookie and percent-decodes its name, which
/// depends on the text alone.
#[verifier::external_body]
fn read_decoded_name(part: &str) -> (r: Option<String>)
    ensures
        (match r {
            Some(name) => Some(name@),
            None => None,
        }) == decoded_name(part@),
{
    Cookie::parse_encoded(part).ok().map(|cookie| cookie.name().to_owned())
}

/// `Cookie::parse` reads a cookie as it is written, which depends on the text alone.
#[verifier::external_body]
fn read_literal_name(part: &str) -> (r: Option<String>)
    ensures
        (match r {
            Some(name) => Some(name@),
            None => None,
        }) == literal_name(part@),
{
    Cookie::parse(part).ok().map(|cookie| cookie.name().to_owned())
}

/// `SignedCookieJar::from_headers` keeps the cookies whose signature under the
/// key is right, and `SignedCookieJar::get` gives the value of one of them;
/// that depends on the headers, the key and the name alone.
#[verifier::external_body]
fn read_signed(headers: &Vec<Vec<u8>>, key: &[u8], name: &str) -> (r: Option<String>)
    requires
        key@.len() == COOKIE_KEY_BYTES,
    ensures
        (match r {
            Some(value) => Some(value@),
            None => None,
        }) == signed_value(header_views(headers@), key@, name@),
{
    let mut map = HeaderMap::new();
    for bytes in headers {
        map.append(COOKIE, HeaderValue::from_bytes(bytes).ok()?);
    }
    let jar = SignedCookieJar::from_headers(&map, Key::from(key));
    jar.get(name).map(|cookie| cookie.value().to_owned())
}

/// `CookieJar::from_headers` keeps all cookies, and `CookieJar::get` gives the
/// value of one of them; that depends on the headers and the name alone.
#[verifier::external_body]
fn read_plain(headers: &Vec<Vec<u8>>, name: &str) -> (r: Option<String>)
    ensures
        (match r {
            Some(value) => Some(value@),
            None => None,
        }) == plain_value(header_views(headers@), name@),
{
    let mut map = HeaderMap::new();
    for bytes in headers {
        map.append(COOKIE, HeaderValue::from_bytes(bytes).ok()?);
    }
    CookieJar::from_headers(&map).get(name).map(|cookie| cookie.value().to_owned())
}

/// `Key::derive_from` stretches a master key of at least 32 bytes, and
/// `Key::master` gives the bytes, which depend on the master key alone.
#[verifier::external_body]
fn derive(master: &[u8]) -> (r: Vec<u8>)
    requires
        master@.len() >= MASTER_KEY_BYTES,
    ensures
        r@ == derived_key(master@),
        r@.len() == COOKIE_KEY_BYTES,
{
    Key::derive_from(master).master().to_vec()
}

/// The signing key of a master key.
pub struct CookieKey {
    bytes: Vec<u8>,
}

impl CookieKey {
    #[verifier::type_invariant]
    spec fn well_formed(self) -> bool {
        self.bytes@.len() == COOKIE_KEY_BYTES
    }

    /// The bytes of the key.
    pub closed spec fn view(&self) -> Seq<u8> {
        self.bytes@
    }

    /// Derives the signing key from a master key.
    pub fn derive_from(master: &[u8]) -> (r: Self)
        requires
            master@.len() >= MASTER_KEY_BYTES,
        ensures
            r@ == derived_key(master@),
    {
        CookieKey { bytes: derive(master) }
    }

    /// The bytes of the key, for signing.
    pub fn bytes(&self) -> (r: &[u8])
        ensures
            r@ == self@,
            r@.len() == COOKIE_KEY_BYTES,
    {
        proof {
            use_type_invariant(self);
        }
        self.bytes.as_slice()
    }
}

/// The parts of the first cookie headers, where all of these are text.
pub open spec fn cookie_parts(headers: Seq<Seq<u8>>) -> Option<Seq<Seq<char>>>
    decreases headers.len(),
{
    if headers.len() == 0 {
        Some(Seq::empty())
    } else {
        match (cookie_parts(headers.drop_last()), header_chars(headers.last())) {
            (Some(front), Some(text)) => Some(front + split(text, ';')),
            _ => None,
        }
    }
}

/// The protected name that a part decodes to.
pub open spec fn protected_name(part: Seq<char>, names: Seq<Seq<char>>) -> Option<Seq<char>> {
    match decoded_name(part) {
        Some(name) if names.contains(name) => Some(name),
        _ => None,
    }
}

/// Every part that decodes to a protected name spells it out, and none of these
/// names occurs twice.
pub open spec fn unambiguous(parts: Seq<Seq<char>>, names: Seq<Seq<char>>) -> bool {
    &&& forall|i: int|
        0 <= i < parts.len() && protected_name(#[trigger] parts[i], names) is Some ==> literal_name(
            parts[i],
        ) == protected_name(parts[i], names)
    &&& forall|i: int, j: int|
        0 <= i < j < parts.len() && protected_name(#[trigger] parts[i], names) is Some
            ==> protected_name(#[trigger] parts[j], names) != protected_name(parts[i], names)
}

/// Cookie headers that are text and unambiguous about the protected names.
pub open spec fn cookies_allowed(headers: Seq<Seq<u8>>, names: Seq<Seq<char>>) -> bool {
    cookie_parts(headers) matches Some(parts) && unambiguous(parts, names)
}

/// The texts of a list of string slices.
pub open spec fn name_views(names: Seq<&str>) -> Seq<Seq<char>> {
    Seq::new(names.len(), |i: int| names[i]@)
}

/// The position of a name among the protected names.
fn position(names: &[&str], name: &str) -> (r: Option<usize>)
    ensures
        match r {
            Some(i) => i < names@.len() && name_views(names@)[i as int] == name@ && name_views(
                names@,
            ).contains(name@),
            None => !name_views(names@).contains(name@),
        },
{
    let mut i: usize = 0;
    while i < names.len()
        invariant
            i <= names@.len(),
            forall|j: int| 0 <= j < i ==> #[trigger] name_views(names@)[j] != name@,
        decreases names@.len() - i,
    {
        if same(names[i], name) {
            assert(name_views(names@)[i as int] == name@);
            return Some(i);
        }
        i = i + 1;
    }
    None
}

/// All parts of all cookie headers, where these are text.
fn all_parts(headers: &Vec<Vec<u8>>) -> (r: Option<Vec<Vec<char>>>)
    ensures
        (match r {
            Some(parts) => Some(views(parts@)),
            None => None,
        }) == cookie_parts(header_views(headers@)),
{
    let ghost all = header_views(headers@);
    let mut parts: Vec<Vec<char>> = Vec::new();
    let mut i: usize = 0;
    assert(views(parts@) =~= Seq::empty());
    while i < headers.len()
        invariant
            i <= headers@.len(),
            all == header_views(headers@),
            cookie_parts(all.take(i as int)) == Some(views(parts@)),
        decreases headers@.len() - i,
    {
        assert(all.take(i + 1).drop_last() =~= all.take(i as int));
        assert(all[i as int] == headers@[i as int]@);
        let ghost before = views(parts@);
        match header_text(headers[i].as_slice()) {
            None => {
                proof {
                    cookie_parts_fail(all, i + 1);
                }
                return None;
            },
            Some(text) => {
                let chars: Vec<char> = chars_of(text.as_str());
                let mut more: Vec<Vec<char>> = split_on(chars.as_slice(), ';');
                let ghost added = views(more@);
                parts.append(&mut more);
                assert(views(parts@) =~= before + added);
            },
        }
        i = i + 1;
    }
    assert(all.take(i as int) =~= all);
    Some(parts)
}

proof fn cookie_parts_fail(headers: Seq<Seq<u8>>, n: int)
    requires
        0 <= n <= headers.len(),
        cookie_parts(headers.take(n)) is None,
    ensures
        cookie_parts(headers) is None,
    decreases headers.len() - n,
{
    if n == headers.len() {
        assert(headers.take(n) =~= headers);
    } else {
        assert(headers.take(n + 1).drop_last() =~= headers.take(n));
        cookie_parts_fail(headers, n + 1);
    }
}

/// Rejects ambiguous protected cookie names. Unrelated cookies do not matter,
/// and percent decoding must not manufacture a browser-enforced prefix.
pub fn check_cookies(headers: &Vec<Vec<u8>>, names: &[&str]) -> (r: Result<(), AppError>)
    ensures
        match r {
            Ok(_) => cookies_allowed(header_views(headers@), name_views(names@)),
            Err(error) => !cookies_allowed(header_views(headers@), name_views(names@)) && error
                == invalid_form(),
        },
{
    let ghost protected = name_views(names@);
    let parts: Vec<Vec<char>> = match all_parts(headers) {
        Some(parts) => parts,
        None => {
            return Err(invalid());
        },
    };
    let ghost texts = views(parts@);
    let mut seen: Vec<String> = Vec::new();
    let mut i: usize = 0;
    while i < parts.len()
        invariant
            i <= parts@.len(),
            texts == views(parts@),
            protected == name_views(names@),
            cookie_parts(header_views(headers@)) == Some(texts),
            forall|j: int|
                0 <= j < i && protected_name(#[trigger] texts[j], protected) is Some
                    ==> literal_name(texts[j]) == protected_name(texts[j], protected),
            forall|j: int, k: int|
                0 <= j < k < i && protected_name(#[trigger] texts[j], protected) is Some
                    ==> protected_name(#[trigger] texts[k], protected) != protected_name(
                    texts[j],
                    protected,
                ),
            forall|j: int|
                0 <= j < i && protected_name(#[trigger] texts[j], protected) is Some ==> exists|
                    k: int,
                |
                    0 <= k < seen@.len() && Some((#[trigger] seen@[k])@) == protected_name(
                        texts[j],
                        protected,
                    ),
            forall|k: int|
                0 <= k < seen@.len() ==> exists|j: int|
                    0 <= j < i && protected_name(#[trigger] texts[j], protected) == Some(
                        (#[trigger] seen@[k])@,
                    ),
        decreases parts@.len() - i,
    {
        assert(texts[i as int] == parts@[i as int]@);
        let part: String = string_of(parts[i].as_slice());
        let decoded: Option<String> = read_decoded_name(part.as_str());
        let mut found: Option<String> = None;
        match decoded {
            Some(name) => {
                if position(names, name.as_str()).is_some() {
                    found = Some(name);
                }
            },
            None => {},
        }
        assert((match found {
            Some(name) => Some(name@),
            None => None,
        }) == protected_name(texts[i as int], protected));
        match found {
            None => {},
            Some(name) => {
                let literal: bool = match read_literal_name(part.as_str()) {
                    Some(written) => same(written.as_str(), name.as_str()),
                    None => false,
                };
                if !literal {
                    assert(!unambiguous(texts, protected)) by {
                        assert(protected_name(texts[i as int], protected) is Some);
                    }
                    return Err(invalid());
                }
                if already(&seen, name.as_str()) {
                    proof {
                        let k = choose|k: int| 0 <= k < seen@.len() && (#[trigger] seen@[k])@ == name@;
                        let j = choose|j: int|
                            0 <= j < i && protected_name(#[trigger] texts[j], protected) == Some(
                                seen@[k]@,
                            );
                        assert(protected_name(texts[j], protected) == protected_name(
                            texts[i as int],
                            protected,
                        ));
                        assert(!unambiguous(texts, protected));
                    }
                    return Err(invalid());
                }
                let ghost before = seen@;
                let ghost added = name@;
                seen.push(name);
                proof {
                    assert forall|j: int|
                        0 <= j < i + 1 && protected_name(
                            #[trigger] texts[j],
                            protected,
                        ) is Some implies exists|k: int|
                        0 <= k < seen@.len() && Some((#[trigger] seen@[k])@) == protected_name(
                            texts[j],
                            protected,
                        ) by {
                        if j < i {
                            let k = choose|k: int|
                                0 <= k < before.len() && Some((#[trigger] before[k])@)
                                    == protected_name(texts[j], protected);
                            assert(seen@[k] == before[k]);
                        } else {
                            assert(seen@[seen@.len() - 1]@ == added);
                        }
                    }
                    assert forall|k: int| 0 <= k < seen@.len() implies exists|j: int|
                        0 <= j < i + 1 && protected_name(#[trigger] texts[j], protected) == Some(
                            (#[trigger] seen@[k])@,
                        ) by {
                        if k < before.len() {
                            assert(seen@[k] == before[k]);
                            let j = choose|j: int|
                                0 <= j < i && protected_name(#[trigger] texts[j], protected)
                                    == Some(before[k]@);
                            assert(protected_name(texts[j], protected) == Some(seen@[k]@));
                        } else {
                            assert(protected_name(texts[i as int], protected) == Some(seen@[k]@));
                        }
                    }
                    assert forall|j: int, k: int|
                        0 <= j < k < i + 1 && protected_name(
                            #[trigger] texts[j],
                            protected,
                        ) is Some implies protected_name(#[trigger] texts[k], protected)
                        != protected_name(texts[j], protected) by {
                        if k == i {
                            let m = choose|m: int|
                                0 <= m < before.len() && Some((#[trigger] before[m])@)
                                    == protected_name(texts[j], protected);
                            assert(before[m]@ != added);
                        }
                    }
                }
            },
        }
        i = i + 1;
    }
    Ok(())
}

/// Whether a name was seen before.
fn already(seen: &Vec<String>, name: &str) -> (r: bool)
    ensures
        r == exists|k: int| 0 <= k < seen@.len() && (#[trigger] seen@[k])@ == name@,
{
    let mut i: usize = 0;
    while i < seen.len()
        invariant
            i <= seen@.len(),
            forall|j: int| 0 <= j < i ==> (#[trigger] seen@[j])@ != name@,
        decreases seen@.len() - i,
    {
        if same(seen[i].as_str(), name) {
            assert(seen@[i as int]@ == name@);
            return true;
        }
        i = i + 1;
    }
    false
}

/// The signature-verified value of a protected cookie, after ambiguous headers
/// are rejected.
pub fn signed(headers: &Vec<Vec<u8>>, key: &CookieKey, names: &[&str], wanted: &str) -> (r: Result<
    Option<String>,
    AppError,
>)
    ensures
        match r {
            Ok(value) => {
                &&& cookies_allowed(header_views(headers@), name_views(names@))
                &&& crate::sites::new_site::optional_text(value) == signed_value(
                    header_views(headers@),
                    key@,
                    wanted@,
                )
            },
            Err(error) => !cookies_allowed(header_views(headers@), name_views(names@)) && error
                == invalid_form(),
        },
{
    match check_cookies(headers, names) {
        Err(error) => Err(error),
        Ok(_) => Ok(read_signed(headers, key.bytes(), wanted)),
    }
}

/// The value of a plain cookie.
pub fn plain(headers: &Vec<Vec<u8>>, name: &str) -> (r: Option<String>)
    ensures
        crate::sites::new_site::optional_text(r) == plain_value(header_views(headers@), name@),
{
    read_plain(headers, name)
}

}
