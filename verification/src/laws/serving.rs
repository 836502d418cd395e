//! What a visitor of a site gets to see.
use crate::auth::viewer_tokens::grant_accepted;
use crate::routes::view::{
    access_of, challenge_cookie, grant_cookie, hides_separator, index_path, raw_part, relative_path,
    serve_access, serving_next, serving_run, serving_start, site_root, viewer_headers, walk_next,
    walk_run, with_query, Access, Seen, ServeEvent, ServePhase, ServeReply, Serving, Target, Walk,
};
use crate::sites::validate::valid_path;
use crate::sites::AccessSite;
use crate::text::first_index_unique;
use vstd::prelude::*;

verus! {

/// A visit of the root of a site, with a slash at its end, gets the entry where
/// that is a file that can be sent; without the slash it is sent to the slash.
pub proof fn the_root_opens_the_entry(target: Target)
    requires
        target.captured is None,
    ensures
        target.path@.len() > 0 && target.path@.last() == '/' && valid_path(target.entry@)
            ==> serving_run(
            target,
            seq![
                ServeEvent::Looked(Seen::Directory),
                ServeEvent::Looked(Seen::File),
                ServeEvent::Sent,
            ],
        ).reply == Some(ServeReply::File),
        target.path@.len() > 0 && target.path@.last() == '/' && valid_path(target.entry@)
            ==> serving_run(
            target,
            seq![ServeEvent::Looked(Seen::Directory), ServeEvent::Looked(Seen::File)],
        ).phase == ServePhase::SendEntry,
        target.path@.len() == 0 || target.path@.last() != '/' ==> serving_run(
            target,
            seq![ServeEvent::Looked(Seen::Directory)],
        ).reply == Some(ServeReply::AddSlash),
        serving_run(target, seq![ServeEvent::Looked(Seen::Unavailable)]).reply == Some(
            ServeReply::NotFound,
        ),
{
    slash_at_the_end(target.path@);
    let events = seq![
        ServeEvent::Looked(Seen::Directory),
        ServeEvent::Looked(Seen::File),
        ServeEvent::Sent,
    ];
    assert(events.drop_last() =~= seq![
        ServeEvent::Looked(Seen::Directory),
        ServeEvent::Looked(Seen::File),
    ]);
    let two = events.drop_last();
    assert(two.drop_last() =~= seq![ServeEvent::Looked(Seen::Directory)]);
    assert(two.drop_last().drop_last() =~= Seq::empty());
    let gone = seq![ServeEvent::Looked(Seen::Unavailable)];
    assert(gone.drop_last() =~= Seq::empty());
    reveal_with_fuel(serving_run, 4);
}

/// A visit of a safe path gets the file that the path names, whatever its
/// depth.
pub proof fn paths_open_their_files(target: Target)
    requires
        target.captured is Some,
        valid_path(relative_path(target.captured->0@)),
        !hides_separator(raw_part(target.path@)),
    ensures
        serving_run(target, Seq::empty()).phase == ServePhase::StatPath,
        serving_run(target, seq![ServeEvent::Looked(Seen::File)]).phase == ServePhase::SendPath,
        serving_run(target, seq![ServeEvent::Looked(Seen::File), ServeEvent::Sent]).reply == Some(
            ServeReply::File,
        ),
{
    let events = seq![ServeEvent::Looked(Seen::File), ServeEvent::Sent];
    assert(events.drop_last() =~= seq![ServeEvent::Looked(Seen::File)]);
    assert(events.drop_last().drop_last() =~= Seq::empty());
    reveal_with_fuel(serving_run, 3);
}

/// A directory opens its `index.html` below a slash, and is sent to the slash
/// without one.
pub proof fn directories_open_their_index(target: Target)
    requires
        target.captured is Some,
        valid_path(relative_path(target.captured->0@)),
        !hides_separator(raw_part(target.path@)),
    ensures
        target.path@.len() == 0 || target.path@.last() != '/' ==> serving_run(
            target,
            seq![ServeEvent::Looked(Seen::Directory)],
        ).reply == Some(ServeReply::AddSlash),
        target.path@.len() > 0 && target.path@.last() == '/' && valid_path(
            relative_path(target.captured->0@) + "/index.html"@,
        ) ==> {
            &&& serving_run(target, seq![ServeEvent::Looked(Seen::Directory)]).phase
                == ServePhase::StatIndex
            &&& serving_run(
                target,
                seq![
                    ServeEvent::Looked(Seen::Directory),
                    ServeEvent::Looked(Seen::File),
                    ServeEvent::Sent,
                ],
            ).reply == Some(ServeReply::File)
        },
{
    slash_at_the_end(target.path@);
    let events = seq![
        ServeEvent::Looked(Seen::Directory),
        ServeEvent::Looked(Seen::File),
        ServeEvent::Sent,
    ];
    assert(events.drop_last().drop_last() =~= seq![ServeEvent::Looked(Seen::Directory)]);
    assert(events.drop_last().drop_last().drop_last() =~= Seq::empty());
    assert(events.drop_last().last() == ServeEvent::Looked(Seen::File));
    reveal_with_fuel(serving_run, 4);
}

/// Where a file of a site is missing, the site's own error page is looked for;
/// it is the answer where it can be sent, and there is nothing otherwise.
pub proof fn missing_files_show_the_error_page(target: Target, events: Seq<ServeEvent>, seen: Seen)
    requires
        seen == Seen::Directory || seen == Seen::Unavailable,
        ({
            let phase = serving_run(target, events).phase;
            ||| phase == ServePhase::StatEntry
            ||| phase == ServePhase::StatIndex
            ||| phase == ServePhase::StatPath && seen == Seen::Unavailable
        }),
    ensures
        ({
            let missed = events.push(ServeEvent::Looked(seen));
            let found = missed.push(ServeEvent::Looked(Seen::File));
            &&& serving_run(target, missed).phase == ServePhase::StatMissing
            &&& serving_run(target, found).phase == ServePhase::SendMissing
            &&& serving_run(target, found.push(ServeEvent::Sent)).reply == Some(
                ServeReply::ErrorPage,
            )
            &&& serving_run(target, found.push(ServeEvent::Absent)).reply == Some(
                ServeReply::NotFound,
            )
            &&& serving_run(target, missed.push(ServeEvent::Looked(Seen::Unavailable))).reply
                == Some(ServeReply::NotFound)
            &&& serving_run(target, missed.push(ServeEvent::Looked(Seen::Directory))).reply
                == Some(ServeReply::NotFound)
        }),
{
    let missed = events.push(ServeEvent::Looked(seen));
    let found = missed.push(ServeEvent::Looked(Seen::File));
    assert(missed.drop_last() =~= events);
    assert(found.drop_last() =~= missed);
    assert(found.push(ServeEvent::Sent).drop_last() =~= found);
    assert(found.push(ServeEvent::Absent).drop_last() =~= found);
    assert(missed.push(ServeEvent::Looked(Seen::Unavailable)).drop_last() =~= missed);
    assert(missed.push(ServeEvent::Looked(Seen::Directory)).drop_last() =~= missed);
    reveal_with_fuel(serving_run, 4);
}

/// What ends a visit decides its answer. A file is the answer exactly where the
/// entry or the path was sent, the error page exactly where the error page was,
/// and a failure exactly where something failed; a file that vanished before it
/// was sent counts as missing; and nothing changes an answer any more.
pub proof fn answers_follow_what_was_sent(
    serving: Serving,
    target: Target,
    event: ServeEvent,
)
    requires
        serving.phase != ServePhase::Finished,
        serving.reply is None,
    ensures
        ({
            let next = serving_next(serving, target, event);
            let sends = serving.phase == ServePhase::SendEntry || serving.phase
                == ServePhase::SendPath;
            let looks = serving.phase == ServePhase::StatRoot || serving.phase
                == ServePhase::StatEntry || serving.phase == ServePhase::StatPath || serving.phase
                == ServePhase::StatIndex || serving.phase == ServePhase::StatMissing;
            &&& next.reply == Some(ServeReply::File) <==> sends && event == ServeEvent::Sent
            &&& next.reply == Some(ServeReply::ErrorPage) <==> serving.phase
                == ServePhase::SendMissing && event == ServeEvent::Sent
            &&& sends && event == ServeEvent::Absent ==> next.reply is None && next.phase
                == ServePhase::StatMissing
            &&& event == ServeEvent::Failed || event == ServeEvent::Looked(Seen::Failed)
                ==> next.reply == Some(ServeReply::Failed)
            &&& looks && (event == ServeEvent::Looked(Seen::File) || event == ServeEvent::Looked(
                Seen::Directory,
            ) || event == ServeEvent::Looked(Seen::Unavailable)) ==> next.reply != Some(
                ServeReply::Failed,
            )
            &&& (sends || serving.phase == ServePhase::SendMissing) && (event == ServeEvent::Sent
                || event == ServeEvent::Absent) ==> next.reply != Some(ServeReply::Failed)
            &&& next.reply == Some(ServeReply::AddSlash) ==> (target.path@.len() == 0
                || target.path@.last() != '/') && (event == ServeEvent::Looked(Seen::Directory)
                || event == ServeEvent::Looked(Seen::File))
            &&& next.reply is Some ==> next.phase == ServePhase::Finished
            &&& serving_next(next, target, event) == next || next.reply is None
        }),
{
    slash_at_the_end(target.path@);
}

/// Nothing is looked up for a path that leaves the site or hides a separator,
/// and something is for every other one.
pub proof fn unsafe_paths_are_not_looked_up(target: Target)
    ensures
        serving_start(target).reply == Some(ServeReply::NotFound) <==> target.captured is Some && (
        hides_separator(raw_part(target.path@)) || !valid_path(
            relative_path(target.captured->0@),
        )),
        serving_start(target).reply is Some <==> serving_start(target).phase
            == ServePhase::Finished,
        target.captured is None ==> serving_start(target).phase == ServePhase::StatRoot,
{
}

proof fn slash_at_the_end(path: Seq<char>)
    ensures
        crate::text::has_suffix(path, "/"@) <==> path.len() > 0 && path.last() == '/',
{
    reveal_strlit("/");
    if path.len() > 0 {
        assert(path.skip(path.len() - 1) =~= seq![path.last()]);
        if path.last() == '/' {
            assert(path.skip(path.len() - 1) =~= "/"@);
        } else {
            assert(path.skip(path.len() - 1)[0] != "/"@[0]);
        }
    }
}

/// A slash or backslash that is written as a percent escape is seen wherever it
/// stands, in either case; any other escape is not one.
pub proof fn hidden_separators_are_seen(before: Seq<char>, a: char, b: char, after: Seq<char>)
    ensures
        (a == '2' && (b == 'f' || b == 'F')) || (a == '5' && (b == 'c' || b == 'C'))
            ==> hides_separator(before + seq!['%', a, b] + after),
        !((a == '2' && (b == 'f' || b == 'F')) || (a == '5' && (b == 'c' || b == 'C')))
            && !before.contains('%') && a != '%' && b != '%' && !after.contains('%')
            ==> !hides_separator(before + seq!['%', a, b] + after),
        !before.contains('%') ==> !hides_separator(before),
{
    let raw = before + seq!['%', a, b] + after;
    let i = before.len() as int;
    assert(raw[i] == '%' && raw[i + 1] == a && raw[i + 2] == b);
    if (a == '2' && (b == 'f' || b == 'F')) || (a == '5' && (b == 'c' || b == 'C')) {
        assert(crate::routes::view::encoded_separator(raw, i));
    }
    if hides_separator(raw) {
        let k = choose|k: int| crate::routes::view::encoded_separator(raw, k);
        if k < i {
            assert(before.contains(before[k]));
        } else if k > i + 2 {
            assert(after.contains(after[k - i - 3]));
        }
    }
    if hides_separator(before) {
        let k = choose|k: int| crate::routes::view::encoded_separator(before, k);
        assert(before[k] == '%');
    }
}

/// The address of a site is `/s/`, its slug and a slash; what a request has
/// behind that is the path within the site, as it was sent.
pub proof fn addresses_name_paths_within_sites(slug: Seq<char>, rest: Seq<char>)
    requires
        !slug.contains('/'),
    ensures
        site_root(slug) == seq!['/', 's', '/'] + slug + seq!['/'],
        raw_part(site_root(slug) + rest) == rest,
        raw_part(site_root(slug).drop_last()) == Seq::<char>::empty(),
{
    reveal_strlit("/s/");
    reveal_strlit("/");
    assert("/s/"@ =~= seq!['/', 's', '/']);
    assert("/"@ =~= seq!['/']);
    let path = site_root(slug) + rest;
    assert(path.take(3) =~= "/s/"@);
    let below = path.skip(3);
    assert(below =~= slug + seq!['/'] + rest);
    assert forall|j: int| 0 <= j < slug.len() implies below[j] != '/' by {
        assert(slug.contains(slug[j]));
    }
    first_index_unique(below, '/', slug.len() as int);
    assert(below.skip(slug.len() as int + 1) =~= rest);
    let bare = site_root(slug).drop_last();
    assert(bare =~= seq!['/', 's', '/'] + slug);
    assert(bare.take(3) =~= "/s/"@);
    assert(bare.skip(3) =~= slug);
    assert forall|j: int| 0 <= j < slug.len() implies slug[j] != '/' by {
        assert(slug.contains(slug[j]));
    }
    first_index_unique(slug, '/', slug.len() as int);
}

/// One slash at the end of a decoded path does not matter to the path, and the
/// index of a directory is the file `index.html` in it.
pub proof fn trailing_slashes_name_directories(path: Seq<char>)
    ensures
        relative_path(path.push('/')) == path,
        path.len() == 0 || path.last() != '/' ==> relative_path(path) == path,
        index_path(path).take(path.len() as int) == path,
        index_path(path).skip(path.len() as int) == seq![
            '/',
            'i',
            'n',
            'd',
            'e',
            'x',
            '.',
            'h',
            't',
            'm',
            'l',
        ],
{
    reveal_strlit("/index.html");
    slash_at_the_end(path.push('/'));
    slash_at_the_end(path);
    assert(path.push('/').take(path.len() as int) =~= path);
    assert(index_path(path).take(path.len() as int) =~= path);
    assert(index_path(path).skip(path.len() as int) =~= "/index.html"@);
    assert("/index.html"@ =~= seq!['/', 'i', 'n', 'd', 'e', 'x', '.', 'h', 't', 'm', 'l']);
}

/// A query follows its path behind one question mark, unchanged.
pub proof fn queries_are_kept(path: Seq<char>, query: Seq<char>)
    ensures
        with_query(path, None) == path,
        with_query(path, Some(query)) == path + seq!['?'] + query,
{
    reveal_strlit("?");
    assert("?"@ =~= seq!['?']);
}

/// Who sees a site. An open site is seen by everyone, a protected one by whoever
/// has a grant of its password and by nobody else, until the second that it
/// expires at; an unknown access mode is seen by nobody.
pub proof fn who_sees_a_site(
    row: AccessSite,
    slug: Seq<char>,
    grant: Option<Seq<char>>,
    now: u64,
)
    ensures
        access_of(None, slug, grant, now) == Access::NotFound,
        ({
            let known = row.site.visibility@ == "open"@ || row.site.visibility@ == "password"@;
            let expired = row.site.expires_at is Some && row.site.expires_at->0 <= now;
            let access = access_of(Some(row), slug, grant, now);
            &&& access == Access::NotFound <==> !known || expired
            &&& known && !expired && row.password is None ==> access == Access::Granted(false)
            &&& known && !expired && row.password is Some && grant_accepted(
                grant,
                slug,
                row.password->0.salt(),
                now as int,
            ) ==> access == Access::Granted(true)
            &&& known && !expired && row.password is Some && !grant_accepted(
                grant,
                slug,
                row.password->0.salt(),
                now as int,
            ) ==> access == Access::Locked
        }),
{
}

/// An open site is served without a look at any cookie, and no clock means no
/// content.
pub proof fn open_sites_need_no_cookie(
    row: AccessSite,
    slug: Seq<char>,
    cookies: Seq<Seq<u8>>,
    key: Seq<u8>,
    now: u64,
)
    requires
        row.password is None,
        now <= i64::MAX,
    ensures
        serve_access(Some(row), slug, cookies, key, Some(now)) == Ok::<
            Access,
            crate::error::AppError,
        >(access_of(Some(row), slug, None, now)),
        serve_access(Some(row), slug, cookies, key, None) is Err,
        serve_access(None, slug, cookies, key, None) == Ok::<Access, crate::error::AppError>(
            Access::NotFound,
        ),
{
}

/// The two cookies of a site never have the name of another site's cookie, nor
/// each other's, and the challenge travels over secure connections alone.
pub proof fn site_cookies_are_their_own(slug: Seq<char>, other: Seq<char>)
    ensures
        grant_cookie(slug) == grant_cookie(other) ==> slug == other,
        challenge_cookie(slug) == challenge_cookie(other) ==> slug == other,
        grant_cookie(slug) != challenge_cookie(other),
        grant_cookie(slug).skip(10) == slug,
        challenge_cookie(slug).skip(24) == slug,
        crate::text::has_prefix(challenge_cookie(slug), "__Secure-"@),
{
    reveal_strlit("pb_unlock_");
    reveal_strlit("__Secure-pb_unlock_form_");
    reveal_strlit("__Secure-");
    assert(grant_cookie(slug).skip(10) =~= slug);
    assert(grant_cookie(other).skip(10) =~= other);
    assert(challenge_cookie(slug).skip(24) =~= slug);
    assert(challenge_cookie(other).skip(24) =~= other);
    assert(grant_cookie(slug)[0] == 'p');
    assert(challenge_cookie(other)[0] == '_');
    assert(challenge_cookie(slug).take(9) =~= "__Secure-"@);
}

/// Every response of the viewer namespace forbids guessing its type and being
/// indexed; the content policy is set on own pages and taken off uploaded ones;
/// what did not choose its caching is not stored.
pub proof fn viewer_responses_are_guarded(trusted: bool, cached: bool)
    ensures
        ({
            let headers = viewer_headers(trusted, cached);
            &&& headers.contains(("x-content-type-options", Some("nosniff")))
            &&& headers.contains(("x-robots-tag", Some("noindex")))
            &&& headers.contains(("referrer-policy", Some("strict-origin-when-cross-origin")))
            &&& !trusted ==> headers.contains(("content-security-policy", None))
            &&& trusted ==> headers.contains(
                (
                    "content-security-policy",
                    Some(
                        "default-src 'none'; style-src 'self'; font-src 'self'; form-action 'self'; frame-ancestors 'none'; base-uri 'none'",
                    ),
                ),
            )
            &&& !cached ==> headers.contains(("cache-control", Some("private, no-store")))
            &&& headers.len() == if cached {
                4int
            } else {
                5
            }
        }),
{
    let headers = viewer_headers(trusted, cached);
    assert(headers[0] == ("x-content-type-options", Some("nosniff")));
    assert(headers[1] == ("referrer-policy", Some("strict-origin-when-cross-origin")));
    assert(headers[2] == ("x-robots-tag", Some("noindex")));
    assert(headers[3].0 == "content-security-policy");
    assert(headers.contains(headers[3]));
    if !cached {
        assert(headers[4] == ("cache-control", Some("private, no-store")));
    }
}

/// A look at a path finds what stands there, through the two storage
/// directories, the site directory and every directory on the way.
pub proof fn looks_find_what_is_there(components: usize, seen: Seen)
    requires
        components <= usize::MAX - 3,
    ensures
        components > 0 ==> walk_run(
            components,
            directories(components as nat + 2).push(seen),
        ).outcome == Some(seen),
        components == 0 ==> walk_run(0, directories(3)).outcome == Some(Seen::Directory),
        components == 0 && seen != Seen::Directory ==> walk_run(
            0,
            directories(2).push(seen),
        ).outcome == Some(
            if seen == Seen::Failed {
                Seen::Failed
            } else {
                Seen::Unavailable
            },
        ),
{
    if components > 0 {
        way_in(components, components as nat + 2);
        let all = directories(components as nat + 2).push(seen);
        assert(all.drop_last() =~= directories(components as nat + 2));
    } else {
        way_in(0, 2);
        let all = directories(2).push(seen);
        assert(all.drop_last() =~= directories(2));
        assert(directories(3).drop_last() =~= directories(2));
    }
}

/// So many directories, one after the other.
pub open spec fn directories(n: nat) -> Seq<Seen> {
    Seq::new(n, |i: int| Seen::Directory)
}

proof fn way_in(components: usize, n: nat)
    requires
        components <= usize::MAX - 3,
        n <= components + 2,
    ensures
        walk_run(components, directories(n)) == (Walk {
            at: if n <= 3 {
                n as usize
            } else {
                3
            },
            below: if n <= 3 {
                0
            } else {
                (n - 3) as usize
            },
            components,
            outcome: None,
        }),
    decreases n,
{
    if n > 0 {
        way_in(components, (n - 1) as nat);
        assert(directories(n).drop_last() =~= directories((n - 1) as nat));
    }
}

/// A look ends at the first thing that is no directory: a component that is
/// missing, hidden, a link or a file makes the whole path unavailable.
pub proof fn looks_end_at_the_first_gap(walk: Walk, seen: Seen)
    requires
        walk.outcome is None,
        walk.at <= 2 && walk.below == 0 || walk.at == 3 && walk.below + 1 < walk.components,
        seen != Seen::Directory,
    ensures
        walk_next(walk, seen).outcome == Some(
            if seen == Seen::Failed {
                Seen::Failed
            } else {
                Seen::Unavailable
            },
        ),
{
}

/// A request that is told what cannot have happened fails, as does one whose
/// look or sending failed; one that is answered stays as it is.
pub proof fn strange_events_fail_the_request(serving: Serving, target: Target, event: ServeEvent)
    ensures
        ({
            let next = serving_next(serving, target, event);
            let sends = serving.phase == ServePhase::SendEntry || serving.phase
                == ServePhase::SendPath || serving.phase == ServePhase::SendMissing;
            let failed = event == ServeEvent::Failed || event == ServeEvent::Looked(Seen::Failed);
            let strange = if sends {
                event is Looked
            } else {
                !(event is Looked)
            };
            &&& serving.phase == ServePhase::Finished ==> next == serving
            &&& serving.phase != ServePhase::Finished && (failed || strange) ==> next == (Serving {
                phase: ServePhase::Finished,
                reply: Some(ServeReply::Failed),
            })
        }),
{
}

}
