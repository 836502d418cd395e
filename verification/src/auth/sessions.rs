//! Bounded, expiring admin sessions with CSRF-checked revocation.
use crate::auth::tokens::{
    self, drawn_token, entropy_gives, hex_text_is_hex, hex_token, made_text, random_token,
    TOKEN_BYTES, TOKEN_CHARS,
};
use crate::error::{authentication_failure, rejected, AppError};
use crate::status;
use crate::table::{assoc, assoc_push, assoc_remove, assoc_rows, unique};
use crate::text::same;
use vstd::prelude::*;

verus! {

/// The most sessions that are live at once.
pub const MAX_SESSIONS: usize = 1024;

/// The lifetime of a session in nanoseconds: thirty days.
pub const SESSION_NANOS: u64 = 2_592_000_000_000_000;

/// A server-tracked session whose deadline is never extended by access.
struct Session {
    session_id: String,
    csrf_token: String,
    expires_at: u64,
}

/// What is known of a session: its form token and the moment it becomes invalid.
pub type SessionView = (Seq<char>, u64);

/// A bounded store of live sessions and their independent CSRF credentials.
/// Moments are nanoseconds of one monotonic clock.
pub struct Sessions {
    active: Vec<Session>,
}

/// The sessions of a store that are live at a moment.
pub open spec fn live_at(store: Map<Seq<char>, SessionView>, now: u64) -> Map<
    Seq<char>,
    SessionView,
> {
    store.restrict(Set::new(|id: Seq<char>| store.contains_key(id) && store[id].1 > now))
}

/// Whether a token is the form token of a session that is live at a moment.
pub open spec fn form_accepted(
    store: Map<Seq<char>, SessionView>,
    session_id: Seq<char>,
    token: Seq<char>,
    now: u64,
) -> bool {
    &&& live_at(store, now).contains_key(session_id)
    &&& hex_token(token, TOKEN_CHARS as int)
    &&& live_at(store, now)[session_id].0 == token
}

/// What adding a session does: to the store, and as the answer.
pub open spec fn session_added(
    store: Map<Seq<char>, SessionView>,
    session_id: Seq<char>,
    csrf_token: Seq<char>,
    now: u64,
) -> (Map<Seq<char>, SessionView>, Option<AppError>) {
    let live = live_at(store, now);
    if live.dom().len() >= MAX_SESSIONS {
        (
            live,
            Some(
                rejected(
                    status::SERVICE_UNAVAILABLE,
                    "too many active sessions; sign out another session",
                ),
            ),
        )
    } else if live.contains_key(session_id) {
        (live, Some(authentication_failure()))
    } else {
        (live.insert(session_id, (csrf_token, (now + SESSION_NANOS) as u64)), None)
    }
}

/// What a creation makes of the draws for its identifier and for its form token:
/// without either nothing changes, and with both the session is added.
pub open spec fn creation(
    before: Map<Seq<char>, SessionView>,
    after: Map<Seq<char>, SessionView>,
    now: u64,
    id: Result<[u8; TOKEN_BYTES], AppError>,
    csrf: Result<[u8; TOKEN_BYTES], AppError>,
    r: Result<Seq<char>, AppError>,
) -> bool {
    match (drawn_token(id), drawn_token(csrf)) {
        (Ok(session_id), Ok(csrf_token)) => (
            after,
            match r {
                Ok(_) => None,
                Err(error) => Some(error),
            },
        ) == session_added(before, session_id, csrf_token, now) && (r matches Ok(given)
            ==> given == session_id),
        _ => after == before && r == Err::<Seq<char>, AppError>(authentication_failure()),
    }
}

/// A creation with draws that the entropy source gave.
pub open spec fn session_created(
    before: Map<Seq<char>, SessionView>,
    after: Map<Seq<char>, SessionView>,
    now: u64,
    r: Result<Seq<char>, AppError>,
) -> bool {
    exists|id: Result<[u8; TOKEN_BYTES], AppError>, csrf: Result<[u8; TOKEN_BYTES], AppError>|
        entropy_gives(id) && entropy_gives(csrf) && #[trigger] creation(
            before,
            after,
            now,
            id,
            csrf,
            r,
        )
}

spec fn row(session: Session) -> (Seq<char>, SessionView) {
    (session.session_id@, (session.csrf_token@, session.expires_at))
}

spec fn rows(active: Seq<Session>) -> Seq<(Seq<char>, SessionView)> {
    Seq::new(active.len(), |i: int| row(active[i]))
}

/// Keeping the live rows keeps the live sessions.
proof fn live_step(rows: Seq<(Seq<char>, SessionView)>, i: int, now: u64)
    requires
        unique(rows),
        0 <= i < rows.len(),
    ensures
        unique(rows.take(i)),
        unique(rows.take(i + 1)),
        !assoc(rows.take(i)).contains_key(rows[i].0),
        live_at(assoc(rows.take(i + 1)), now) == if rows[i].1.1 > now {
            live_at(assoc(rows.take(i)), now).insert(rows[i].0, rows[i].1)
        } else {
            live_at(assoc(rows.take(i)), now)
        },
{
    let before = rows.take(i);
    let after = rows.take(i + 1);
    assert(forall|k: int| 0 <= k < i ==> before[k] == rows[k]);
    assert(unique(before)) by {
        assert forall|a: int, b: int| 0 <= a < b < before.len() implies #[trigger] before[a].0
            != #[trigger] before[b].0 by {
            assert(before[a] == rows[a] && before[b] == rows[b]);
        }
    }
    assert(after.drop_last() =~= before);
    assoc_rows(before);
    if assoc(before).contains_key(rows[i].0) {
        let k = choose|k: int| 0 <= k < before.len() && #[trigger] before[k].0 == rows[i].0;
        assert(rows[k].0 == rows[i].0);
    }
    assert(after =~= before.push((rows[i].0, rows[i].1)));
    assoc_push(before, rows[i].0, rows[i].1);
    assert(live_at(assoc(after), now) =~= if rows[i].1.1 > now {
        live_at(assoc(before), now).insert(rows[i].0, rows[i].1)
    } else {
        live_at(assoc(before), now)
    });
}

impl Sessions {
    #[verifier::type_invariant]
    spec fn well_formed(self) -> bool {
        unique(rows(self.active@)) && self.active@.len() <= MAX_SESSIONS
    }

    /// The sessions by their identifiers.
    pub closed spec fn view(&self) -> Map<Seq<char>, SessionView> {
        assoc(rows(self.active@))
    }

    /// Creates an empty store, invalidating every prior process's sessions.
    pub fn new() -> (r: Self)
        ensures
            r@ == Map::<Seq<char>, SessionView>::empty(),
    {
        Sessions { active: Vec::new() }
    }

    /// The number of sessions: never more than the store may hold.
    pub fn len(&self) -> (r: usize)
        ensures
            self@.dom().finite(),
            r == self@.dom().len(),
            r <= MAX_SESSIONS,
    {
        proof {
            use_type_invariant(self);
            assoc_rows(rows(self.active@));
        }
        self.active.len()
    }

    /// Drops the sessions that have expired at a moment.
    pub fn expire(&mut self, now: u64)
        ensures
            final(self)@ == live_at(old(self)@, now),
    {
        proof {
            use_type_invariant(&*self);
        }
        let mut all: Vec<Session> = Vec::new();
        std::mem::swap(&mut all, &mut self.active);
        let ghost listed = rows(all@);
        let mut kept: Vec<Session> = Vec::new();
        assert(live_at(assoc(listed.take(0)), now) =~= assoc(rows(kept@)));
        for session in it: all.into_iter()
            invariant
                rows(it.seq()) == listed,
                unique(listed),
                listed.len() <= MAX_SESSIONS,
                kept@.len() <= it.index(),
                unique(rows(kept@)),
                assoc(rows(kept@)) == live_at(assoc(listed.take(it.index() as int)), now),
        {
            let ghost i = it.index() as int;
            let ghost before = rows(kept@);
            proof {
                assert(listed[i] == row(session));
                live_step(listed, i, now);
            }
            if session.expires_at > now {
                proof {
                    assoc_push(before, row(session).0, row(session).1);
                }
                kept.push(session);
                assert(rows(kept@) =~= before.push(row(session)));
            }
        }
        assert(listed.take(listed.len() as int) =~= listed);
        self.active = kept;
    }

    /// The position of a session.
    fn position(&self, session_id: &str) -> (r: Option<usize>)
        ensures
            match r {
                Some(i) => i < self.active@.len() && self.active@[i as int].session_id@
                    == session_id@ && self@.contains_key(session_id@) && self@[session_id@] == row(
                    self.active@[i as int],
                ).1,
                None => !self@.contains_key(session_id@),
            },
    {
        proof {
            use_type_invariant(self);
            assoc_rows(rows(self.active@));
        }
        let mut i: usize = 0;
        while i < self.active.len()
            invariant
                i <= self.active@.len(),
                unique(rows(self.active@)),
                forall|j: int|
                    0 <= j < i ==> (#[trigger] rows(self.active@)[j]).0 != session_id@,
            decreases self.active@.len() - i,
        {
            if same(self.active[i].session_id.as_str(), session_id) {
                proof {
                    assoc_rows(rows(self.active@));
                    assert(rows(self.active@)[i as int].0 == session_id@);
                }
                return Some(i);
            }
            i = i + 1;
        }
        None
    }

    /// Creates a fresh session without displacing existing live sessions. Its
    /// identifier and form token are drawn from the entropy source.
    pub fn create_at(&mut self, now: u64) -> (r: Result<String, AppError>)
        requires
            now + SESSION_NANOS <= u64::MAX,
        ensures
            session_created(old(self)@, final(self)@, now, made_text(r)),
    {
        let id: Result<String, AppError> = random_token();
        let ghost id_read = choose|read: Result<[u8; TOKEN_BYTES], AppError>| #[trigger]
            entropy_gives(read) && made_text(id) == drawn_token(read);
        let session_id: String = match id {
            Ok(session_id) => session_id,
            Err(error) => {
                assert(creation(old(self)@, self@, now, id_read, id_read, Err(error)));
                return Err(error);
            },
        };
        let csrf: Result<String, AppError> = random_token();
        let ghost csrf_read = choose|read: Result<[u8; TOKEN_BYTES], AppError>| #[trigger]
            entropy_gives(read) && made_text(csrf) == drawn_token(read);
        match csrf {
            Ok(csrf_token) => {
                let r = self.create_with(session_id, csrf_token, now);
                assert(creation(old(self)@, self@, now, id_read, csrf_read, made_text(r)));
                r
            },
            Err(error) => {
                assert(creation(old(self)@, self@, now, id_read, csrf_read, Err(error)));
                Err(error)
            },
        }
    }

    /// Adds a session with these credentials where there is room for it.
    pub fn create_with(&mut self, session_id: String, csrf_token: String, now: u64) -> (r: Result<
        String,
        AppError,
    >)
        requires
            now + SESSION_NANOS <= u64::MAX,
        ensures
            (
                final(self)@,
                match r {
                    Ok(_) => None,
                    Err(error) => Some(error),
                },
            ) == session_added(old(self)@, session_id@, csrf_token@, now),
            r matches Ok(id) ==> id@ == session_id@,
    {
        self.expire(now);
        let ghost live = self@;
        proof {
            use_type_invariant(&*self);
            assoc_rows(rows(self.active@));
        }
        if self.active.len() >= MAX_SESSIONS {
            return Err(
                AppError::request(
                    status::SERVICE_UNAVAILABLE,
                    "too many active sessions; sign out another session",
                ),
            );
        }
        match self.position(session_id.as_str()) {
            Some(_) => Err(AppError::authentication()),
            None => {
                let id: String = session_id.as_str().to_owned();
                let session = Session { session_id, csrf_token, expires_at: now + SESSION_NANOS };
                let mut active: Vec<Session> = Vec::new();
                std::mem::swap(&mut active, &mut self.active);
                let ghost before = rows(active@);
                proof {
                    assoc_push(before, row(session).0, row(session).1);
                }
                active.push(session);
                assert(rows(active@) =~= before.push(row(session)));
                self.active = active;
                Ok(id)
            },
        }
    }

    /// Reads a token only when its session is live, without extending its deadline.
    pub fn csrf_at(&mut self, session_id: &str, now: u64) -> (r: Option<String>)
        ensures
            final(self)@ == live_at(old(self)@, now),
            match r {
                Some(token) => final(self)@.contains_key(session_id@) && token@
                    == final(self)@[session_id@].0,
                None => !final(self)@.contains_key(session_id@),
            },
    {
        self.expire(now);
        match self.position(session_id) {
            Some(i) => Some(self.active[i].csrf_token.as_str().to_owned()),
            None => None,
        }
    }

    /// Compares a live session's form token without changing it.
    pub fn verify_at(&mut self, session_id: &str, token: &str, now: u64) -> (r: bool)
        ensures
            final(self)@ == live_at(old(self)@, now),
            r == form_accepted(old(self)@, session_id@, token@, now),
    {
        self.expire(now);
        match self.position(session_id) {
            Some(i) => tokens::matches(self.active[i].csrf_token.as_str(), token),
            None => false,
        }
    }

    /// Removes a live session only after its token matches.
    pub fn logout_at(&mut self, session_id: &str, token: &str, now: u64) -> (r: bool)
        ensures
            r == form_accepted(old(self)@, session_id@, token@, now),
            final(self)@ == if r {
                live_at(old(self)@, now).remove(session_id@)
            } else {
                live_at(old(self)@, now)
            },
    {
        self.expire(now);
        match self.position(session_id) {
            None => false,
            Some(i) => {
                if !tokens::matches(self.active[i].csrf_token.as_str(), token) {
                    return false;
                }
                proof {
                    use_type_invariant(&*self);
                }
                let mut active: Vec<Session> = Vec::new();
                std::mem::swap(&mut active, &mut self.active);
                let ghost before = rows(active@);
                proof {
                    assoc_remove(before, i as int);
                }
                active.remove(i);
                assert(rows(active@) =~= before.remove(i as int));
                self.active = active;
                true
            },
        }
    }
}

/// A session that was created is found with its token until its deadline
/// passes, and not after; reading it does not move the deadline.
pub proof fn sessions_live_until_their_deadline(
    store: Map<Seq<char>, SessionView>,
    session_id: Seq<char>,
    csrf_token: Seq<char>,
    now: u64,
    seen: u64,
    later: u64,
)
    requires
        session_added(store, session_id, csrf_token, now).1 is None,
        now + SESSION_NANOS <= u64::MAX,
        now <= seen <= later,
    ensures
        ({
            let read = live_at(session_added(store, session_id, csrf_token, now).0, seen);
            live_at(read, later).contains_key(session_id) <==> later < now + SESSION_NANOS
        }),
        later < now + SESSION_NANOS ==> live_at(
            live_at(session_added(store, session_id, csrf_token, now).0, seen),
            later,
        )[session_id].0 == csrf_token,
{
}

/// With randomness at hand, a creation succeeds exactly where there is room and
/// the drawn identifier is not live yet. The new session has an identifier and a
/// form token in canonical writing, and is found with that token, however often
/// it is read, until its thirty days have passed. Every other live session stays
/// as it is. In a full store the creation is refused, and what is live stays.
pub proof fn created_sessions(
    before: Map<Seq<char>, SessionView>,
    after: Map<Seq<char>, SessionView>,
    now: u64,
    id: [u8; TOKEN_BYTES],
    csrf: [u8; TOKEN_BYTES],
    r: Result<Seq<char>, AppError>,
    seen: u64,
    later: u64,
)
    requires
        now + SESSION_NANOS <= u64::MAX,
        now <= seen <= later,
        creation(before, after, now, Ok(id), Ok(csrf), r),
    ensures
        r is Ok <==> live_at(before, now).dom().len() < MAX_SESSIONS && !live_at(
            before,
            now,
        ).contains_key(tokens::hex_text(id@)),
        r matches Ok(session_id) ==> {
            let read = live_at(live_at(after, seen), later);
            &&& hex_token(session_id, TOKEN_CHARS as int)
            &&& !live_at(before, now).contains_key(session_id)
            &&& read.contains_key(session_id) <==> later < now + SESSION_NANOS
            &&& read.contains_key(session_id) ==> read[session_id].0 == tokens::hex_text(csrf@)
                && hex_token(read[session_id].0, TOKEN_CHARS as int)
            &&& forall|other: Seq<char>| #[trigger]
                live_at(before, now).contains_key(other) ==> after.contains_key(other)
                    && after[other] == before[other]
        },
        live_at(before, now).dom().len() >= MAX_SESSIONS ==> r == Err::<Seq<char>, AppError>(
            rejected(
                status::SERVICE_UNAVAILABLE,
                "too many active sessions; sign out another session",
            ),
        ) && after == live_at(before, now),
{
    hex_text_is_hex(id@);
    hex_text_is_hex(csrf@);
}

/// After a logout the session is gone for every request that follows.
pub proof fn logout_revokes(
    store: Map<Seq<char>, SessionView>,
    session_id: Seq<char>,
    token: Seq<char>,
    now: u64,
    later: u64,
)
    requires
        form_accepted(store, session_id, token, now),
    ensures
        !form_accepted(live_at(store, now).remove(session_id), session_id, token, later),
{
}

/// Forgetting expired sessions twice at one moment is the same as once.
pub proof fn expiring_twice(store: Map<Seq<char>, SessionView>, now: u64)
    ensures
        live_at(live_at(store, now), now) == live_at(store, now),
{
    assert(live_at(live_at(store, now), now) =~= live_at(store, now));
}

/// Creating a session displaces no live session.
pub proof fn creation_displaces_nothing(
    store: Map<Seq<char>, SessionView>,
    session_id: Seq<char>,
    csrf_token: Seq<char>,
    now: u64,
    other: Seq<char>,
)
    requires
        live_at(store, now).contains_key(other),
    ensures
        session_added(store, session_id, csrf_token, now).0.contains_key(other),
        session_added(store, session_id, csrf_token, now).0[other] == store[other],
{
}

}
