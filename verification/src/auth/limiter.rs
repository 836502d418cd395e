//! Bounded sliding-window failure history of password checks.
use crate::error::{rejected, AppError};
use crate::ip::IpAddr;
use crate::status;
use crate::table::{assoc, assoc_push, assoc_rows, assoc_update, unique};
use vstd::prelude::*;

verus! {

/// The verified outcome of one completed password check.
#[derive(Clone, Copy, Debug, PartialEq, Eq, Structural)]
pub enum LoginOutcome {
    /// The configured password matched the submitted password.
    Accepted,
    /// The submitted password did not match the configured password.
    Rejected,
}

/// How many failures are remembered, and how many of them bring a delay.
pub const FAILURE_THRESHOLD: usize = 5;

/// How long a failure counts, in nanoseconds: ten minutes.
pub const FAILURE_WINDOW: u64 = 600_000_000_000;

/// How long an answer is delayed, in nanoseconds: one second.
pub const FAILURE_DELAY: u64 = 1_000_000_000;

/// The most addresses whose failures are remembered.
pub const MAX_FAILURE_IPS: usize = 4096;

/// Failures by address, each history in the order of its moments.
pub type Failures = Map<Seq<u16>, Seq<u64>>;

/// Whether a failure still counts at a moment.
pub open spec fn counts(failed_at: u64, now: u64) -> bool {
    now < failed_at + FAILURE_WINDOW
}

/// The failures of a history that still count.
pub open spec fn recent(history: Seq<u64>, now: u64) -> Seq<u64>
    decreases history.len(),
{
    if history.len() == 0 {
        Seq::empty()
    } else {
        let front = recent(history.drop_last(), now);
        if counts(history.last(), now) {
            front.push(history.last())
        } else {
            front
        }
    }
}

/// The histories that still count; those that hold nothing any more are gone.
pub open spec fn pruned(failures: Failures, now: u64) -> Failures {
    Map::new(
        |ip: Seq<u16>| failures.contains_key(ip) && recent(failures[ip], now).len() > 0,
        |ip: Seq<u16>| recent(failures[ip], now),
    )
}

/// A history with one more failure; the oldest makes room where it is full.
pub open spec fn extended(history: Seq<u64>, now: u64) -> Seq<u64> {
    if history.len() >= FAILURE_THRESHOLD {
        history.skip(1).push(now)
    } else {
        history.push(now)
    }
}

/// What a completed password check does to the histories, and the delay of its
/// answer or its rejection.
pub open spec fn completion(failures: Failures, ip: Seq<u16>, outcome: LoginOutcome, now: u64) -> (
    Failures,
    Result<u64, AppError>,
) {
    let counted = pruned(failures, now);
    let known = counted.contains_key(ip);
    let delay = if known && counted[ip].len() >= FAILURE_THRESHOLD {
        FAILURE_DELAY
    } else {
        0
    };
    if outcome == LoginOutcome::Accepted {
        (counted, Ok(delay))
    } else if counted.dom().len() >= MAX_FAILURE_IPS && !known {
        (
            counted,
            Err(
                rejected(
                    status::TOO_MANY_REQUESTS,
                    "too many login attempts; try again later",
                ),
            ),
        )
    } else {
        let history = if known {
            counted[ip]
        } else {
            Seq::empty()
        };
        (counted.insert(ip, extended(history, now)), Ok(delay))
    }
}

struct History {
    ip: IpAddr,
    failed_at: Vec<u64>,
}

spec fn row(history: History) -> (Seq<u16>, Seq<u64>) {
    (history.ip@, history.failed_at@)
}

spec fn rows(histories: Seq<History>) -> Seq<(Seq<u16>, Seq<u64>)> {
    Seq::new(histories.len(), |i: int| row(histories[i]))
}

/// Every history is within its bound.
spec fn bounded(histories: Seq<History>) -> bool {
    forall|i: int|
        0 <= i < histories.len() ==> (#[trigger] histories[i]).failed_at@.len() <= FAILURE_THRESHOLD
}

proof fn recent_shrinks(history: Seq<u64>, now: u64)
    ensures
        recent(history, now).len() <= history.len(),
    decreases history.len(),
{
    if history.len() > 0 {
        recent_shrinks(history.drop_last(), now);
    }
}

/// Drops the failures of one history that no longer count.
fn keep_recent(history: &Vec<u64>, now: u64) -> (r: Vec<u64>)
    ensures
        r@ == recent(history@, now),
{
    let mut kept: Vec<u64> = Vec::new();
    let mut i: usize = 0;
    while i < history.len()
        invariant
            i <= history@.len(),
            kept@ == recent(history@.take(i as int), now),
        decreases history@.len() - i,
    {
        assert(history@.take(i + 1).drop_last() =~= history@.take(i as int));
        let failed_at: u64 = history[i];
        if failed_at > now || now - failed_at < FAILURE_WINDOW {
            kept.push(failed_at);
        }
        i = i + 1;
    }
    assert(history@.take(i as int) =~= history@);
    kept
}

proof fn pruned_step(rows: Seq<(Seq<u16>, Seq<u64>)>, i: int, now: u64)
    requires
        unique(rows),
        0 <= i < rows.len(),
    ensures
        unique(rows.take(i)),
        !assoc(rows.take(i)).contains_key(rows[i].0),
        pruned(assoc(rows.take(i + 1)), now) == if recent(rows[i].1, now).len() > 0 {
            pruned(assoc(rows.take(i)), now).insert(rows[i].0, recent(rows[i].1, now))
        } else {
            pruned(assoc(rows.take(i)), now)
        },
{
    let before = rows.take(i);
    let after = rows.take(i + 1);
    assert forall|a: int, b: int| 0 <= a < b < before.len() implies #[trigger] before[a].0
        != #[trigger] before[b].0 by {
        assert(before[a] == rows[a] && before[b] == rows[b]);
    }
    assoc_rows(before);
    if assoc(before).contains_key(rows[i].0) {
        let k = choose|k: int| 0 <= k < before.len() && #[trigger] before[k].0 == rows[i].0;
        assert(rows[k].0 == rows[i].0);
    }
    assert(after =~= before.push((rows[i].0, rows[i].1)));
    assoc_push(before, rows[i].0, rows[i].1);
    assert(pruned(assoc(after), now) =~= if recent(rows[i].1, now).len() > 0 {
        pruned(assoc(before), now).insert(rows[i].0, recent(rows[i].1, now))
    } else {
        pruned(assoc(before), now)
    });
}

/// Stores only the last five failures for each recently failing address.
/// Moments are nanoseconds of one monotonic clock.
pub struct Limiter {
    failures: Vec<History>,
}

impl Limiter {
    #[verifier::type_invariant]
    spec fn well_formed(self) -> bool {
        unique(rows(self.failures@)) && bounded(self.failures@) && self.failures@.len()
            <= MAX_FAILURE_IPS
    }

    /// The histories by their addresses.
    pub closed spec fn view(&self) -> Failures {
        assoc(rows(self.failures@))
    }

    /// Creates an empty failure history.
    pub fn new() -> (r: Self)
        ensures
            r@ == Failures::empty(),
    {
        Limiter { failures: Vec::new() }
    }

    /// The number of addresses that are remembered, within its bound. None of
    /// their histories is longer than its bound either.
    pub fn len(&self) -> (r: usize)
        ensures
            self@.dom().finite(),
            r == self@.dom().len(),
            r <= MAX_FAILURE_IPS,
            forall|ip: Seq<u16>|
                self@.contains_key(ip) ==> (#[trigger] self@[ip]).len() <= FAILURE_THRESHOLD,
    {
        proof {
            use_type_invariant(self);
            assoc_rows(rows(self.failures@));
            assert forall|ip: Seq<u16>| self@.contains_key(ip) implies (#[trigger] self@[ip]).len()
                <= FAILURE_THRESHOLD by {
                let i = choose|i: int|
                    0 <= i < rows(self.failures@).len() && #[trigger] rows(self.failures@)[i].0
                        == ip;
                assert(self.failures@[i].failed_at@.len() <= FAILURE_THRESHOLD);
            }
        }
        self.failures.len()
    }

    /// Drops what no longer counts at a moment.
    fn prune(&mut self, now: u64)
        ensures
            final(self)@ == pruned(old(self)@, now),
    {
        proof {
            use_type_invariant(&*self);
        }
        let mut all: Vec<History> = Vec::new();
        std::mem::swap(&mut all, &mut self.failures);
        let ghost listed = rows(all@);
        let ghost histories = all@;
        let mut kept: Vec<History> = Vec::new();
        assert(pruned(assoc(listed.take(0)), now) =~= assoc(rows(kept@)));
        for history in it: all.into_iter()
            invariant
                it.seq() == histories,
                rows(histories) == listed,
                unique(listed),
                bounded(histories),
                bounded(kept@),
                listed.len() <= MAX_FAILURE_IPS,
                kept@.len() <= it.index(),
                unique(rows(kept@)),
                assoc(rows(kept@)) == pruned(assoc(listed.take(it.index() as int)), now),
        {
            let ghost i = it.index() as int;
            let ghost before = rows(kept@);
            proof {
                assert(histories[i] == history);
                assert(listed[i] == row(history));
                pruned_step(listed, i, now);
                recent_shrinks(history.failed_at@, now);
            }
            let failed_at: Vec<u64> = keep_recent(&history.failed_at, now);
            if failed_at.len() > 0 {
                let ghost ip = history.ip@;
                let ghost moments = failed_at@;
                proof {
                    assoc_push(before, ip, moments);
                }
                kept.push(History { ip: history.ip, failed_at });
                assert(rows(kept@) =~= before.push((ip, moments)));
            }
        }
        assert(listed.take(listed.len() as int) =~= listed);
        self.failures = kept;
    }

    /// Counts a completed failure and selects the delay of its answer.
    pub fn complete(&mut self, ip: &IpAddr, outcome: LoginOutcome, now: u64) -> (r: Result<
        u64,
        AppError,
    >)
        ensures
            (final(self)@, r) == completion(old(self)@, ip@, outcome, now),
    {
        self.prune(now);
        proof {
            use_type_invariant(&*self);
            assoc_rows(rows(self.failures@));
        }
        let mut at: usize = 0;
        while at < self.failures.len() && !self.failures[at].ip.same(ip)
            invariant
                at <= self.failures@.len(),
                forall|j: int| 0 <= j < at ==> (#[trigger] rows(self.failures@)[j]).0 != ip@,
            decreases self.failures@.len() - at,
        {
            at = at + 1;
        }
        let known: bool = at < self.failures.len();
        proof {
            if known {
                assert(rows(self.failures@)[at as int].0 == ip@);
            }
            assert(self@.contains_key(ip@) == known);
        }
        let delay: u64 = if known && self.failures[at].failed_at.len() >= FAILURE_THRESHOLD {
            FAILURE_DELAY
        } else {
            0
        };
        match outcome {
            LoginOutcome::Accepted => Ok(delay),
            LoginOutcome::Rejected => {
                if self.failures.len() >= MAX_FAILURE_IPS && !known {
                    return Err(
                        AppError::request(
                            status::TOO_MANY_REQUESTS,
                            "too many login attempts; try again later",
                        ),
                    );
                }
                let mut failures: Vec<History> = Vec::new();
                std::mem::swap(&mut failures, &mut self.failures);
                let ghost before = rows(failures@);
                if known {
                    let mut failed_at: Vec<u64> = Vec::new();
                    let old_history: &Vec<u64> = &failures[at].failed_at;
                    let mut k: usize = if old_history.len() == FAILURE_THRESHOLD {
                        1
                    } else {
                        0
                    };
                    let ghost first = k as int;
                    while k < old_history.len()
                        invariant
                            0 <= first <= k <= old_history@.len(),
                            failed_at@ == old_history@.subrange(first, k as int),
                        decreases old_history@.len() - k,
                    {
                        failed_at.push(old_history[k]);
                        k = k + 1;
                    }
                    failed_at.push(now);
                    assert(failed_at@ =~= extended(before[at as int].1, now));
                    let address: IpAddr = failures[at].ip.copy();
                    let ghost moments = failed_at@;
                    proof {
                        assoc_update(before, at as int, moments);
                    }
                    let ghost old_failures = failures@;
                    failures.set(at, History { ip: address, failed_at });
                    assert(rows(failures@) =~= before.update(at as int, (ip@, moments)));
                    assert(bounded(failures@));
                } else {
                    let mut failed_at: Vec<u64> = Vec::new();
                    failed_at.push(now);
                    assert(failed_at@ =~= extended(Seq::empty(), now));
                    let ghost moments = failed_at@;
                    proof {
                        assoc_push(before, ip@, moments);
                    }
                    failures.push(History { ip: ip.copy(), failed_at });
                    assert(rows(failures@) =~= before.push((ip@, moments)));
                }
                self.failures = failures;
                Ok(delay)
            },
        }
    }
}

/// No completed check touches what is still counted of another address, be it
/// accepted, rejected, or turned away because the table is full.
pub proof fn live_windows_are_never_evicted(
    failures: Failures,
    ip: Seq<u16>,
    outcome: LoginOutcome,
    now: u64,
    other: Seq<u16>,
)
    requires
        other != ip,
    ensures
        completion(failures, ip, outcome, now).0.contains_key(other) == pruned(
            failures,
            now,
        ).contains_key(other),
        pruned(failures, now).contains_key(other) ==> completion(failures, ip, outcome, now).0[other]
            == pruned(failures, now)[other],
{
}

/// A successful check neither clears nor adds to the failures of its address.
pub proof fn success_keeps_history(failures: Failures, ip: Seq<u16>, now: u64)
    ensures
        completion(failures, ip, LoginOutcome::Accepted, now).0 == pruned(failures, now),
{
}

/// Five failures within the window delay the answer of the next check, whether
/// it succeeds or fails.
pub proof fn five_recent_failures_delay(
    failures: Failures,
    ip: Seq<u16>,
    outcome: LoginOutcome,
    now: u64,
)
    requires
        failures.contains_key(ip),
        failures[ip].len() == FAILURE_THRESHOLD,
        forall|i: int|
            0 <= i < FAILURE_THRESHOLD ==> counts(#[trigger] failures[ip][i], now),
    ensures
        completion(failures, ip, outcome, now).1 == Ok::<u64, AppError>(FAILURE_DELAY),
{
    all_recent(failures[ip], now);
}

proof fn all_recent(history: Seq<u64>, now: u64)
    requires
        forall|i: int| 0 <= i < history.len() ==> counts(#[trigger] history[i], now),
    ensures
        recent(history, now) == history,
    decreases history.len(),
{
    if history.len() > 0 {
        all_recent(history.drop_last(), now);
        assert(history =~= history.drop_last().push(history.last()));
    }
}

/// A completed check: the address it came from, its outcome and its moment.
pub type Check = (Seq<u16>, LoginOutcome, u64);

/// The moments of the checks never go back.
pub open spec fn in_order(checks: Seq<Check>) -> bool {
    forall|i: int, j: int| 0 <= i <= j < checks.len() ==> #[trigger] checks[i].2
        <= #[trigger] checks[j].2
}

/// The histories of a new limiter after a row of checks.
pub open spec fn after_checks(checks: Seq<Check>) -> Failures
    decreases checks.len(),
{
    if checks.len() == 0 {
        Failures::empty()
    } else {
        let last = checks.last();
        completion(after_checks(checks.drop_last()), last.0, last.1, last.2).0
    }
}

/// The answer to one more check after a row of checks.
pub open spec fn answer_after(checks: Seq<Check>, next: Check) -> Result<u64, AppError> {
    completion(after_checks(checks), next.0, next.1, next.2).1
}

/// The moments at which an address failed a check without being turned away.
pub open spec fn failed_moments(checks: Seq<Check>, ip: Seq<u16>) -> Seq<u64>
    decreases checks.len(),
{
    if checks.len() == 0 {
        Seq::empty()
    } else {
        let front = failed_moments(checks.drop_last(), ip);
        let last = checks.last();
        if last.0 == ip && last.1 == LoginOutcome::Rejected && answer_after(
            checks.drop_last(),
            last,
        ) is Ok {
            front.push(last.2)
        } else {
            front
        }
    }
}

/// The addresses with a failure that still counts.
pub open spec fn failing_addresses(checks: Seq<Check>, now: u64) -> Set<Seq<u16>> {
    Set::new(|ip: Seq<u16>| recent(failed_moments(checks, ip), now).len() > 0)
}

/// The answer to a check depends on all the checks before it in one way only.
/// It is delayed exactly where the address has failed five times or more in
/// the ten minutes before, whatever the outcome. It is turned away exactly
/// where it failed, its address has no failure that counts, and as many other
/// addresses have one as are remembered.
pub proof fn answers_follow_the_recent_failures(checks: Seq<Check>, next: Check)
    requires
        in_order(checks.push(next)),
    ensures
        ({
            let failures = recent(failed_moments(checks, next.0), next.2).len();
            answer_after(checks, next) == if next.1 == LoginOutcome::Rejected && failures == 0
                && failing_addresses(checks, next.2).len() >= MAX_FAILURE_IPS {
                Err(
                    rejected(
                        status::TOO_MANY_REQUESTS,
                        "too many login attempts; try again later",
                    ),
                )
            } else if failures >= FAILURE_THRESHOLD {
                Ok(FAILURE_DELAY)
            } else {
                Ok(0)
            }
        }),
{
    let counted = pruned(after_checks(checks), next.2);
    assert forall|ip: Seq<u16>| #[trigger] counted.contains_key(ip) == (recent(
        failed_moments(checks, ip),
        next.2,
    ).len() > 0) by {
        let live = recent(failed_moments(checks, ip), next.2);
        counted_history(checks, next, ip);
        assert(newest(live).len() > 0 <==> live.len() > 0);
        if counted.contains_key(ip) {
            assert(counted[ip].len() > 0);
        }
    }
    assert(counted.dom() =~= failing_addresses(checks, next.2));
    counted_history(checks, next, next.0);
}

/// The last of a row of moments, as many as are remembered.
spec fn newest(moments: Seq<u64>) -> Seq<u64> {
    tail(moments, FAILURE_THRESHOLD as int)
}

/// The last moments, `n` of them or all.
spec fn tail(moments: Seq<u64>, n: int) -> Seq<u64> {
    if moments.len() > n {
        moments.skip(moments.len() - n)
    } else {
        moments
    }
}

spec fn ascending(moments: Seq<u64>) -> bool {
    forall|i: int, j: int| 0 <= i <= j < moments.len() ==> #[trigger] moments[i]
        <= #[trigger] moments[j]
}

/// The history of an address, which may be empty.
spec fn history_of(failures: Failures, ip: Seq<u16>) -> Seq<u64> {
    if failures.contains_key(ip) {
        failures[ip]
    } else {
        Seq::empty()
    }
}

/// What still counts at the next check of what is remembered of an address is
/// the newest of all its failures that still count.
proof fn counted_history(checks: Seq<Check>, next: Check, ip: Seq<u16>)
    requires
        in_order(checks.push(next)),
    ensures
        history_of(pruned(after_checks(checks), next.2), ip) == newest(
            recent(failed_moments(checks, ip), next.2),
        ),
    decreases checks.len(),
{
    let moments = failed_moments(checks, ip);
    if checks.len() > 0 {
        let front = checks.drop_last();
        let last = checks.last();
        assert(front.push(last) =~= checks);
        assert forall|i: int, j: int| 0 <= i <= j < checks.len() implies #[trigger] checks[i].2
            <= #[trigger] checks[j].2 by {
            assert(checks.push(next)[i].2 <= checks.push(next)[j].2);
        }
        assert(checks.push(next)[checks.len() - 1].2 <= checks.push(next)[checks.len() as int].2);
        counted_history(front, last, ip);
        let before = failed_moments(front, ip);
        let counted = pruned(after_checks(front), last.2);
        let history = history_of(after_checks(checks), ip);
        moments_ascend(front, last, ip);
        recent_ascends(before, last.2);
        if moments == before {
            assert(history == history_of(counted, ip));
            recent_tail(recent(before, last.2), FAILURE_THRESHOLD as int, next.2);
            recent_twice(before, last.2, next.2);
        } else {
            let kept = recent(before, last.2);
            assert(moments.drop_last() =~= before);
            assert(recent(moments, last.2) == kept.push(last.2));
            assert(history =~= newest(kept.push(last.2)));
            moments_ascend(checks, next, ip);
            recent_ascends(moments, last.2);
            recent_tail(recent(moments, last.2), FAILURE_THRESHOLD as int, next.2);
            recent_twice(moments, last.2, next.2);
        }
        assert(history_of(pruned(after_checks(checks), next.2), ip) =~= recent(history, next.2));
    } else {
        assert(recent(moments, next.2) =~= Seq::empty());
    }
}

/// The failures of an address come in the order of the checks.
proof fn moments_ascend(checks: Seq<Check>, next: Check, ip: Seq<u16>)
    requires
        in_order(checks.push(next)),
    ensures
        ascending(failed_moments(checks, ip)),
        forall|i: int|
            0 <= i < failed_moments(checks, ip).len() ==> #[trigger] failed_moments(
                checks,
                ip,
            )[i] <= next.2,
    decreases checks.len(),
{
    if checks.len() > 0 {
        let front = checks.drop_last();
        let last = checks.last();
        let all = checks.push(next);
        assert forall|i: int, j: int| 0 <= i <= j < front.push(last).len() implies #[trigger] front.push(
            last,
        )[i].2 <= #[trigger] front.push(last)[j].2 by {
            assert(all[i].2 <= all[j].2);
        }
        assert(all[checks.len() - 1].2 <= all[checks.len() as int].2);
        moments_ascend(front, last, ip);
    }
}

proof fn recent_ascends(moments: Seq<u64>, now: u64)
    requires
        ascending(moments),
    ensures
        ascending(recent(moments, now)),
        forall|i: int|
            0 <= i < recent(moments, now).len() ==> moments.len() > 0 && #[trigger] recent(
                moments,
                now,
            )[i] <= moments.last(),
    decreases moments.len(),
{
    if moments.len() > 0 {
        let front = moments.drop_last();
        recent_ascends(front, now);
        if front.len() > 0 {
            assert(moments[moments.len() - 2] <= moments[moments.len() - 1]);
        }
    }
}

/// What counts later counts now.
proof fn recent_twice(moments: Seq<u64>, now: u64, later: u64)
    requires
        now <= later,
    ensures
        recent(recent(moments, now), later) == recent(moments, later),
    decreases moments.len(),
{
    if moments.len() > 0 {
        let front = moments.drop_last();
        recent_twice(front, now, later);
        if counts(moments.last(), now) {
            assert(recent(moments, now).drop_last() =~= recent(front, now));
        }
    }
}

/// Of moments in order, those that count are the last ones.
proof fn recent_tail(moments: Seq<u64>, n: int, now: u64)
    requires
        ascending(moments),
        n >= 0,
    ensures
        recent(tail(moments, n), now) == tail(recent(moments, now), n),
    decreases moments.len(),
{
    recent_shrinks(moments, now);
    if moments.len() > n {
        if n == 0 {
            assert(tail(moments, n) =~= Seq::empty());
            assert(tail(recent(moments, now), n) =~= Seq::empty());
        } else {
            let front = moments.drop_last();
            let last = moments.last();
            recent_tail(front, n - 1, now);
            assert(tail(moments, n).drop_last() =~= tail(front, n - 1));
            assert(tail(moments, n).last() == last);
            if counts(last, now) {
                assert(tail(recent(front, now).push(last), n) =~= tail(
                    recent(front, now),
                    n - 1,
                ).push(last));
            } else {
                none_recent(front, now, last);
            }
        }
    }
}

proof fn none_recent(moments: Seq<u64>, now: u64, last: u64)
    requires
        forall|i: int| 0 <= i < moments.len() ==> #[trigger] moments[i] <= last,
        !counts(last, now),
    ensures
        recent(moments, now) == Seq::<u64>::empty(),
    decreases moments.len(),
{
    if moments.len() > 0 {
        none_recent(moments.drop_last(), now, last);
        assert(moments[moments.len() - 1] <= last);
    }
}

}
