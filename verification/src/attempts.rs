//! Failed logins per key and the lockout they lead to: from the third failure in a row
//! a key is locked for ten seconds, from the fifth for sixty, and one good login clears
//! the slate.

use vstd::prelude::*;

use crate::table::Table;

verus! {

/// Failures in a row from which a key is locked for a short while.
pub const SHORT_LOCK_THRESHOLD: i64 = 3;

/// Failures in a row from which a key is locked for a long while.
pub const LONG_LOCK_THRESHOLD: i64 = 5;

/// Length of the short lock, in seconds.
pub const SHORT_LOCK_SECONDS: i64 = 10;

/// Length of the long lock, in seconds.
pub const LONG_LOCK_SECONDS: i64 = 60;

/// The standing of one key: how often it failed in a row, and until when it is locked.
#[derive(Clone, Copy, Debug, PartialEq, Eq, Structural)]
pub struct LoginAttempt {
    /// Failed attempts in a row.
    pub fail_count: i64,
    /// When the lock ends, in seconds since the Unix epoch; `None` where there is no lock.
    pub blocked_until: Option<i64>,
}

/// The end of the lock that a number of failures in a row brings, if any.
pub open spec fn lock_after(fail_count: int, now: int) -> Option<int> {
    if fail_count >= LONG_LOCK_THRESHOLD {
        Some(now + LONG_LOCK_SECONDS)
    } else if fail_count >= SHORT_LOCK_THRESHOLD {
        Some(now + SHORT_LOCK_SECONDS)
    } else {
        None
    }
}

/// The standing of a key after one more failure at time `now`. The count stops at the
/// largest number that can be held, and a lock whose end cannot be counted ends at the
/// last moment that can.
pub open spec fn after_failure(previous: Option<LoginAttempt>, now: i64) -> LoginAttempt {
    let count: int = match previous {
        Some(record) => if record.fail_count < i64::MAX {
            record.fail_count + 1
        } else {
            i64::MAX as int
        },
        None => 1,
    };
    LoginAttempt {
        fail_count: count as i64,
        blocked_until: match lock_after(count, now as int) {
            Some(end) => Some(
                if end > i64::MAX {
                    i64::MAX
                } else {
                    end as i64
                },
            ),
            None => None,
        },
    }
}

/// How many seconds of lock are left at time `now`; `None` where the key is not locked.
pub open spec fn lockout_remaining(record: Option<LoginAttempt>, now: i64) -> Option<i64> {
    match record {
        Some(LoginAttempt { blocked_until: Some(end), .. }) => if end > now {
            Some(
                if end - now > i64::MAX {
                    i64::MAX
                } else {
                    (end - now) as i64
                },
            )
        } else {
            None
        },
        _ => None,
    }
}

fn lock_end(now: i64, length: i64) -> (end: i64)
    requires
        length >= 0,
    ensures
        end == (if now + length > i64::MAX {
            i64::MAX as int
        } else {
            now + length
        }),
{
    match now.checked_add(length) {
        Some(end) => end,
        None => i64::MAX,
    }
}

/// The standing of a key after one more failure at time `now`.
pub fn next_attempt(previous: Option<LoginAttempt>, now: i64) -> (next: LoginAttempt)
    ensures
        next == after_failure(previous, now),
{
    let count: i64 = match previous {
        Some(record) => if record.fail_count < i64::MAX {
            record.fail_count + 1
        } else {
            i64::MAX
        },
        None => 1,
    };
    let blocked_until = if count >= LONG_LOCK_THRESHOLD {
        Some(lock_end(now, LONG_LOCK_SECONDS))
    } else if count >= SHORT_LOCK_THRESHOLD {
        Some(lock_end(now, SHORT_LOCK_SECONDS))
    } else {
        None
    };
    LoginAttempt { fail_count: count, blocked_until }
}

/// How long a key is still locked at time `now`, in seconds.
pub fn remaining_lockout(record: Option<&LoginAttempt>, now: i64) -> (remaining: Option<i64>)
    ensures
        remaining == lockout_remaining(
            match record {
                Some(r) => Some(*r),
                None => None,
            },
            now,
        ),
{
    match record {
        Some(attempt) => match attempt.blocked_until {
            Some(end) => if end > now {
                match end.checked_sub(now) {
                    Some(left) => Some(left),
                    None => Some(i64::MAX),
                }
            } else {
                None
            },
            None => None,
        },
        None => None,
    }
}

/// The standing of every key that has failed since its last good login.
pub struct LoginAttemptTracker {
    records: Table<LoginAttempt>,
}

impl LoginAttemptTracker {
    /// The standing of each key.
    pub closed spec fn view(&self) -> Map<Seq<char>, LoginAttempt> {
        self.records@
    }

    /// No key is listed twice.
    pub closed spec fn wf(&self) -> bool {
        self.records.wf()
    }

    /// The standing of a key, if it has one.
    pub open spec fn standing(&self, key: Seq<char>) -> Option<LoginAttempt> {
        standing_in(self@, key)
    }

    /// A tracker in which no key has failed.
    pub fn new() -> (tracker: Self)
        ensures
            tracker.wf(),
            tracker@ == Map::<Seq<char>, LoginAttempt>::empty(),
    {
        LoginAttemptTracker { records: Table::new() }
    }

    /// The standing of a key; `None` where it has not failed since its last good login.
    pub fn get(&self, key: &str) -> (record: Option<LoginAttempt>)
        requires
            self.wf(),
        ensures
            record == self.standing(key@),
    {
        self.records.get(key)
    }

    /// Counts one more failure for a key at time `now` and sets the lock that the new
    /// count brings. Other keys are not touched.
    pub fn record_failure(&mut self, key: &str, now: i64)
        requires
            old(self).wf(),
        ensures
            final(self).wf(),
            final(self)@ == old(self)@.insert(key@, after_failure(old(self).standing(key@), now)),
    {
        let next = next_attempt(self.records.get(key), now);
        self.records.put(key, next);
    }

    /// Puts a standing read from storage back under its key. Other keys are not touched.
    pub fn restore(&mut self, key: &str, record: LoginAttempt)
        requires
            old(self).wf(),
        ensures
            final(self).wf(),
            final(self)@ == old(self)@.insert(key@, record),
    {
        self.records.put(key, record);
    }

    /// Forgets a key's failures after a good login. Other keys are not touched.
    pub fn clear(&mut self, key: &str)
        requires
            old(self).wf(),
        ensures
            final(self).wf(),
            final(self)@ == old(self)@.remove(key@),
    {
        self.records.remove(key);
    }
}

/// The standing of a key; `None` where it has not failed since its last good login.
pub fn get_login_attempt(tracker: &LoginAttemptTracker, key: &str) -> (record: Option<LoginAttempt>)
    requires
        tracker.wf(),
    ensures
        record == tracker.standing(key@),
{
    tracker.get(key)
}

/// Counts one more failure for a key at time `now` and sets the lock that the new count
/// brings.
pub fn record_failed_login(tracker: &mut LoginAttemptTracker, key: &str, now: i64)
    requires
        old(tracker).wf(),
    ensures
        final(tracker).wf(),
        final(tracker)@ == old(tracker)@.insert(key@, after_failure(old(tracker).standing(key@), now)),
{
    tracker.record_failure(key, now);
}

/// Forgets a key's failures after a good login.
pub fn clear_login_attempts(tracker: &mut LoginAttemptTracker, key: &str)
    requires
        old(tracker).wf(),
    ensures
        final(tracker).wf(),
        final(tracker)@ == old(tracker)@.remove(key@),
{
    tracker.clear(key);
}

/// The standing of a key after failures in a row at the given times.
pub open spec fn after_failures(start: Option<LoginAttempt>, times: Seq<i64>) -> Option<LoginAttempt>
    decreases times.len(),
{
    if times.len() == 0 {
        start
    } else {
        Some(after_failure(after_failures(start, times.drop_last()), times.last()))
    }
}

/// After failures in a row from a clean slate the count stands at their number.
pub proof fn lemma_failures_counted(times: Seq<i64>)
    requires
        times.len() <= i64::MAX,
    ensures
        times.len() > 0 ==> after_failures(None, times) is Some && after_failures(
            None,
            times,
        ).unwrap().fail_count == times.len(),
        times.len() == 0 ==> after_failures(None, times) is None,
    decreases times.len(),
{
    if times.len() > 0 {
        lemma_failures_counted(times.drop_last());
    }
}

/// Three or four failures in a row lock a key for ten seconds from the last of them:
/// any attempt before that is refused, with the seconds left to wait.
pub proof fn lemma_short_lockout(times: Seq<i64>, now: i64)
    requires
        SHORT_LOCK_THRESHOLD <= times.len() < LONG_LOCK_THRESHOLD,
        times.last() + SHORT_LOCK_SECONDS <= i64::MAX,
        times.last() <= now < times.last() + SHORT_LOCK_SECONDS,
    ensures
        lockout_remaining(after_failures(None, times), now) == Some(
            (times.last() + SHORT_LOCK_SECONDS - now) as i64,
        ),
        0 < times.last() + SHORT_LOCK_SECONDS - now <= SHORT_LOCK_SECONDS,
{
    lemma_failures_counted(times);
    lemma_failures_counted(times.drop_last());
}

/// Five or more failures in a row lock a key for sixty seconds from the last of them.
pub proof fn lemma_long_lockout(times: Seq<i64>, now: i64)
    requires
        LONG_LOCK_THRESHOLD <= times.len() <= i64::MAX,
        times.last() + LONG_LOCK_SECONDS <= i64::MAX,
        times.last() <= now < times.last() + LONG_LOCK_SECONDS,
    ensures
        lockout_remaining(after_failures(None, times), now) == Some(
            (times.last() + LONG_LOCK_SECONDS - now) as i64,
        ),
        0 < times.last() + LONG_LOCK_SECONDS - now <= LONG_LOCK_SECONDS,
{
    lemma_failures_counted(times);
    lemma_failures_counted(times.drop_last());
}

/// One or two failures in a row lock nothing.
pub proof fn lemma_no_lockout_below_three(times: Seq<i64>, now: i64)
    requires
        times.len() < SHORT_LOCK_THRESHOLD,
    ensures
        lockout_remaining(after_failures(None, times), now) is None,
{
    lemma_failures_counted(times);
    if times.len() > 0 {
        lemma_failures_counted(times.drop_last());
    }
}

/// The standing of a key among the standings of all keys.
pub open spec fn standing_in(standings: Map<Seq<char>, LoginAttempt>, key: Seq<char>) -> Option<
    LoginAttempt,
> {
    if standings.contains_key(key) {
        Some(standings[key])
    } else {
        None
    }
}

/// The standings after failures of one key recorded at the given times.
pub open spec fn with_failures(
    standings: Map<Seq<char>, LoginAttempt>,
    key: Seq<char>,
    times: Seq<i64>,
) -> Map<Seq<char>, LoginAttempt>
    decreases times.len(),
{
    if times.len() == 0 {
        standings
    } else {
        let before = with_failures(standings, key, times.drop_last());
        before.insert(key, after_failure(standing_in(before, key), times.last()))
    }
}

/// Recording failures of one key changes that key's standing as `after_failures` says
/// and leaves every other key alone.
pub proof fn lemma_recorded_failures(standings: Map<Seq<char>, LoginAttempt>, key: Seq<char>, times: Seq<i64>)
    ensures
        standing_in(with_failures(standings, key, times), key) == after_failures(
            standing_in(standings, key),
            times,
        ),
        forall|other: Seq<char>|
            other != key ==> #[trigger] standing_in(with_failures(standings, key, times), other)
                == standing_in(standings, other),
    decreases times.len(),
{
    if times.len() > 0 {
        lemma_recorded_failures(standings, key, times.drop_last());
        let before = with_failures(standings, key, times.drop_last());
        assert forall|other: Seq<char>| other != key implies #[trigger] standing_in(
            with_failures(standings, key, times),
            other,
        ) == standing_in(standings, other) by {
            assert(standing_in(before, other) == standing_in(standings, other));
        }
    }
}

/// The lockout as a client meets it. After a good login, or for a key that never
/// failed, three or four failures in a row get every attempt within ten seconds of the
/// last one refused, five or more get every attempt within sixty seconds refused, and
/// fewer than three get none refused, whatever the standing of the key was before the
/// good login.
pub proof fn lemma_lockout_after_reset(
    standings: Map<Seq<char>, LoginAttempt>,
    key: Seq<char>,
    times: Seq<i64>,
    now: i64,
)
    requires
        times.len() <= i64::MAX,
        times.len() > 0 ==> times.last() <= now && times.last() + LONG_LOCK_SECONDS <= i64::MAX,
    ensures
        ({
            let after = standing_in(with_failures(standings.remove(key), key, times), key);
            &&& times.len() < SHORT_LOCK_THRESHOLD ==> lockout_remaining(after, now) is None
            &&& SHORT_LOCK_THRESHOLD <= times.len() < LONG_LOCK_THRESHOLD ==> (lockout_remaining(after, now)
                is Some <==> now < times.last() + SHORT_LOCK_SECONDS)
            &&& LONG_LOCK_THRESHOLD <= times.len() ==> (lockout_remaining(after, now) is Some <==> now
                < times.last() + LONG_LOCK_SECONDS)
            &&& lockout_remaining(after, now) is Some ==> 0 < lockout_remaining(after, now).unwrap()
                <= LONG_LOCK_SECONDS
        }),
{
    lemma_recorded_failures(standings.remove(key), key, times);
    lemma_failures_counted(times);
    if times.len() > 0 {
        lemma_failures_counted(times.drop_last());
    }
}

/// A lock ends: from the moment it runs out, the key is no longer refused.
pub proof fn lemma_lockout_ends(record: LoginAttempt, now: i64)
    requires
        record.blocked_until is Some ==> record.blocked_until.unwrap() <= now,
    ensures
        lockout_remaining(Some(record), now) is None,
{
}

/// A good login resets a key: whatever its standing was, after `clear` it has none, it
/// is not locked, and its next failure counts as the first.
pub proof fn lemma_success_resets(standings: Map<Seq<char>, LoginAttempt>, key: Seq<char>, now: i64)
    ensures
        !standings.remove(key).contains_key(key),
        lockout_remaining(None, now) is None,
        after_failure(None, now).fail_count == 1,
        after_failure(None, now).blocked_until is None,
{
}

} // verus!
