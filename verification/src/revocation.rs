//! Tokens revoked at logout. A revoked token is refused although its signature is good
//! and its expiry not yet passed; once that expiry has passed the entry is of no use
//! and may be dropped.

use vstd::prelude::*;

use crate::table::Table;

verus! {

/// The revoked tokens, each with the time at which it would have expired anyway.
pub struct RevocationStore {
    entries: Table<i64>,
}

/// The map with a token revoked. A token that is revoked already keeps its entry.
pub open spec fn with_revoked(revoked: Map<Seq<char>, i64>, token: Seq<char>, expires_at: i64) -> Map<
    Seq<char>,
    i64,
> {
    if revoked.contains_key(token) {
        revoked
    } else {
        revoked.insert(token, expires_at)
    }
}

/// The entries that are still of use at time `now`: those whose expiry has not passed.
pub open spec fn unexpired(revoked: Map<Seq<char>, i64>, now: i64) -> Map<Seq<char>, i64> {
    Map::new(
        |token: Seq<char>| revoked.contains_key(token) && revoked[token] >= now,
        |token: Seq<char>| revoked[token],
    )
}

impl RevocationStore {
    /// The revoked tokens, each with its expiry.
    pub closed spec fn view(&self) -> Map<Seq<char>, i64> {
        self.entries@
    }

    /// No token is listed twice.
    pub closed spec fn wf(&self) -> bool {
        self.entries.wf()
    }

    /// A store without revoked tokens.
    pub fn new() -> (store: Self)
        ensures
            store.wf(),
            store@ == Map::<Seq<char>, i64>::empty(),
    {
        RevocationStore { entries: Table::new() }
    }

    /// Revokes a token until its natural expiry. Revoking it again changes nothing.
    pub fn blacklist(&mut self, token: &str, expires_at: i64)
        requires
            old(self).wf(),
        ensures
            final(self).wf(),
            final(self)@ == with_revoked(old(self)@, token@, expires_at),
            final(self)@.contains_key(token@),
    {
        if self.entries.get(token).is_none() {
            self.entries.put(token, expires_at);
        }
    }

    /// Whether a token has been revoked.
    pub fn is_blacklisted(&self, token: &str) -> (revoked: bool)
        requires
            self.wf(),
        ensures
            revoked == self@.contains_key(token@),
    {
        self.entries.get(token).is_some()
    }

    /// Drops the entries whose expiry has passed at time `now`. Entries that have not
    /// expired stay as they are.
    pub fn cleanup(&mut self, now: i64)
        requires
            old(self).wf(),
        ensures
            final(self).wf(),
            final(self)@ == unexpired(old(self)@, now),
    {
        let ghost before = self@;
        let mut i: usize = 0;
        while i < self.entries.len()
            invariant
                self.entries.wf(),
                i <= self.entries.count(),
                forall|k: int| 0 <= k < i ==> #[trigger] self.entries.value_at(k) >= now,
                forall|token: Seq<char>|
                    #[trigger] self.entries@.contains_key(token) ==> before.contains_key(token)
                        && before[token] == self.entries@[token],
                forall|token: Seq<char>|
                    #[trigger] before.contains_key(token) && before[token] >= now
                        ==> self.entries@.contains_key(token),
            decreases self.entries.count() - i,
        {
            if self.entries.value(i) < now {
                proof {
                    self.entries.lemma_entry(i as int);
                }
                self.entries.remove_at(i);
            } else {
                i += 1;
            }
        }
        proof {
            assert forall|token: Seq<char>| #[trigger] self.entries@.contains_key(token) implies before[token]
                >= now by {
                let p = self.entries.position(token);
                assert(self.entries.has(token));
                self.entries.lemma_entry(p);
            }
            assert(self@ =~= unexpired(before, now));
        }
    }
}

/// Revokes a token until its natural expiry. Revoking it again changes nothing.
pub fn blacklist_token(store: &mut RevocationStore, token: &str, expires_at: i64)
    requires
        old(store).wf(),
    ensures
        final(store).wf(),
        final(store)@ == with_revoked(old(store)@, token@, expires_at),
        final(store)@.contains_key(token@),
{
    store.blacklist(token, expires_at);
}

/// Whether a token has been revoked.
pub fn is_token_blacklisted(store: &RevocationStore, token: &str) -> (revoked: bool)
    requires
        store.wf(),
    ensures
        revoked == store@.contains_key(token@),
{
    store.is_blacklisted(token)
}

/// Whether the opportunistic cleanup runs for a given sample: about once in a hundred.
pub fn cleanup_due(sample: u32) -> (due: bool)
    ensures
        due == (sample % 100 == 0),
{
    sample % 100 == 0
}

/// Revoking a token twice leaves the store as revoking it once does, and the token
/// stays revoked.
pub proof fn lemma_blacklist_idempotent(revoked: Map<Seq<char>, i64>, token: Seq<char>, expires_at: i64)
    ensures
        with_revoked(with_revoked(revoked, token, expires_at), token, expires_at) == with_revoked(
            revoked,
            token,
            expires_at,
        ),
        with_revoked(revoked, token, expires_at).contains_key(token),
{
}

/// Revoking one token never brings another back: whatever was revoked stays revoked.
pub proof fn lemma_blacklist_keeps_others(
    revoked: Map<Seq<char>, i64>,
    token: Seq<char>,
    expires_at: i64,
    other: Seq<char>,
)
    requires
        revoked.contains_key(other),
    ensures
        with_revoked(revoked, token, expires_at).contains_key(other),
        with_revoked(revoked, token, expires_at)[other] == revoked[other],
{
}

/// Cleanup drops no entry whose expiry has not passed.
pub proof fn lemma_cleanup_keeps_live(revoked: Map<Seq<char>, i64>, now: i64, token: Seq<char>)
    requires
        revoked.contains_key(token),
        revoked[token] >= now,
    ensures
        unexpired(revoked, now).contains_key(token),
{
}

} // verus!
