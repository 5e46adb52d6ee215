//! Per-(place, user) cooldown records.
//!
//! Each record maps a (place, user) pair to the next timestamp at which
//! that user may paint on that place. The store mirrors the durable
//! cooldown table; the hosting process writes successful updates through
//! to storage.

use vstd::prelude::*;

verus! {

/// (place_id, user_id, next-allowed-timestamp)
pub struct CooldownStore {
    pub records: Vec<(i64, i64, i64)>,
}

/// Does the record at `i` carry the key (p, u)?
pub open spec fn key_at(s: Seq<(i64, i64, i64)>, i: int, p: i64, u: i64) -> bool {
    s[i].0 == p && s[i].1 == u
}

/// The next-allowed-timestamp recorded for (p, u), if any.
pub open spec fn spec_lookup(s: Seq<(i64, i64, i64)>, p: i64, u: i64) -> Option<i64>
    decreases s.len(),
{
    if s.len() == 0 {
        None
    } else if s.last().0 == p && s.last().1 == u {
        Some(s.last().2)
    } else {
        spec_lookup(s.drop_last(), p, u)
    }
}

/// A user is clear to paint when no record holds a future timestamp.
pub open spec fn cooldown_ready(s: Seq<(i64, i64, i64)>, p: i64, u: i64, now: i64) -> bool {
    match spec_lookup(s, p, u) {
        None => true,
        Some(expiry) => expiry <= now,
    }
}

/// Keys are unique and expiries never lie before the epoch.
pub open spec fn store_wf(s: Seq<(i64, i64, i64)>) -> bool {
    &&& forall|i: int, j: int|
        0 <= i < s.len() && 0 <= j < s.len() && i != j
            ==> !(#[trigger] s[i].0 == #[trigger] s[j].0 && s[i].1 == s[j].1)
    &&& forall|i: int| 0 <= i < s.len() ==> #[trigger] s[i].2 >= 0
}

/// With unique keys, a matching record decides the lookup.
pub proof fn lemma_lookup_found(s: Seq<(i64, i64, i64)>, p: i64, u: i64, i: int)
    requires
        store_wf(s),
        0 <= i < s.len(),
        key_at(s, i, p, u),
    ensures
        spec_lookup(s, p, u) == Some(s[i].2),
    decreases s.len(),
{
    if s.last().0 == p && s.last().1 == u {
        assert(i == s.len() - 1);
    } else {
        assert(i < s.len() - 1);
        assert(store_wf(s.drop_last()));
        lemma_lookup_found(s.drop_last(), p, u, i);
    }
}

/// With no matching record, the lookup is empty.
pub proof fn lemma_lookup_missing(s: Seq<(i64, i64, i64)>, p: i64, u: i64)
    requires
        forall|i: int| 0 <= i < s.len() ==> !key_at(s, i, p, u),
    ensures
        spec_lookup(s, p, u) is None,
    decreases s.len(),
{
    if s.len() > 0 {
        assert(!key_at(s, s.len() - 1, p, u));
        assert forall|i: int| 0 <= i < s.drop_last().len()
            implies !key_at(s.drop_last(), i, p, u) by {
            assert(s.drop_last()[i] == s[i]);
            assert(!key_at(s, i, p, u));
        }
        lemma_lookup_missing(s.drop_last(), p, u);
    }
}

impl CooldownStore {
    pub open spec fn wf(&self) -> bool {
        store_wf(self.records@)
    }

    /// An empty store: every user is clear to paint everywhere.
    pub fn new() -> (r: CooldownStore)
        ensures
            r.wf(),
            r.records@.len() == 0,
    {
        CooldownStore { records: Vec::new() }
    }

    /// The next-allowed-timestamp recorded for (place_id, user_id).
    pub fn get(&self, place_id: i64, user_id: i64) -> (r: Option<i64>)
        requires
            self.wf(),
        ensures
            r == spec_lookup(self.records@, place_id, user_id),
            r matches Some(e) ==> e >= 0,
    {
        let n = self.records.len();
        let mut i: usize = 0;
        while i < n
            invariant
                self.wf(),
                n == self.records@.len(),
                i <= n,
                forall|j: int| 0 <= j < i ==> !key_at(self.records@, j, place_id, user_id),
            decreases n - i,
        {
            let rec = self.records[i];
            if rec.0 == place_id && rec.1 == user_id {
                proof {
                    lemma_lookup_found(self.records@, place_id, user_id, i as int);
                }
                return Some(rec.2);
            }
            i = i + 1;
        }
        proof {
            lemma_lookup_missing(self.records@, place_id, user_id);
        }
        None
    }

    /// Records that (place_id, user_id) may next paint at `expiry`,
    /// replacing any earlier record for the pair and touching no other.
    pub fn set(&mut self, place_id: i64, user_id: i64, expiry: i64)
        requires
            old(self).wf(),
            expiry >= 0,
        ensures
            final(self).wf(),
            spec_lookup(final(self).records@, place_id, user_id) == Some(expiry),
            forall|p2: i64, u2: i64|
                !(p2 == place_id && u2 == user_id)
                    ==> #[trigger] spec_lookup(final(self).records@, p2, u2)
                        == spec_lookup(old(self).records@, p2, u2),
    {
        let ghost s0 = self.records@;
        let n = self.records.len();
        let mut i: usize = 0;
        while i < n
            invariant
                self.records@ == s0,
                s0 == old(self).records@,
                store_wf(s0),
                n == s0.len(),
                i <= n,
                expiry >= 0,
                forall|j: int| 0 <= j < i ==> !key_at(s0, j, place_id, user_id),
            decreases n - i,
        {
            let rec = self.records[i];
            if rec.0 == place_id && rec.1 == user_id {
                self.records.remove(i);
                self.records.push((place_id, user_id, expiry));
                proof {
                    lemma_upsert_at(s0, self.records@, i as int, place_id, user_id, expiry);
                }
                return;
            }
            i = i + 1;
        }
        self.records.push((place_id, user_id, expiry));
        proof {
            let s1 = self.records@;
            assert(s1.last() == (place_id, user_id, expiry));
            assert(s1.drop_last() =~= s0);
            assert forall|p2: i64, u2: i64| !(p2 == place_id && u2 == user_id)
                implies #[trigger] spec_lookup(s1, p2, u2) == spec_lookup(s0, p2, u2) by {
                assert(!(s1.last().0 == p2 && s1.last().1 == u2));
                assert(spec_lookup(s1, p2, u2) == spec_lookup(s1.drop_last(), p2, u2));
            }
            assert forall|a: int, b: int|
                0 <= a < s1.len() && 0 <= b < s1.len() && a != b
                    implies !(#[trigger] s1[a].0 == #[trigger] s1[b].0 && s1[a].1 == s1[b].1) by {
                if a < s1.len() - 1 && b < s1.len() - 1 {
                    assert(s1[a] == s0[a]);
                    assert(s1[b] == s0[b]);
                } else {
                    let c = if a < s1.len() - 1 { a } else { b };
                    assert(s1[c] == s0[c]);
                    assert(!key_at(s0, c, place_id, user_id));
                }
            }
            assert forall|j: int| 0 <= j < s1.len() implies #[trigger] s1[j].2 >= 0 by {
                if j < s1.len() - 1 {
                    assert(s1[j] == s0[j]);
                }
            }
            assert(store_wf(s1));
        }
    }
}

/// Removing the old record for a key and appending a fresh one preserves
/// every other key's lookup and keeps the store well formed.
proof fn lemma_upsert_at(
    s0: Seq<(i64, i64, i64)>,
    s1: Seq<(i64, i64, i64)>,
    i: int,
    p: i64,
    u: i64,
    e: i64,
)
    requires
        store_wf(s0),
        0 <= i < s0.len(),
        key_at(s0, i, p, u),
        e >= 0,
        s1 == s0.remove(i).push((p, u, e)),
    ensures
        store_wf(s1),
        spec_lookup(s1, p, u) == Some(e),
        forall|p2: i64, u2: i64|
            !(p2 == p && u2 == u)
                ==> #[trigger] spec_lookup(s1, p2, u2) == spec_lookup(s0, p2, u2),
{
    let sr = s0.remove(i);
    assert forall|a: int, b: int|
        0 <= a < s1.len() && 0 <= b < s1.len() && a != b
            implies !(#[trigger] s1[a].0 == #[trigger] s1[b].0 && s1[a].1 == s1[b].1) by {
        if a < s1.len() - 1 && b < s1.len() - 1 {
            let a0 = if a < i { a } else { a + 1 };
            let b0 = if b < i { b } else { b + 1 };
            assert(s1[a] == s0[a0]);
            assert(s1[b] == s0[b0]);
        } else {
            let c = if a < s1.len() - 1 { a } else { b };
            if c < s1.len() - 1 {
                let c0 = if c < i { c } else { c + 1 };
                assert(s1[c] == s0[c0]);
                assert(c0 != i);
                assert(!(s0[c0].0 == s0[i].0 && s0[c0].1 == s0[i].1));
            }
        }
    }
    assert forall|j: int| 0 <= j < s1.len() implies #[trigger] s1[j].2 >= 0 by {
        if j < s1.len() - 1 {
            let j0 = if j < i { j } else { j + 1 };
            assert(s1[j] == s0[j0]);
        }
    }
    assert(key_at(s1, s1.len() - 1, p, u));
    lemma_lookup_found(s1, p, u, s1.len() - 1);
    assert forall|p2: i64, u2: i64| !(p2 == p && u2 == u)
        implies #[trigger] spec_lookup(s1, p2, u2) == spec_lookup(s0, p2, u2) by {
        if exists|j: int| 0 <= j < s0.len() && key_at(s0, j, p2, u2) {
            let j = choose|j: int| 0 <= j < s0.len() && key_at(s0, j, p2, u2);
            lemma_lookup_found(s0, p2, u2, j);
            assert(j != i);
            let j1 = if j < i { j } else { j - 1 };
            assert(sr[j1] == s0[j]);
            assert(s1[j1] == s0[j]);
            lemma_lookup_found(s1, p2, u2, j1);
        } else {
            assert(forall|j: int| 0 <= j < s0.len() ==> !key_at(s0, j, p2, u2));
            lemma_lookup_missing(s0, p2, u2);
            assert forall|j: int| 0 <= j < s1.len() implies !key_at(s1, j, p2, u2) by {
                if j < s1.len() - 1 {
                    let j0 = if j < i { j } else { j + 1 };
                    assert(s1[j] == s0[j0]);
                    assert(!key_at(s0, j0, p2, u2));
                } else {
                    assert(s1[j] == (p, u, e));
                }
            }
            lemma_lookup_missing(s1, p2, u2);
        }
    }
}

} // verus!
