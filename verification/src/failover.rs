//! Provider cooldowns for failover: a provider that failed is passed over
//! for a while, and a success clears it at once.
//!
//! The table lives in memory only; the time is handed in by the caller.

use vstd::prelude::*;
use crate::json::str_eq;

verus! {

/// How long a failed provider cools down, in seconds.
pub const PROVIDER_COOLDOWN_SECS: i64 = 60;

/// When each cooling provider may be tried again (Unix seconds), at most one
/// entry per provider.
pub struct ProviderCooldowns {
    pub entries: Vec<(String, i64)>,
}

/// The table as a map from provider id to expiry.
pub open spec fn cooldown_map(entries: Seq<(String, i64)>) -> Map<Seq<char>, i64>
    decreases entries.len(),
{
    if entries.len() == 0 {
        Map::empty()
    } else {
        cooldown_map(entries.drop_last()).insert(entries.last().0@, entries.last().1)
    }
}

/// No provider occurs twice.
pub open spec fn keys_unique(entries: Seq<(String, i64)>) -> bool {
    forall|i: int, j: int|
        0 <= i < j < entries.len() ==> #[trigger] entries[i].0@ != #[trigger] entries[j].0@
}

impl View for ProviderCooldowns {
    type V = Map<Seq<char>, i64>;

    open spec fn view(&self) -> Map<Seq<char>, i64> {
        cooldown_map(self.entries@)
    }
}

/// Whether a provider is cooling at `now`: its expiry lies after `now`.
pub open spec fn cooling_spec(m: Map<Seq<char>, i64>, provider: Seq<char>, now: i64) -> bool {
    m.contains_key(provider) && m[provider] > now
}

proof fn lemma_map_has(entries: Seq<(String, i64)>, i: int)
    requires
        keys_unique(entries),
        0 <= i < entries.len(),
    ensures
        cooldown_map(entries).contains_key(entries[i].0@),
        cooldown_map(entries)[entries[i].0@] == entries[i].1,
    decreases entries.len(),
{
    if i < entries.len() - 1 {
        lemma_map_has(entries.drop_last(), i);
    }
}

proof fn lemma_map_lacks(entries: Seq<(String, i64)>, k: Seq<char>)
    requires
        forall|i: int| 0 <= i < entries.len() ==> #[trigger] entries[i].0@ != k,
    ensures
        !cooldown_map(entries).contains_key(k),
    decreases entries.len(),
{
    if entries.len() > 0 {
        lemma_map_lacks(entries.drop_last(), k);
    }
}

proof fn lemma_map_domain(entries: Seq<(String, i64)>, k: Seq<char>)
    requires
        cooldown_map(entries).contains_key(k),
    ensures
        exists|i: int| 0 <= i < entries.len() && #[trigger] entries[i].0@ == k,
    decreases entries.len(),
{
    if entries.last().0@ != k {
        lemma_map_domain(entries.drop_last(), k);
        let i = choose|i: int| 0 <= i < entries.drop_last().len() && #[trigger] entries.drop_last()[i].0@ == k;
        assert(entries[i].0@ == k);
    }
}

proof fn lemma_remove_at(entries: Seq<(String, i64)>, i: int)
    requires
        keys_unique(entries),
        0 <= i < entries.len(),
    ensures
        keys_unique(entries.remove(i)),
        cooldown_map(entries.remove(i)) == cooldown_map(entries).remove(entries[i].0@),
{
    let r = entries.remove(i);
    let k = entries[i].0@;
    assert forall|a: int, b: int| 0 <= a < b < r.len() implies #[trigger] r[a].0@ != #[trigger] r[b].0@ by {
        let a2 = if a < i { a } else { a + 1 };
        let b2 = if b < i { b } else { b + 1 };
        assert(r[a] == entries[a2]);
        assert(r[b] == entries[b2]);
    }
    assert forall|key: Seq<char>| #[trigger] cooldown_map(r).contains_key(key) <==> cooldown_map(
        entries,
    ).remove(k).contains_key(key) by {
        if cooldown_map(r).contains_key(key) {
            lemma_map_domain(r, key);
            let j = choose|j: int| 0 <= j < r.len() && #[trigger] r[j].0@ == key;
            let j2 = if j < i { j } else { j + 1 };
            assert(r[j] == entries[j2]);
            lemma_map_has(entries, j2);
        }
        if cooldown_map(entries).remove(k).contains_key(key) {
            lemma_map_domain(entries, key);
            let j = choose|j: int| 0 <= j < entries.len() && #[trigger] entries[j].0@ == key;
            assert(j != i);
            let j2 = if j < i { j } else { j - 1 };
            assert(r[j2] == entries[j]);
            lemma_map_has(r, j2);
        }
    }
    assert forall|key: Seq<char>| #[trigger] cooldown_map(r).contains_key(key) implies cooldown_map(r)[key]
        == cooldown_map(entries).remove(k)[key] by {
        lemma_map_domain(r, key);
        let j = choose|j: int| 0 <= j < r.len() && #[trigger] r[j].0@ == key;
        let j2 = if j < i { j } else { j + 1 };
        assert(r[j] == entries[j2]);
        lemma_map_has(r, j);
        lemma_map_has(entries, j2);
    }
    assert(cooldown_map(r) =~= cooldown_map(entries).remove(k));
}

impl ProviderCooldowns {
    pub fn new() -> (r: ProviderCooldowns)
        ensures
            r@ == Map::<Seq<char>, i64>::empty(),
            keys_unique(r.entries@),
    {
        ProviderCooldowns { entries: Vec::new() }
    }

    fn find(&self, provider_id: &str) -> (r: Option<usize>)
        requires
            keys_unique(self.entries@),
        ensures
            match r {
                Some(i) => i < self.entries@.len() && self.entries@[i as int].0@ == provider_id@,
                None => forall|i: int| 0 <= i < self.entries@.len() ==> #[trigger] self.entries@[i].0@ != provider_id@,
            },
    {
        let mut i: usize = 0;
        while i < self.entries.len()
            invariant
                i <= self.entries@.len(),
                forall|j: int| 0 <= j < i ==> #[trigger] self.entries@[j].0@ != provider_id@,
            decreases self.entries@.len() - i,
        {
            if str_eq(self.entries[i].0.as_str(), provider_id) {
                return Some(i);
            }
            i = i + 1;
        }
        None
    }

    /// Removes a provider from the table: it is no longer cooling.
    pub fn mark_provider_ok(&mut self, provider_id: &str)
        requires
            keys_unique(old(self).entries@),
        ensures
            keys_unique(final(self).entries@),
            final(self)@ == old(self)@.remove(provider_id@),
    {
        match self.find(provider_id) {
            Some(i) => {
                proof {
                    lemma_remove_at(self.entries@, i as int);
                }
                self.entries.remove(i);
            },
            None => {
                proof {
                    lemma_map_lacks(self.entries@, provider_id@);
                    assert(self@ =~= self@.remove(provider_id@));
                }
            },
        }
    }

    /// Sets a provider to cool down until `now + PROVIDER_COOLDOWN_SECS`.
    pub fn mark_provider_failed(&mut self, provider_id: &str, now: i64)
        requires
            keys_unique(old(self).entries@),
            now <= i64::MAX - PROVIDER_COOLDOWN_SECS,
        ensures
            keys_unique(final(self).entries@),
            final(self)@ == old(self)@.insert(provider_id@, (now + PROVIDER_COOLDOWN_SECS) as i64),
    {
        self.mark_provider_ok(provider_id);
        let ghost before = self.entries@;
        proof {
            lemma_map_lacks_after_remove(before, provider_id@);
        }
        self.entries.push((provider_id.to_owned(), (now + PROVIDER_COOLDOWN_SECS) as i64));
        proof {
            assert(self.entries@.drop_last() =~= before);
            assert forall|i: int, j: int| 0 <= i < j < self.entries@.len() implies #[trigger] self.entries@[i].0@
                != #[trigger] self.entries@[j].0@ by {
                if j == self.entries@.len() - 1 {
                    assert(self.entries@[i] == before[i]);
                }
            }
            assert(self@ =~= old(self)@.insert(provider_id@, (now + PROVIDER_COOLDOWN_SECS) as i64));
        }
    }

    /// Whether a provider is cooling at `now`.
    pub fn is_provider_cooling(&self, provider_id: &str, now: i64) -> (r: bool)
        requires
            keys_unique(self.entries@),
        ensures
            r == cooling_spec(self@, provider_id@, now),
    {
        match self.find(provider_id) {
            Some(i) => {
                proof {
                    lemma_map_has(self.entries@, i as int);
                }
                self.entries[i].1 > now
            },
            None => {
                proof {
                    lemma_map_lacks(self.entries@, provider_id@);
                }
                false
            },
        }
    }

    /// Empties the table.
    pub fn clear_cooldowns(&mut self)
        ensures
            final(self)@ == Map::<Seq<char>, i64>::empty(),
            keys_unique(final(self).entries@),
    {
        self.entries = Vec::new();
    }
}

proof fn lemma_map_lacks_after_remove(entries: Seq<(String, i64)>, k: Seq<char>)
    requires
        !cooldown_map(entries).contains_key(k),
    ensures
        forall|i: int| 0 <= i < entries.len() ==> #[trigger] entries[i].0@ != k,
{
    assert forall|i: int| 0 <= i < entries.len() implies #[trigger] entries[i].0@ != k by {
        if entries[i].0@ == k {
            lemma_map_has_any(entries, i);
        }
    }
}

proof fn lemma_map_has_any(entries: Seq<(String, i64)>, i: int)
    requires
        0 <= i < entries.len(),
    ensures
        cooldown_map(entries).contains_key(entries[i].0@),
    decreases entries.len(),
{
    if i < entries.len() - 1 {
        lemma_map_has_any(entries.drop_last(), i);
    }
}

/// A failure cools the provider for the whole cooldown, and only that
/// provider: another provider's state is unchanged.
pub proof fn law_failure_cools_only_that_provider(
    m: Map<Seq<char>, i64>,
    p: Seq<char>,
    q: Seq<char>,
    now: i64,
    t: i64,
)
    requires
        now <= i64::MAX - PROVIDER_COOLDOWN_SECS,
    ensures
        now <= t < now + PROVIDER_COOLDOWN_SECS ==> cooling_spec(
            m.insert(p, (now + PROVIDER_COOLDOWN_SECS) as i64),
            p,
            t,
        ),
        t >= now + PROVIDER_COOLDOWN_SECS ==> !cooling_spec(
            m.insert(p, (now + PROVIDER_COOLDOWN_SECS) as i64),
            p,
            t,
        ),
        q != p ==> cooling_spec(m.insert(p, (now + PROVIDER_COOLDOWN_SECS) as i64), q, t) == cooling_spec(
            m,
            q,
            t,
        ),
{
}

/// A success ends the cooldown at once, whatever came before.
pub proof fn law_success_clears(m: Map<Seq<char>, i64>, p: Seq<char>, t: i64)
    ensures
        !cooling_spec(m.remove(p), p, t),
{
}

} // verus!
