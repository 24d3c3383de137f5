//! Decisions of the retention sweeper: which entries of the storage root a
//! pass evicts, and how long it rests between passes.
use vstd::prelude::*;

verus! {

/// Whether an entry last accessed at `accessed` (seconds since the epoch;
/// `None` when unreadable) is evicted by a pass at `now`: an unreadable or
/// future timestamp is not trusted, and otherwise the entry goes once it has
/// been idle for at least `ttl` seconds.
pub open spec fn evictable(now: u64, accessed: Option<u64>, ttl: u64) -> bool {
    match accessed {
        None => true,
        Some(a) => a > now || now - a >= ttl,
    }
}

/// Whether a pass at `now` evicts an entry last accessed at `accessed`.
pub fn should_evict(now: u64, accessed: Option<u64>, ttl: u64) -> (r: bool)
    ensures
        r == evictable(now, accessed, ttl),
{
    match accessed {
        None => true,
        Some(a) => a > now || now - a >= ttl,
    }
}

/// One entry of the storage root as a pass sees it.
pub struct SweepEntry {
    pub name: String,
    /// Last access, in seconds since the epoch; `None` when unreadable.
    pub accessed: Option<u64>,
}

/// The names a pass at `now` evicts, in listing order.
pub open spec fn evicted_names(entries: Seq<SweepEntry>, now: u64, ttl: u64) -> Seq<Seq<char>>
    decreases entries.len(),
{
    if entries.len() == 0 {
        Seq::empty()
    } else {
        let rest = evicted_names(entries.drop_last(), now, ttl);
        if evictable(now, entries.last().accessed, ttl) {
            rest.push(entries.last().name@)
        } else {
            rest
        }
    }
}

/// The names of the entries that a pass at `now` deletes.
pub fn plan_sweep(entries: &Vec<SweepEntry>, now: u64, ttl: u64) -> (r: Vec<String>)
    ensures
        r@.map_values(|s: String| s@) == evicted_names(entries@, now, ttl),
{
    let mut r: Vec<String> = Vec::new();
    let mut i: usize = 0;
    while i < entries.len()
        invariant
            i <= entries@.len(),
            r@.map_values(|s: String| s@) == evicted_names(entries@.take(i as int), now, ttl),
        decreases entries@.len() - i,
    {
        let e = &entries[i];
        assert(entries@.take(i as int + 1).drop_last() =~= entries@.take(i as int));
        if should_evict(now, e.accessed, ttl) {
            let ghost before = r@;
            r.push(e.name.clone());
            assert(r@.map_values(|s: String| s@) =~= before.map_values(|s: String| s@).push(
                e.name@,
            ));
        }
        i = i + 1;
    }
    assert(entries@.take(entries@.len() as int) =~= entries@);
    r
}

/// Seconds kept back from the retention window when resting between passes.
pub const PAUSE_MARGIN_SECS: u64 = 3;

/// How long the sweeper rests between passes: a few seconds under the
/// retention window, and never negative.
pub fn pause_secs(ttl: u64) -> (r: u64)
    ensures
        r == if ttl >= PAUSE_MARGIN_SECS { ttl - PAUSE_MARGIN_SECS } else { 0 },
{
    if ttl >= PAUSE_MARGIN_SECS {
        ttl - PAUSE_MARGIN_SECS
    } else {
        0
    }
}

/// Whether `name` is the name of an entry that a pass at `now` evicts.
pub open spec fn names_evictable_entry(entries: Seq<SweepEntry>, now: u64, ttl: u64, name: Seq<char>) -> bool {
    exists|k: int|
        0 <= k < entries.len() && evictable(now, #[trigger] entries[k].accessed, ttl)
            && entries[k].name@ == name
}

/// A pass deletes exactly the entries it finds evictable: the name of each
/// evictable entry is among those planned, and each planned name is that of
/// an evictable entry.
pub proof fn law_sweep_evicts_exactly_the_evictable(entries: Seq<SweepEntry>, now: u64, ttl: u64)
    ensures
        forall|k: int|
            0 <= k < entries.len() && evictable(now, #[trigger] entries[k].accessed, ttl)
                ==> evicted_names(entries, now, ttl).contains(entries[k].name@),
        forall|m: int|
            #![trigger evicted_names(entries, now, ttl)[m]]
            0 <= m < evicted_names(entries, now, ttl).len() ==> names_evictable_entry(
                entries,
                now,
                ttl,
                evicted_names(entries, now, ttl)[m],
            ),
    decreases entries.len(),
{
    if entries.len() > 0 {
        let init = entries.drop_last();
        law_sweep_evicts_exactly_the_evictable(init, now, ttl);
        let rest = evicted_names(init, now, ttl);
        assert forall|k: int|
            0 <= k < entries.len() && evictable(now, #[trigger] entries[k].accessed, ttl)
                implies evicted_names(entries, now, ttl).contains(entries[k].name@) by {
            if k < entries.len() - 1 {
                assert(init[k] == entries[k]);
                let j = choose|j: int| 0 <= j < rest.len() && rest[j] == entries[k].name@;
                assert(evicted_names(entries, now, ttl)[j] == rest[j]);
            } else {
                assert(evicted_names(entries, now, ttl)[evicted_names(entries, now, ttl).len() - 1] == entries[k].name@);
            }
        }
        assert forall|m: int| #![trigger evicted_names(entries, now, ttl)[m]] 0 <= m < evicted_names(entries, now, ttl).len() implies names_evictable_entry(entries, now, ttl, evicted_names(entries, now, ttl)[m]) by {
            if m < rest.len() {
                assert(evicted_names(entries, now, ttl)[m] == rest[m]);
                assert(0 <= m < rest.len());
                assert(names_evictable_entry(init, now, ttl, rest[m]));
                let k = choose|k: int|
                    0 <= k < init.len() && evictable(now, #[trigger] init[k].accessed, ttl)
                        && init[k].name@ == rest[m];
                assert(entries[k] == init[k]);
                assert(0 <= k < entries.len() && evictable(now, entries[k].accessed, ttl)
                    && entries[k].name@ == evicted_names(entries, now, ttl)[m]);
            } else {
                let k = entries.len() - 1;
                assert(evictable(now, entries.last().accessed, ttl));
                assert(evicted_names(entries, now, ttl) == rest.push(entries.last().name@));
                assert(evicted_names(entries, now, ttl)[m] == entries[k].name@);
                assert(evictable(now, entries[k].accessed, ttl));
                assert(0 <= k < entries.len() && evictable(now, entries[k].accessed, ttl)
                    && entries[k].name@ == evicted_names(entries, now, ttl)[m]);
            }
        }
    } else {
        assert(evicted_names(entries, now, ttl).len() == 0);
    }
}

/// An entry last accessed one second more than the retention window ago is
/// evicted; one accessed ten seconds less than the window ago is kept.
pub proof fn law_eviction_boundary(now: u64, ttl: u64)
    requires
        ttl >= 10,
        now >= ttl + 1,
    ensures
        evictable(now, Some((now - ttl - 1) as u64), ttl),
        !evictable(now, Some((now - ttl + 10) as u64), ttl),
{
}

/// Access refreshes an entry: once accessed at `t`, it survives every pass
/// before `t + ttl` and is evicted by the first pass after it has been idle
/// for the whole window.
pub proof fn law_access_refreshes(t: u64, now: u64, ttl: u64)
    requires
        t <= now,
    ensures
        now < t + ttl ==> !evictable(now, Some(t), ttl),
        now >= t + ttl ==> evictable(now, Some(t), ttl),
{
}

} // verus!
