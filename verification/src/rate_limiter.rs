//! A sliding-window (fixed-window-per-entry) rate limiter keyed by
//! source address. Time enters as a caller-supplied monotonic second
//! count, so every rule about counting and expiry is verified.
use vstd::prelude::*;
use crate::{MAX_REQUEST_PER_MINUTE, STALE_ENTRY_SECS};

verus! {

/// One address's record: how many requests arrived in its current
/// window, and when the window was last refreshed.
pub struct RateEntry {
    pub addr: String,
    pub count: u8,
    pub last_seen: u64,
}

/// Whether a record last refreshed at `last_seen` still counts at
/// `now`: it does until a full stale window has passed.
pub open spec fn spec_alive(last_seen: u64, now: u64) -> bool {
    now < last_seen + STALE_ENTRY_SECS
}

/// The record for `addr`, if one is present.
pub open spec fn spec_lookup(s: Seq<RateEntry>, addr: Seq<char>) -> Option<(u8, u64)>
    decreases s.len(),
{
    if s.len() == 0 {
        None
    } else if s.last().addr@ == addr {
        Some((s.last().count, s.last().last_seen))
    } else {
        spec_lookup(s.drop_last(), addr)
    }
}

/// Every address appears at most once.
pub open spec fn spec_unique(s: Seq<RateEntry>) -> bool {
    forall|i: int, j: int| 0 <= i < j < s.len() ==> s[i].addr@ != s[j].addr@
}

/// The count a registration at `now` gives `addr`: one more than the
/// current count while the window is live (saturating), else one.
pub open spec fn spec_next_count(s: Seq<RateEntry>, addr: Seq<char>, now: u64) -> u8 {
    match spec_lookup(s, addr) {
        Some((count, last_seen)) => if spec_alive(last_seen, now) {
            if count == u8::MAX {
                u8::MAX
            } else {
                (count + 1) as u8
            }
        } else {
            1
        },
        None => 1,
    }
}

/// Whether `addr` is currently refused: its record is live and its
/// count has reached the per-minute ceiling.
pub open spec fn spec_blocked(s: Seq<RateEntry>, addr: Seq<char>, now: u64) -> bool {
    match spec_lookup(s, addr) {
        Some((count, last_seen)) => spec_alive(last_seen, now) && count
            >= MAX_REQUEST_PER_MINUTE,
        None => false,
    }
}

/// The entries still live at `now`, in order.
pub open spec fn spec_sweep(s: Seq<RateEntry>, now: u64) -> Seq<RateEntry>
    decreases s.len(),
{
    if s.len() == 0 {
        Seq::empty()
    } else {
        let rest = spec_sweep(s.drop_last(), now);
        if spec_alive(s.last().last_seen, now) {
            rest.push(s.last())
        } else {
            rest
        }
    }
}

/// Looking a key up in a concatenation reads the right part first.
proof fn lemma_lookup_concat(s1: Seq<RateEntry>, s2: Seq<RateEntry>, addr: Seq<char>)
    ensures
        spec_lookup(s1 + s2, addr) == match spec_lookup(s2, addr) {
            Some(v) => Some(v),
            None => spec_lookup(s1, addr),
        },
    decreases s2.len(),
{
    if s2.len() == 0 {
        assert(s1 + s2 =~= s1);
    } else {
        assert((s1 + s2).drop_last() =~= s1 + s2.drop_last());
        lemma_lookup_concat(s1, s2.drop_last(), addr);
    }
}

/// A key that no entry carries is not found.
proof fn lemma_lookup_absent(s: Seq<RateEntry>, addr: Seq<char>)
    requires
        forall|i: int| 0 <= i < s.len() ==> (#[trigger] s[i].addr)@ != addr,
    ensures
        spec_lookup(s, addr) == None::<(u8, u64)>,
    decreases s.len(),
{
    if s.len() > 0 {
        lemma_lookup_absent(s.drop_last(), addr);
    }
}

/// A key that is not found is carried by no entry.
proof fn lemma_absent_lookup(s: Seq<RateEntry>, addr: Seq<char>)
    requires
        spec_lookup(s, addr) == None::<(u8, u64)>,
    ensures
        forall|i: int| 0 <= i < s.len() ==> (#[trigger] s[i].addr)@ != addr,
    decreases s.len(),
{
    if s.len() > 0 {
        lemma_absent_lookup(s.drop_last(), addr);
        assert(forall|i: int| 0 <= i < s.len() - 1 ==> s[i] == s.drop_last()[i]);
    }
}

/// What the sweep leaves of each record: a live record survives
/// unchanged, a stale one is gone.
proof fn lemma_sweep_lookup(s: Seq<RateEntry>, now: u64, addr: Seq<char>)
    requires
        spec_unique(s),
    ensures
        spec_lookup(spec_sweep(s, now), addr) == match spec_lookup(s, addr) {
            Some((count, last_seen)) => if spec_alive(last_seen, now) {
                Some((count, last_seen))
            } else {
                None
            },
            None => None,
        },
    decreases s.len(),
{
    if s.len() > 0 {
        let t = s.drop_last();
        assert(spec_unique(t)) by {
            assert(forall|i: int| 0 <= i < t.len() ==> t[i] == s[i]);
        }
        lemma_sweep_lookup(t, now, addr);
        if spec_alive(s.last().last_seen, now) {
            let grown = spec_sweep(t, now).push(s.last());
            assert(spec_sweep(s, now) == grown);
            assert(grown.last() == s.last());
            assert(grown.drop_last() =~= spec_sweep(t, now));
        }
        if s.last().addr@ == addr {
            assert(forall|i: int|
                0 <= i < t.len() ==> (#[trigger] t[i].addr)@ != addr) by {
                assert(forall|i: int| 0 <= i < t.len() ==> t[i] == s[i]);
            }
            lemma_lookup_absent(t, addr);
        }
    }
}

/// The sweep never duplicates an address.
proof fn lemma_sweep_unique(s: Seq<RateEntry>, now: u64)
    requires
        spec_unique(s),
    ensures
        spec_unique(spec_sweep(s, now)),
    decreases s.len(),
{
    if s.len() > 0 {
        let t = s.drop_last();
        assert(spec_unique(t)) by {
            assert(forall|i: int| 0 <= i < t.len() ==> t[i] == s[i]);
        }
        lemma_sweep_unique(t, now);
        if spec_alive(s.last().last_seen, now) {
            let swept = spec_sweep(t, now);
            assert(forall|i: int|
                0 <= i < t.len() ==> (#[trigger] t[i].addr)@ != s.last().addr@) by {
                assert(forall|i: int| 0 <= i < t.len() ==> t[i] == s[i]);
            }
            lemma_lookup_absent(t, s.last().addr@);
            lemma_sweep_lookup(t, now, s.last().addr@);
            lemma_absent_lookup(swept, s.last().addr@);
            assert(forall|i: int|
                0 <= i < swept.len() ==> (#[trigger] swept[i].addr)@ != s.last().addr@);
            assert(spec_unique(swept.push(s.last()))) by {
                assert(forall|i: int|
                    0 <= i < swept.len() ==> swept.push(s.last())[i] == swept[i]);
            }
        }
    }
}

/// The process-wide ledger of recent requests per source address.
pub struct RateLimiter {
    entries: Vec<RateEntry>,
}

impl View for RateLimiter {
    type V = Seq<RateEntry>;

    closed spec fn view(&self) -> Seq<RateEntry> {
        self.entries@
    }
}

impl RateLimiter {
    /// The limiter never holds two records for one address.
    pub open spec fn wf(&self) -> bool {
        spec_unique(self@)
    }

    pub fn new() -> (r: RateLimiter)
        ensures
            r.wf(),
            r@ == Seq::<RateEntry>::empty(),
    {
        RateLimiter { entries: Vec::new() }
    }

    /// The position of `ip`'s record, if it has one.
    fn find_index(&self, ip: &String) -> (r: Option<usize>)
        ensures
            match r {
                Some(i) => i < self@.len() && self@[i as int].addr@ == ip@,
                None => spec_lookup(self@, ip@) == None::<(u8, u64)>,
            },
    {
        let n = self.entries.len();
        let mut i: usize = 0;
        while i < n
            invariant
                0 <= i <= n,
                n == self@.len(),
                forall|j: int| 0 <= j < i ==> (#[trigger] self@[j].addr)@ != ip@,
            decreases n - i,
        {
            if self.entries[i].addr.eq(ip) {
                return Some(i);
            }
            proof {
                assert(self@[i as int].addr@ != ip@);
            }
            i = i + 1;
        }
        proof {
            lemma_lookup_absent(self@, ip@);
        }
        None
    }

    /// Registers one request from `ip` at `now`: a live record is
    /// counted up (saturating), a stale or missing one starts over at
    /// one, and the window is refreshed either way.
    pub fn add(&mut self, ip: String, now: u64)
        requires
            old(self).wf(),
        ensures
            final(self).wf(),
            spec_lookup(final(self)@, ip@) == Some(
                (spec_next_count(old(self)@, ip@, now), now),
            ),
            forall|other: Seq<char>| other != ip@ ==> spec_lookup(final(self)@, other)
                == spec_lookup(old(self)@, other),
    {
        let ghost s0 = self@;
        let new_count: u8 = match self.find_index(&ip) {
            Some(i) => {
                let count = self.entries[i].count;
                let last_seen = self.entries[i].last_seen;
                proof {
                    lemma_lookup_at(s0, i as int);
                }
                let counted = if Self::is_alive(last_seen, now) {
                    count.saturating_add(1)
                } else {
                    1
                };
                let _ = self.entries.remove(i);
                proof {
                    lemma_remove_entry(s0, i as int, ip@);
                }
                counted
            },
            None => 1,
        };
        let ghost trimmed = self@;
        self.entries.push(RateEntry { addr: ip, count: new_count, last_seen: now });
        proof {
            let pushed = RateEntry { addr: ip, count: new_count, last_seen: now };
            assert(self@ =~= trimmed + seq![pushed]);
            assert(self@.last() == pushed);
            assert(self@.drop_last() =~= trimmed);
            assert forall|other: Seq<char>| other != ip@ implies spec_lookup(
                self@,
                other,
            ) == spec_lookup(s0, other) by {
                assert(spec_lookup(self@, other) == spec_lookup(trimmed, other));
            }
            lemma_absent_lookup(trimmed, ip@);
            assert(spec_unique(self@)) by {
                assert(forall|i: int|
                    0 <= i < trimmed.len() ==> self@[i] == trimmed[i]);
                assert(forall|i: int, j: int|
                    0 <= i < j < trimmed.len() ==> trimmed[i].addr@ != trimmed[j].addr@);
            }
        }
    }

    /// Whether `ip` must be refused at `now`: its record is live and
    /// already at the ceiling. A stale record never blocks.
    pub fn is_blocked(&self, ip: &String, now: u64) -> (r: bool)
        requires
            self.wf(),
        ensures
            r == spec_blocked(self@, ip@, now),
    {
        if let Some((count, last_time)) = self.get(ip) {
            if Self::is_alive(last_time, now) && count >= MAX_REQUEST_PER_MINUTE {
                return true;
            }
        }
        false
    }

    /// The count and window start recorded for `ip`, if any.
    pub fn get(&self, ip: &String) -> (r: Option<(u8, u64)>)
        requires
            self.wf(),
        ensures
            r == spec_lookup(self@, ip@),
    {
        match self.find_index(ip) {
            Some(i) => {
                proof {
                    lemma_lookup_at(self@, i as int);
                }
                Some((self.entries[i].count, self.entries[i].last_seen))
            },
            None => None,
        }
    }

    /// Removes every record whose window has gone stale by `now`,
    /// leaving live records untouched and in order.
    pub fn cleanup(&mut self, now: u64)
        requires
            old(self).wf(),
        ensures
            final(self).wf(),
            final(self)@ == spec_sweep(old(self)@, now),
            forall|addr: Seq<char>| #![auto] spec_lookup(final(self)@, addr) == match spec_lookup(
                old(self)@,
                addr,
            ) {
                Some((count, last_seen)) => if spec_alive(last_seen, now) {
                    Some((count, last_seen))
                } else {
                    None
                },
                None => None,
            },
    {
        let ghost s0 = self@;
        let mut drained: Vec<RateEntry> = Vec::new();
        core::mem::swap(&mut self.entries, &mut drained);
        let total = drained.len();
        let mut k: usize = 0;
        while drained.len() > 0
            invariant
                k <= total,
                k + drained@.len() == total,
                s0.len() == total,
                drained@ =~= s0.subrange(k as int, total as int),
                self@ =~= spec_sweep(s0.subrange(0, k as int), now),
            decreases drained@.len(),
        {
            let entry = drained.remove(0);
            proof {
                assert(entry == s0[k as int]);
                assert(s0.subrange(0, k + 1).drop_last() =~= s0.subrange(0, k as int));
                assert(s0.subrange(0, k + 1).last() == s0[k as int]);
            }
            if Self::is_alive(entry.last_seen, now) {
                self.entries.push(entry);
            }
            k = k + 1;
            proof {
                assert(drained@ =~= s0.subrange(k as int, total as int));
            }
        }
        proof {
            assert(s0.subrange(0, total as int) =~= s0);
            lemma_sweep_unique(s0, now);
            assert forall|addr: Seq<char>| #![auto] spec_lookup(self@, addr)
                == match spec_lookup(s0, addr) {
                Some((count, last_seen)) => if spec_alive(last_seen, now) {
                    Some((count, last_seen))
                } else {
                    None
                },
                None => None,
            } by {
                lemma_sweep_lookup(s0, now, addr);
            }
        }
    }

    /// Whether a window refreshed at `last_seen` is still live at `now`.
    pub fn is_alive(last_seen: u64, now: u64) -> (r: bool)
        ensures
            r == spec_alive(last_seen, now),
    {
        last_seen >= now || now - last_seen < STALE_ENTRY_SECS
    }
}

/// Whether each registration in a run happened while the window of the
/// one before it was still live.
pub open spec fn chained(times: Seq<u64>) -> bool {
    forall|i: int| 0 < i < times.len() ==> spec_alive(#[trigger] times[i - 1], times[i])
}

/// The count recorded after registering one address at each time in
/// `times` in turn, starting with no record.
pub open spec fn run_count(times: Seq<u64>) -> int
    decreases times.len(),
{
    if times.len() == 0 {
        0
    } else if times.len() == 1 {
        1
    } else if spec_alive(times[times.len() - 2], times.last()) {
        if run_count(times.drop_last()) >= u8::MAX {
            u8::MAX as int
        } else {
            run_count(times.drop_last()) + 1
        }
    } else {
        1
    }
}

/// A run of registrations that never goes stale counts every request,
/// saturating at the counter's maximum.
pub proof fn lemma_run_count(times: Seq<u64>)
    requires
        chained(times),
        times.len() >= 1,
    ensures
        run_count(times) == if times.len() <= u8::MAX {
            times.len() as int
        } else {
            u8::MAX as int
        },
    decreases times.len(),
{
    if times.len() > 1 {
        let t = times.drop_last();
        assert(chained(t)) by {
            assert(forall|i: int| 0 <= i < t.len() ==> t[i] == times[i]);
        }
        lemma_run_count(t);
    }
}

/// Registering once more during a live window advances the recorded
/// count exactly as the run model says.
pub proof fn lemma_run_extend(times: Seq<u64>, s: Seq<RateEntry>, addr: Seq<char>, t: u64)
    requires
        times.len() >= 1,
        spec_lookup(s, addr) == Some((run_count(times) as u8, times.last())),
        0 <= run_count(times) <= u8::MAX,
    ensures
        spec_next_count(s, addr, t) == run_count(times.push(t)),
{
    let grown = times.push(t);
    assert(grown.drop_last() =~= times);
    assert(grown[grown.len() - 2] == times.last());
    assert(grown.last() == t);
}

/// The rate-limiting law: an address that has registered `N` times,
/// each request within a minute of the one before and the latest still
/// within the window, is blocked exactly when `N` has reached the
/// per-minute ceiling. In particular it is admitted through its 99th
/// request and refused from its 100th on.
pub proof fn lemma_rate_limit_window(times: Seq<u64>, s: Seq<RateEntry>, addr: Seq<char>, now: u64)
    requires
        chained(times),
        times.len() >= 1,
        spec_lookup(s, addr) == Some((run_count(times) as u8, times.last())),
        spec_alive(times.last(), now),
    ensures
        spec_blocked(s, addr, now) <==> times.len() >= MAX_REQUEST_PER_MINUTE,
{
    lemma_run_count(times);
}

/// The reset law: once an address's record has gone stale, or has been
/// swept away, its next registration starts over at a count of one.
pub proof fn lemma_rate_limit_reset(s: Seq<RateEntry>, addr: Seq<char>, now: u64)
    requires
        match spec_lookup(s, addr) {
            Some((count, last_seen)) => !spec_alive(last_seen, now),
            None => true,
        },
    ensures
        spec_next_count(s, addr, now) == 1,
        !spec_blocked(s, addr, now),
{
}

/// An entry's own index finds exactly that entry once everything after
/// it carries another address.
proof fn lemma_lookup_at(s: Seq<RateEntry>, i: int)
    requires
        spec_unique(s),
        0 <= i < s.len(),
    ensures
        spec_lookup(s, s[i].addr@) == Some((s[i].count, s[i].last_seen)),
    decreases s.len(),
{
    if i == s.len() - 1 {
    } else {
        assert(s.last().addr@ != s[i].addr@);
        assert(s.drop_last()[i] == s[i]);
        assert(spec_unique(s.drop_last())) by {
            assert(forall|j: int| 0 <= j < s.len() - 1 ==> s.drop_last()[j] == s[j]);
        }
        lemma_lookup_at(s.drop_last(), i);
    }
}

/// Removing one address's entry does not change what other addresses
/// find; with unique addresses it erases that address entirely and
/// keeps the rest unique.
proof fn lemma_remove_entry(s: Seq<RateEntry>, i: int, addr: Seq<char>)
    requires
        spec_unique(s),
        0 <= i < s.len(),
        s[i].addr@ == addr,
    ensures
        forall|other: Seq<char>| other != addr ==> spec_lookup(s.remove(i), other)
            == spec_lookup(s, other),
        spec_lookup(s.remove(i), addr) == None::<(u8, u64)>,
        spec_unique(s.remove(i)),
{
    let front = s.subrange(0, i);
    let middle = seq![s[i]];
    let back = s.subrange(i + 1, s.len() as int);
    assert(s =~= front + middle + back);
    assert(s.remove(i) =~= front + back);
    assert forall|other: Seq<char>| other != addr implies spec_lookup(s.remove(i), other)
        == spec_lookup(s, other) by {
        lemma_lookup_concat(front, back, other);
        lemma_lookup_concat(front + middle, back, other);
        lemma_lookup_concat(front, middle, other);
        assert(middle.last() == s[i]);
        assert(spec_lookup(middle, other) == spec_lookup(middle.drop_last(), other));
        assert(middle.drop_last().len() == 0);
        assert(spec_lookup(middle, other) == None::<(u8, u64)>);
    }
    assert(forall|j: int| 0 <= j < front.len() ==> (#[trigger] front[j].addr)@ != addr);
    assert(forall|j: int| 0 <= j < back.len() ==> (#[trigger] back[j].addr)@ != addr);
    lemma_lookup_absent(front, addr);
    lemma_lookup_absent(back, addr);
    lemma_lookup_concat(front, back, addr);
    assert(spec_unique(s.remove(i))) by {
        assert(forall|j: int|
            0 <= j < i ==> #[trigger] s.remove(i)[j] == s[j]);
        assert(forall|j: int|
            i <= j < s.len() - 1 ==> #[trigger] s.remove(i)[j] == s[j + 1]);
    }
}

} // verus!
