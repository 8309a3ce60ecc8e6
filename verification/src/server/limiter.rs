//! Per-client rate limiting over a sliding window of one minute.
use vstd::prelude::*;
use crate::text::str_eq;

verus! {

broadcast use vstd::string::group_string_axioms;

/// The length of the window, in nanoseconds: one minute.
pub const WINDOW_NANOS: u64 = 60_000_000_000;

/// A request at `t` still counts at `now`: less than a window has passed since it
/// (none has when `t` lies after `now`).
pub open spec fn counts_at(t: u64, now: u64) -> bool {
    now < t + WINDOW_NANOS
}

/// The requests of `ts` that still count at `now`, in order.
pub open spec fn recent(ts: Seq<u64>, now: u64) -> Seq<u64>
    decreases ts.len(),
{
    if ts.len() == 0 {
        ts
    } else {
        let init = recent(ts.drop_last(), now);
        if counts_at(ts.last(), now) {
            init.push(ts.last())
        } else {
            init
        }
    }
}

/// Forgetting old requests never adds any.
pub proof fn lemma_recent_len(ts: Seq<u64>, now: u64)
    ensures
        recent(ts, now).len() <= ts.len(),
    decreases ts.len(),
{
    if ts.len() > 0 {
        lemma_recent_len(ts.drop_last(), now);
    }
}

/// Index of the first key equal to `ip`, or the number of keys.
pub open spec fn key_index(keys: Seq<Seq<char>>, ip: Seq<char>) -> int
    decreases keys.len(),
{
    if keys.len() == 0 {
        0
    } else if keys[0] == ip {
        0
    } else {
        1 + key_index(keys.drop_first(), ip)
    }
}

proof fn lemma_key_index(keys: Seq<Seq<char>>, ip: Seq<char>)
    ensures
        0 <= key_index(keys, ip) <= keys.len(),
        key_index(keys, ip) < keys.len() ==> keys[key_index(keys, ip)] == ip,
        forall|j: int| 0 <= j < key_index(keys, ip) ==> keys[j] != ip,
    decreases keys.len(),
{
    if keys.len() > 0 && keys[0] != ip {
        lemma_key_index(keys.drop_first(), ip);
        assert forall|j: int| 0 <= j < key_index(keys, ip) implies keys[j] != ip by {
            if j > 0 {
                assert(keys[j] == keys.drop_first()[j - 1]);
            }
        }
    }
}

proof fn lemma_key_index_push(keys: Seq<Seq<char>>, k: Seq<char>, ip: Seq<char>)
    requires
        ip != k,
    ensures
        key_index(keys.push(k), ip) == if key_index(keys, ip) < keys.len() {
            key_index(keys, ip)
        } else {
            keys.len() + 1int
        },
    decreases keys.len(),
{
    let pk = keys.push(k);
    if keys.len() > 0 {
        assert(pk[0] == keys[0]);
        if keys[0] != ip {
            assert(pk.drop_first() =~= keys.drop_first().push(k));
            lemma_key_index_push(keys.drop_first(), k, ip);
            assert(key_index(pk, ip) == 1 + key_index(pk.drop_first(), ip));
            assert(key_index(keys, ip) == 1 + key_index(keys.drop_first(), ip));
        }
    } else {
        assert(pk[0] == k);
        assert(pk.drop_first() =~= Seq::<Seq<char>>::empty());
        assert(key_index(pk, ip) == 1 + key_index(pk.drop_first(), ip));
    }
}

/// The requests recorded per client, within the last minute, and the number of
/// requests a client may make per minute (0 for no limit).
pub struct RateLimiter {
    entries: Vec<(String, Vec<u64>)>,
    max_per_minute: u32,
}

impl RateLimiter {
    /// The clients in the order they were first seen.
    pub closed spec fn keys(&self) -> Seq<Seq<char>> {
        self.entries@.map_values(|e: (String, Vec<u64>)| e.0@)
    }

    /// The requests recorded for `ip`, oldest first.
    pub closed spec fn times(&self, ip: Seq<char>) -> Seq<u64> {
        let i = key_index(self.keys(), ip);
        if i < self.entries@.len() {
            self.entries@[i].1@
        } else {
            Seq::empty()
        }
    }

    /// The number of requests a client may make per minute; 0 for no limit.
    pub closed spec fn limit(&self) -> u32 {
        self.max_per_minute
    }

    /// No client has more recorded requests than the limit.
    pub open spec fn bounded(&self) -> bool {
        forall|ip: Seq<char>| #[trigger] self.times(ip).len() <= self.limit()
    }

    /// A limiter that has seen no request.
    pub fn new(max_per_minute: u32) -> (r: Self)
        ensures
            r.limit() == max_per_minute,
            forall|ip: Seq<char>| #[trigger] r.times(ip) == Seq::<u64>::empty(),
            r.bounded(),
    {
        RateLimiter { entries: Vec::new(), max_per_minute }
    }

    /// Whether a request from `ip` at `now` is admitted: always without a limit;
    /// otherwise when fewer than the limit of its requests still count.
    pub open spec fn admits(&self, ip: Seq<char>, now: u64) -> bool {
        self.limit() == 0 || recent(self.times(ip), now).len() < self.limit()
    }

    /// The requests recorded for `x` after a request from `ip` at `now`: with a limit,
    /// those of `ip` that still count, and the new one when admitted; others unchanged.
    pub open spec fn times_after(&self, ip: Seq<char>, now: u64, x: Seq<char>) -> Seq<u64> {
        if self.limit() == 0 || x != ip {
            self.times(x)
        } else {
            let kept = recent(self.times(ip), now);
            if kept.len() < self.limit() {
                kept.push(now)
            } else {
                kept
            }
        }
    }

    /// Decides on a request from `ip` at `now` (nanoseconds on a monotonic clock) and
    /// records it when admitted.
    pub fn check_and_record(&mut self, ip: &str, now: u64) -> (r: bool)
        ensures
            r == old(self).admits(ip@, now),
            final(self).limit() == old(self).limit(),
            forall|x: Seq<char>| #[trigger] final(self).times(x) == old(self).times_after(ip@, now, x),
            old(self).bounded() ==> final(self).bounded(),
    {
        if self.max_per_minute == 0 {
            return true;
        }
        let ghost old_keys = self.keys();
        proof {
            lemma_key_index(old_keys, ip@);
        }
        let mut i: usize = 0;
        while i < self.entries.len()
            invariant
                i <= self.entries@.len(),
                old_keys == self.keys(),
                forall|j: int| 0 <= j < i ==> old_keys[j] != ip@,
                0 <= key_index(old_keys, ip@) <= old_keys.len(),
                key_index(old_keys, ip@) < old_keys.len() ==> old_keys[key_index(old_keys, ip@)]
                    == ip@,
                forall|j: int| 0 <= j < key_index(old_keys, ip@) ==> old_keys[j] != ip@,
            ensures
                i <= self.entries@.len(),
                old_keys == self.keys(),
                forall|j: int| 0 <= j < i ==> old_keys[j] != ip@,
                i < self.entries@.len() ==> old_keys[i as int] == ip@,
            decreases self.entries@.len() - i,
        {
            assert(old_keys[i as int] == self.entries@[i as int].0@);
            if str_eq(self.entries[i].0.as_str(), ip) {
                break;
            }
            i = i + 1;
        }
        assert(i == key_index(old_keys, ip@)) by {
            if i < key_index(old_keys, ip@) {
                assert(old_keys[i as int] == self.entries@[i as int].0@);
            }
        }
        let ghost before = *self;
        if i == self.entries.len() {
            self.entries.push((ip.to_string(), Vec::new()));
            assert(self.keys() =~= old_keys.push(ip@));
            assert forall|x: Seq<char>| x != ip@ implies #[trigger] self.times(x) == before.times(x) by {
                lemma_key_index_push(old_keys, ip@, x);
                lemma_key_index(old_keys, x);
            }
            assert(key_index(self.keys(), ip@) == i) by {
                lemma_key_index(self.keys(), ip@);
                assert(self.keys()[i as int] == ip@);
            }
        }
        let ghost mid = *self;
        assert(i < self.entries@.len());
        assert(before.keys() == old_keys);
        assert(key_index(mid.keys(), ip@) == i);
        let old_times = &self.entries[i].1;
        let ghost ot = old_times@;
        assert(ot == mid.times(ip@));
        assert(ot == before.times(ip@));
        let mut kept: Vec<u64> = Vec::new();
        let mut k: usize = 0;
        while k < old_times.len()
            invariant
                k <= ot.len(),
                ot == old_times@,
                kept@ == recent(ot.take(k as int), now),
            decreases ot.len() - k,
        {
            assert(ot.take(k + 1).drop_last() =~= ot.take(k as int));
            assert(ot.take(k + 1).last() == ot[k as int]);
            let t = old_times[k];
            let counts = if now >= t {
                now - t < WINDOW_NANOS
            } else {
                true
            };
            if counts {
                kept.push(t);
            }
            k = k + 1;
        }
        assert(ot.take(k as int) =~= ot);
        let admitted = kept.len() < self.max_per_minute as usize;
        if admitted {
            kept.push(now);
        }
        let key = ip.to_string();
        let ghost final_times = kept@;
        self.entries.set(i, (key, kept));
        assert(self.keys() =~= mid.keys());
        assert forall|x: Seq<char>| x != ip@ implies #[trigger] self.times(x) == before.times(x) by {
            assert(mid.times(x) == before.times(x));
            lemma_key_index(mid.keys(), x);
        }
        proof {
            lemma_recent_len(ot, now);
            if before.bounded() {
                assert forall|x: Seq<char>| #[trigger] self.times(x).len() <= self.limit() by {
                    if x != ip@ {
                        assert(before.times(x).len() <= before.limit());
                    } else {
                        assert(before.times(ip@).len() <= before.limit());
                    }
                }
            }
        }
        admitted
    }
}

/// With a limit, no request is ever recorded beyond it: after a request to a limiter
/// that holds no client beyond the limit, the client has at most the limit of requests
/// recorded, and it was admitted only if fewer than the
/// limit still counted.
pub proof fn lemma_limit_respected(l: RateLimiter, ip: Seq<char>, now: u64)
    requires
        l.limit() > 0,
        l.bounded(),
    ensures
        l.times_after(ip, now, ip).len() <= l.limit(),
        l.admits(ip, now) ==> recent(l.times(ip), now).len() < l.limit(),
        !l.admits(ip, now) ==> l.times_after(ip, now, ip) == recent(l.times(ip), now),
{
    lemma_recent_len(l.times(ip), now);
    assert(l.times(ip).len() <= l.limit());
}

} // verus!
