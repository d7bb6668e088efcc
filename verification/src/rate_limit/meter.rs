//! One token bucket, as a generic cell rate algorithm (GCRA).
//!
//! The bucket keeps a single number, the theoretical arrival time (TAT): the
//! instant at which it would be full again if nothing more were spent. A
//! request is admitted when admitting it keeps the TAT no more than the burst
//! ahead of now; admitting it moves the TAT one gap later. Everything is whole
//! nanoseconds, so "one token every six seconds" is exactly that.
//!
//! A limiter keeps one bucket per client in a bounded map. When the map is
//! full it first sweeps out buckets that have refilled completely, which
//! decide exactly as a new one would; when that frees nothing, new clients
//! share one overflow bucket. Waiting would grow the map, and letting the
//! excess through would make spraying keys a bypass.
use std::collections::BTreeMap;

use vstd::prelude::*;

use super::class::{Class, MAX_SPAN, SECOND};
use crate::server::next_comma;
use crate::text::{chars_of, string_of, trim_range, trimmed};

verus! {

/// The answer for one request, and what the `RateLimit-*` headers say.
#[derive(Debug, Clone, Copy, PartialEq, Eq, Structural)]
pub struct Decision {
    pub allowed: bool,
    /// Tokens left after this request.
    pub remaining: u32,
    /// When refused, whole seconds until a retry can succeed.
    pub retry_after_seconds: Option<u64>,
    /// Whole seconds until the bucket is full again.
    pub reset_seconds: u64,
}

/// One bucket.
#[derive(Debug, Clone, Copy, PartialEq, Eq, Structural)]
pub struct Bucket {
    /// The theoretical arrival time, in nanoseconds on the caller's clock.
    pub tat: u128,
}

/// A class whose numbers the meter can carry without overflow.
pub open spec fn meterable(c: Class) -> bool {
    c.wf() && c.refill() <= MAX_SPAN
}

/// Whole seconds in `n` nanoseconds, rounded up.
pub open spec fn ceil_seconds(n: int) -> int {
    if n <= 0 {
        0
    } else {
        (n + SECOND - 1) / (SECOND as int)
    }
}

/// The TAT a request at `now` is measured against.
pub open spec fn start_of(tat: int, now: int) -> int {
    if tat > now {
        tat
    } else {
        now
    }
}

/// Whether a request at `now` is admitted by a bucket at `tat`.
pub open spec fn admits(c: Class, tat: int, now: int) -> bool {
    start_of(tat, now) + c.gap() <= now + c.refill()
}

/// The bucket's TAT after a request at `now`.
pub open spec fn next_tat(c: Class, tat: int, now: int) -> int {
    if admits(c, tat, now) {
        start_of(tat, now) + c.gap()
    } else {
        tat
    }
}

/// The decision for a request at `now` against a bucket at `tat`.
pub open spec fn decision_of(c: Class, tat: int, now: int) -> Decision {
    let start = start_of(tat, now);
    let after = next_tat(c, tat, now);
    let left: int = if !admits(c, tat, now) {
        0
    } else if c.gap() == 0 {
        c.burst as int
    } else {
        (now + c.refill() - after) / (c.gap() as int)
    };
    Decision {
        allowed: admits(c, tat, now),
        remaining: left as u32,
        retry_after_seconds: if admits(c, tat, now) {
            None
        } else {
            Some(ceil_seconds(start + c.gap() - c.refill() - now) as u64)
        },
        reset_seconds: ceil_seconds(start_of(after, now) - now) as u64,
    }
}

impl Bucket {
    /// A bucket that has never been spent from: full.
    pub fn new() -> (b: Bucket)
        ensures
            b.tat == 0,
    {
        Bucket { tat: 0 }
    }

    /// Within the range the meter keeps it in.
    pub open spec fn wf(self) -> bool {
        self.tat <= 2 * MAX_SPAN
    }

    /// Decide a request at `now` and spend a token when it is admitted.
    pub fn check_at(&mut self, class: Class, now: u128) -> (d: Decision)
        requires
            old(self).wf(),
            meterable(class),
            now <= MAX_SPAN,
        ensures
            final(self).wf(),
            d == decision_of(class, old(self).tat as int, now as int),
            final(self).tat == next_tat(class, old(self).tat as int, now as int),
    {
        let gap = class.emission_interval();
        let full = class.full_refill();
        assert(gap <= full || class.burst == 0) by (nonlinear_arith)
            requires
                full == gap * class.burst,
        ;
        let start: u128 = if self.tat > now {
            self.tat
        } else {
            now
        };
        let allowed = start + gap <= now + full;
        if allowed {
            self.tat = start + gap;
        }
        let after = self.tat;
        let remaining: u32 = if !allowed {
            0
        } else if gap == 0 {
            class.burst
        } else {
            let r: u128 = (now + full - after) / gap;
            assert(r <= class.burst) by (nonlinear_arith)
                requires
                    r as int == (now + full - after) as int / (gap as int),
                    after >= now + gap,
                    full == gap * class.burst,
                    gap > 0,
            ;
            r as u32
        };
        let retry = if allowed {
            None
        } else {
            let owed: u128 = start + gap - full - now;
            Some(((owed + SECOND - 1) / SECOND) as u64)
        };
        let until_full: u128 = if after > now {
            after - now
        } else {
            0
        };
        let reset: u64 = ((until_full + SECOND - 1) / SECOND) as u64;
        Decision { allowed, remaining, retry_after_seconds: retry, reset_seconds: reset }
    }
}

// ---------------------------------------------------------------------------
// A limiter: one bucket per client, in a bounded map
// ---------------------------------------------------------------------------
/// The most clients one limiter holds a bucket for. Spraying keys must cost the sender
/// a request each and cost the limiter nothing unbounded.
pub const MAX_TRACKED_KEYS: usize = 10000;

/// How often, at most, a full map is swept of refilled buckets, so a flood
/// of new clients does not make every request walk the map.
pub const SWEEP_INTERVAL: u128 = 10_000_000_000;

/// Whose buckets a limiter keeps.
#[derive(Debug, Clone, Copy, PartialEq, Eq, Structural)]
pub enum Scope {
    /// One bucket per client address, for the routes a caller reaches before
    /// anyone knows who it is.
    Address,
    /// One bucket per workspace and actor.
    Principal,
}

/// A limiter for one class. A client is named by a pair of numbers: an
/// address family and its bits, or a workspace and an actor.
#[derive(Debug)]
pub struct RateLimiter {
    class: Class,
    scope: Scope,
    clients: BTreeMap<(u128, u128), Bucket>,
    /// Requests that carry no usable address share this bucket: the safe
    /// direction, since an exemption could be had by omitting a header.
    unkeyed: Bucket,
    /// New clients arriving while the map is full and nothing can be swept.
    overflow: Option<Bucket>,
    /// When the map was last swept.
    swept_at: Option<u128>,
}

/// The first hop of an `X-Forwarded-For` header: the text before its first
/// comma, trimmed. It is the client the nearest proxy saw; a later hop is
/// whatever the client chose to write, so keying on it would let any client
/// make itself a new bucket.
pub open spec fn first_hop_of(forwarded_for: Seq<char>) -> Seq<char> {
    trimmed(forwarded_for.subrange(0, next_comma(forwarded_for, 0)))
}

/// The first hop of an `X-Forwarded-For` header.
pub fn first_hop(forwarded_for: &str) -> (h: String)
    ensures
        h@ == first_hop_of(forwarded_for@),
{
    let v = chars_of(forwarded_for);
    let n = v.len();
    let mut c: usize = 0;
    while c < n && v[c] != ','
        invariant
            v@ == forwarded_for@,
            n == v.len(),
            c <= n,
            next_comma(forwarded_for@, 0) == next_comma(forwarded_for@, c as int),
        decreases n - c,
    {
        c = c + 1;
    }
    let (a, b) = trim_range(&v, 0, c);
    let mut out: Vec<char> = Vec::new();
    let mut i: usize = a;
    while i < b
        invariant
            a <= i <= b <= v.len(),
            out@ == v@.subrange(a as int, i as int),
        decreases b - i,
    {
        out.push(v[i]);
        assert(v@.subrange(a as int, i + 1) =~= v@.subrange(a as int, i as int).push(v@[i as int]));
        i = i + 1;
    }
    string_of(&out)
}

/// A bucket that has refilled completely. It decides exactly as a new one
/// would, so forgetting it loses nothing.
pub open spec fn refilled(b: Bucket, now: int) -> bool {
    b.tat <= now
}

/// The buckets a sweep at `now` keeps: those that have not refilled.
pub open spec fn kept(m: Map<(u128, u128), Bucket>, now: int) -> Map<(u128, u128), Bucket> {
    m.restrict(m.dom().filter(|k: (u128, u128)| !refilled(m[k], now)))
}

/// Whether a full map may be swept at `now`.
pub open spec fn sweep_due(swept_at: Option<u128>, now: int) -> bool {
    match swept_at {
        None => true,
        Some(t) => now >= t + SWEEP_INTERVAL,
    }
}

/// The bucket after a request at `now` against one at `tat`.
pub open spec fn spent(c: Class, tat: int, now: int) -> Bucket {
    Bucket { tat: next_tat(c, tat, now) as u128 }
}

impl RateLimiter {
    pub closed spec fn class_spec(&self) -> Class {
        self.class
    }

    pub closed spec fn scope_spec(&self) -> Scope {
        self.scope
    }

    /// The bucket of every client held.
    pub closed spec fn buckets(&self) -> Map<(u128, u128), Bucket> {
        self.clients@
    }

    /// The bucket shared by requests without a usable address.
    pub closed spec fn unkeyed_bucket(&self) -> Bucket {
        self.unkeyed
    }

    /// The bucket new clients share while the map is full.
    pub closed spec fn overflow_bucket(&self) -> Option<Bucket> {
        self.overflow
    }

    pub closed spec fn last_sweep(&self) -> Option<u128> {
        self.swept_at
    }

    pub closed spec fn wf(&self) -> bool {
        &&& meterable(self.class)
        &&& self.clients@.dom().finite()
        &&& self.clients@.len() <= MAX_TRACKED_KEYS
        &&& forall|k: (u128, u128)| #[trigger] self.clients@.contains_key(k) ==> self.clients@[k].wf()
        &&& self.unkeyed.wf()
        &&& (self.overflow matches Some(b) ==> b.wf())
        &&& (self.swept_at matches Some(t) ==> t <= MAX_SPAN)
    }

    fn empty(class: Class, scope: Scope) -> (l: Self)
        requires
            meterable(class),
        ensures
            l.wf(),
            l.class_spec() == class,
            l.scope_spec() == scope,
            l.buckets() == Map::<(u128, u128), Bucket>::empty(),
            l.unkeyed_bucket() == (Bucket { tat: 0 }),
            l.overflow_bucket() is None,
            l.last_sweep() is None,
    {
        RateLimiter {
            class,
            scope,
            clients: BTreeMap::new(),
            unkeyed: Bucket::new(),
            overflow: None,
            swept_at: None,
        }
    }

    /// A limiter keyed by client address.
    pub fn per_ip(class: Class) -> (l: Self)
        requires
            meterable(class),
        ensures
            l.wf(),
            l.class_spec() == class,
            l.scope_spec() == Scope::Address,
            l.buckets() == Map::<(u128, u128), Bucket>::empty(),
            l.unkeyed_bucket() == (Bucket { tat: 0 }),
            l.overflow_bucket() is None,
            l.last_sweep() is None,
    {
        Self::empty(class, Scope::Address)
    }

    /// A limiter keyed by workspace and actor.
    pub fn per_principal(class: Class) -> (l: Self)
        requires
            meterable(class),
        ensures
            l.wf(),
            l.class_spec() == class,
            l.scope_spec() == Scope::Principal,
            l.buckets() == Map::<(u128, u128), Bucket>::empty(),
            l.unkeyed_bucket() == (Bucket { tat: 0 }),
            l.overflow_bucket() is None,
            l.last_sweep() is None,
    {
        Self::empty(class, Scope::Principal)
    }

    /// The class this limiter meters.
    pub fn class(&self) -> (c: Class)
        ensures
            c == self.class_spec(),
    {
        self.class
    }

    /// Whose buckets this limiter keeps.
    pub fn scope(&self) -> (s: Scope)
        ensures
            s == self.scope_spec(),
    {
        self.scope
    }

    /// How many clients are held.
    pub fn client_count(&self) -> (n: usize)
        requires
            self.wf(),
        ensures
            n == self.buckets().len(),
            n <= MAX_TRACKED_KEYS,
    {
        self.clients.len()
    }

    /// Forget every bucket that has refilled by `now`.
    fn sweep(&mut self, now: u128)
        requires
            old(self).wf(),
            now <= MAX_SPAN,
        ensures
            final(self).wf(),
            final(self).class_spec() == old(self).class_spec(),
            final(self).scope_spec() == old(self).scope_spec(),
            final(self).buckets() == kept(old(self).buckets(), now as int),
            final(self).unkeyed_bucket() == old(self).unkeyed_bucket(),
            final(self).overflow_bucket() == old(self).overflow_bucket(),
            final(self).last_sweep() == Some(now),
    {
        let ghost m = self.clients@;
        let mut stale: Vec<(u128, u128)> = Vec::new();
        for kv in it: self.clients.iter()
            invariant
                *self == *old(self),
                m == self.clients@,
                forall|i: int|
                    0 <= i < stale@.len() ==> m.contains_key(#[trigger] stale@[i]) && refilled(
                        m[stale@[i]],
                        now as int,
                    ),
                forall|k: (u128, u128)|
                    #[trigger] m.contains_key(k) && refilled(m[k], now as int) ==> stale@.contains(k)
                        || exists|j: int|
                        it.index() <= j < it.seq().len() && *(#[trigger] it.seq()[j]).0 == k,
        {
            let ghost at = it.index();
            let ghost before = stale@;
            assert(kv == it.seq()[at as int]);
            let (key, b) = kv;
            if b.tat <= now {
                stale.push(*key);
            }
            proof {
                assert forall|k: (u128, u128)| #[trigger] m.contains_key(k) && refilled(m[k], now as int)
                    && !stale@.contains(k) implies exists|j: int|
                    at + 1 <= j < it.seq().len() && *(#[trigger] it.seq()[j]).0 == k by {
                    assert(!before.contains(k)) by {
                        if before.contains(k) {
                            let x = choose|x: int| 0 <= x < before.len() && before[x] == k;
                            assert(stale@[x] == k);
                        }
                    }
                    let j = choose|j: int| at <= j < it.seq().len() && *it.seq()[j].0 == k;
                    if j == at {
                        assert(*key == k);
                        assert(m[k] == *b);
                        assert(stale@.last() == k);
                    }
                }
            }
        }
        assert forall|k: (u128, u128)| #[trigger] m.contains_key(k) && refilled(m[k], now as int)
            implies stale@.contains(k) by {}
        let mut i: usize = 0;
        while i < stale.len()
            invariant
                self.class == old(self).class,
                self.scope == old(self).scope,
                self.unkeyed == old(self).unkeyed,
                self.overflow == old(self).overflow,
                self.swept_at == old(self).swept_at,
                i <= stale@.len(),
                self.clients@ == m.remove_keys(stale@.take(i as int).to_set()),
                forall|x: int|
                    0 <= x < stale@.len() ==> m.contains_key(#[trigger] stale@[x]) && refilled(
                        m[stale@[x]],
                        now as int,
                    ),
            decreases stale.len() - i,
        {
            let key = stale[i];
            self.clients.remove(&key);
            proof {
                assert(stale@.take(i + 1).to_set() =~= stale@.take(i as int).to_set().insert(key)) by {
                    assert(stale@.take(i + 1) =~= stale@.take(i as int).push(key));
                    stale@.take(i as int).lemma_push_to_set_commute(key);
                }
                assert(self.clients@ =~= m.remove_keys(stale@.take(i + 1).to_set()));
            }
            i = i + 1;
        }
        proof {
            assert(stale@.take(stale@.len() as int) =~= stale@);
            vstd::seq_lib::seq_to_set_is_finite(stale@);
            assert forall|k: (u128, u128)| #[trigger] stale@.to_set().contains(k) implies m.contains_key(
                k,
            ) by {
                let x = choose|x: int| 0 <= x < stale@.len() && stale@[x] == k;
            }
            m.lemma_remove_keys_len(stale@.to_set());
            assert(self.clients@ =~= kept(m, now as int)) by {
                assert forall|k: (u128, u128)| #[trigger] stale@.contains(k) implies m.contains_key(k)
                    && refilled(m[k], now as int) by {
                    let x = choose|x: int| 0 <= x < stale@.len() && stale@[x] == k;
                }
            }
        }
        self.swept_at = Some(now);
    }

    /// Decide a request at `now` from the client `key`, or from one with no
    /// usable address (`None`), and spend a token when it is admitted. A
    /// held client spends from its own bucket; a new one gets a full bucket
    /// while there is room. When the map is full, buckets that have refilled
    /// are swept out (at most once per [`SWEEP_INTERVAL`]); when that frees
    /// nothing, the new client spends from the overflow bucket.
    pub fn check_at(&mut self, key: Option<(u128, u128)>, now: u128) -> (d: Decision)
        requires
            old(self).wf(),
            now <= MAX_SPAN,
        ensures
            final(self).wf(),
            final(self).class_spec() == old(self).class_spec(),
            final(self).scope_spec() == old(self).scope_spec(),
            final(self).buckets().len() <= MAX_TRACKED_KEYS,
            forall|j: (u128, u128)|
                old(self).buckets().contains_key(j) && key != Some(j) && !refilled(
                    #[trigger] old(self).buckets()[j],
                    now as int,
                ) ==> final(self).buckets().contains_key(j) && final(self).buckets()[j] == old(
                    self,
                ).buckets()[j],
            ({
                let c = old(self).class_spec();
                let held = old(self).buckets();
                let t = now as int;
                match key {
                    None => {
                        &&& d == decision_of(c, old(self).unkeyed_bucket().tat as int, t)
                        &&& final(self).unkeyed_bucket() == spent(
                            c,
                            old(self).unkeyed_bucket().tat as int,
                            t,
                        )
                        &&& final(self).buckets() == held
                        &&& final(self).overflow_bucket() == old(self).overflow_bucket()
                        &&& final(self).last_sweep() == old(self).last_sweep()
                    },
                    Some(k) => {
                        &&& final(self).unkeyed_bucket() == old(self).unkeyed_bucket()
                        &&& if held.contains_key(k) {
                            &&& d == decision_of(c, held[k].tat as int, t)
                            &&& final(self).buckets() == held.insert(k, spent(c, held[k].tat as int, t))
                            &&& final(self).overflow_bucket() == old(self).overflow_bucket()
                            &&& final(self).last_sweep() == old(self).last_sweep()
                        } else {
                            let sweeping = held.len() >= MAX_TRACKED_KEYS && sweep_due(
                                old(self).last_sweep(),
                                t,
                            );
                            let left = if sweeping {
                                kept(held, t)
                            } else {
                                held
                            };
                            &&& final(self).last_sweep() == (if sweeping {
                                Some(now)
                            } else {
                                old(self).last_sweep()
                            })
                            &&& if left.len() < MAX_TRACKED_KEYS {
                                &&& d == decision_of(c, 0, t)
                                &&& final(self).buckets() == left.insert(k, spent(c, 0, t))
                                &&& final(self).overflow_bucket() == old(self).overflow_bucket()
                            } else {
                                let o: int = match old(self).overflow_bucket() {
                                    Some(b) => b.tat as int,
                                    None => 0,
                                };
                                &&& d == decision_of(c, o, t)
                                &&& final(self).buckets() == left
                                &&& final(self).overflow_bucket() == Some(spent(c, o, t))
                            }
                        }
                    },
                }
            }),
    {
        let class = self.class;
        let k = match key {
            None => {
                let d = self.unkeyed.check_at(class, now);
                return d;
            },
            Some(k) => k,
        };
        let found: Option<Bucket> = match self.clients.get(&k) {
            Some(b) => Some(*b),
            None => None,
        };
        if let Some(b) = found {
            let mut b = b;
            let d = b.check_at(class, now);
            self.clients.insert(k, b);
            return d;
        }
        if self.clients.len() >= MAX_TRACKED_KEYS {
            let due = match self.swept_at {
                None => true,
                Some(at) => now >= at + SWEEP_INTERVAL,
            };
            if due {
                self.sweep(now);
            }
        }
        if self.clients.len() < MAX_TRACKED_KEYS {
            let mut b = Bucket::new();
            let d = b.check_at(class, now);
            self.clients.insert(k, b);
            d
        } else {
            let mut b = match self.overflow {
                Some(b) => b,
                None => Bucket::new(),
            };
            let d = b.check_at(class, now);
            self.overflow = Some(b);
            d
        }
    }

    /// Whether any request has been charged to the overflow bucket.
    pub fn overflowed(&self) -> (r: bool)
        ensures
            r == (self.overflow_bucket() is Some),
    {
        self.overflow.is_some()
    }
}

// ---------------------------------------------------------------------------
// Laws
// ---------------------------------------------------------------------------
/// A bucket that has refilled completely decides every request exactly as
/// a new bucket would, and is left in the same state: forgetting it, as a
/// sweep does, changes no answer the limiter gives.
pub proof fn law_a_refilled_bucket_decides_as_a_new_one(c: Class, tat: int, now: int)
    requires
        c.burst >= 1,
        0 <= tat <= now,
    ensures
        decision_of(c, tat, now) == decision_of(c, 0, now),
        next_tat(c, tat, now) == next_tat(c, 0, now),
{
    let g = c.gap() as int;
    assert(g <= g * c.burst) by (nonlinear_arith)
        requires
            g >= 0,
            c.burst >= 1,
    ;
}

/// The TAT after `k` admitted requests at one instant, starting full.
pub open spec fn tat_after(c: Class, now: int, k: nat) -> int {
    now + k * c.gap()
}

/// A full bucket admits exactly its burst at one instant: the `k`-th request
/// (counting from zero) at `now` against a bucket that has refilled is
/// admitted when `k` is below the burst and refused when it is not, leaving
/// `burst - k - 1` tokens; and each admitted request moves the TAT one gap.
pub proof fn law_burst_is_spent_then_refused(c: Class, now: int, k: nat)
    requires
        meterable(c),
        c.gap() > 0,
        0 <= now,
    ensures
        admits(c, tat_after(c, now, k), now) <==> k < c.burst,
        k < c.burst ==> next_tat(c, tat_after(c, now, k), now) == tat_after(c, now, k + 1),
        k < c.burst ==> decision_of(c, tat_after(c, now, k), now).remaining == c.burst - k - 1,
{
    let g = c.gap() as int;
    let b = c.burst as int;
    assert(c.refill() == g * b);
    assert(k * g >= 0) by (nonlinear_arith)
        requires
            g > 0,
            k >= 0,
    ;
    assert(start_of(tat_after(c, now, k), now) == now + k * g);
    assert((now + k * g + g <= now + g * b) <==> k < b) by (nonlinear_arith)
        requires
            g > 0,
    ;
    if k < b {
        assert((now + g * b - (now + (k + 1) * g)) / g == b - k - 1) by (nonlinear_arith)
            requires
                g > 0,
                k < b,
        ;
        assert(now + k * g + g == now + (k + 1) * g) by (nonlinear_arith);
        assert(b - k - 1 <= u32::MAX);
    }
}

/// A refused client that waits the `Retry-After` it was told is admitted:
/// the number is never too small. (The bucket is one the meter keeps, no
/// more than a full refill ahead of the clock.)
pub proof fn law_retry_after_is_enough(c: Class, tat: int, now: int)
    requires
        meterable(c),
        c.burst >= 1,
        0 <= now,
        0 <= tat <= now + c.refill(),
        c.refill() <= u64::MAX * SECOND,
        !admits(c, tat, now),
    ensures
        admits(
            c,
            tat,
            now + decision_of(c, tat, now).retry_after_seconds.unwrap() * SECOND,
        ),
{
    let g = c.gap() as int;
    let f = c.refill() as int;
    let owed = start_of(tat, now) + g - f - now;
    let wait = ceil_seconds(owed);
    assert(f == g * c.burst);
    assert(g <= f) by (nonlinear_arith)
        requires
            f == g * c.burst,
            c.burst >= 1,
            g >= 0,
    ;
    assert(!(start_of(tat, now) + c.gap() <= now + c.refill()));
    assert(owed > 0);
    assert(wait * SECOND >= owed) by (nonlinear_arith)
        requires
            wait == (owed + SECOND - 1) / (SECOND as int),
            owed > 0,
    ;
    assert(0 <= wait <= u64::MAX) by (nonlinear_arith)
        requires
            wait == (owed + SECOND - 1) / (SECOND as int),
            owed > 0,
            owed <= u64::MAX * SECOND,
    ;
    assert(decision_of(c, tat, now).retry_after_seconds.unwrap() == wait);
}

/// The bucket's TAT after requests at each of `times`, in turn.
pub open spec fn tat_through(c: Class, tat: int, times: Seq<int>) -> int
    decreases times.len(),
{
    if times.len() == 0 {
        tat
    } else {
        next_tat(c, tat_through(c, tat, times.drop_last()), times.last())
    }
}

/// How many of the requests at `times` the bucket admits, in turn.
pub open spec fn admitted(c: Class, tat: int, times: Seq<int>) -> nat
    decreases times.len(),
{
    if times.len() == 0 {
        0
    } else {
        admitted(c, tat, times.drop_last()) + if admits(
            c,
            tat_through(c, tat, times.drop_last()),
            times.last(),
        ) {
            1nat
        } else {
            0nat
        }
    }
}

#[verifier::spinoff_prover]
proof fn lemma_admitted_bounds(c: Class, tat: int, times: Seq<int>, t0: int, t1: int)
    requires
        c.gap() > 0,
        forall|i: int| 0 <= i < times.len() ==> t0 <= #[trigger] times[i] <= t1,
    ensures
        admitted(c, tat, times) > 0 ==> tat_through(c, tat, times) >= t0 + admitted(c, tat, times)
            * c.gap() && tat_through(c, tat, times) <= t1 + c.refill(),
    decreases times.len(),
{
    if times.len() > 0 {
        let before = times.drop_last();
        assert(forall|i: int| 0 <= i < before.len() ==> before[i] == times[i]);
        lemma_admitted_bounds(c, tat, before, t0, t1);
        let prev = tat_through(c, tat, before);
        let m = admitted(c, tat, before);
        let now = times.last();
        assert(t0 <= now <= t1);
        let g = c.gap() as int;
        assert(tat_through(c, tat, times) == next_tat(c, prev, now));
        if admits(c, prev, now) {
            assert(admitted(c, tat, times) == m + 1);
            assert((m + 1) * g == m * g + g) by (nonlinear_arith);
            assert(m * g >= 0) by (nonlinear_arith)
                requires
                    g > 0,
            ;
            let start = start_of(prev, now);
            assert(next_tat(c, prev, now) == start + g);
            assert(start + g <= t1 + c.refill());
            if m > 0 {
                assert(start >= prev);
                assert(prev >= t0 + m * g);
            } else {
                assert(m * g == 0);
                assert(start >= t0);
            }
        } else {
            assert(admitted(c, tat, times) == m);
            assert(tat_through(c, tat, times) == prev);
        }
    }
}

/// After the burst, a client gets the published rate and no more: however
/// its requests fall within a span from `t0` to `t1`, the bucket admits at
/// most the span's worth of tokens (one per gap) plus the burst.
pub proof fn law_the_sustained_rate_is_the_published_one(
    c: Class,
    tat: int,
    times: Seq<int>,
    t0: int,
    t1: int,
)
    requires
        c.gap() > 0,
        t0 <= t1,
        forall|i: int| 0 <= i < times.len() ==> t0 <= #[trigger] times[i] <= t1,
    ensures
        admitted(c, tat, times) * c.gap() <= (t1 - t0) + c.refill(),
{
    lemma_admitted_bounds(c, tat, times, t0, t1);
    let m = admitted(c, tat, times);
    let g = c.gap();
    if m == 0 {
        assert(m * g == 0) by (nonlinear_arith)
            requires
                m == 0,
        ;
    } else {
        assert(tat_through(c, tat, times) >= t0 + m * g);
        assert(tat_through(c, tat, times) <= t1 + c.refill());
    }
}

} // verus!
