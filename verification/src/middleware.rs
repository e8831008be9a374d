//! The admission gate: a token bucket per client key. A bucket holds as many
//! tokens as are refilled in one second; time and tokens are counted in whole
//! nanoseconds and billionths of a token, so that a refill is exact.

use vstd::prelude::*;
use crate::text::same_text;

verus! {

/// One token, in billionths; also the nanoseconds in a second.
pub const BILLION: u64 = 1_000_000_000;

/// The balance of one client.
#[derive(Debug, Clone, Copy, PartialEq, Eq, Structural)]
pub struct TokenBucket {
    /// The balance, in billionths of a token.
    pub tokens: u64,
    /// When the balance was last brought up to date, in nanoseconds on the
    /// caller's clock.
    pub last_update: u64,
}

/// The bucket of one client key.
#[derive(Debug)]
pub struct BucketEntry {
    pub key: String,
    pub bucket: TokenBucket,
}

/// The most that a bucket holds, in billionths of a token.
pub open spec fn capacity(rate: u32) -> nat {
    (rate * BILLION) as nat
}

/// A bucket that is made at `now`: full.
pub open spec fn fresh(rate: u32, now: u64) -> TokenBucket {
    TokenBucket { tokens: capacity(rate) as u64, last_update: now }
}

/// The nanoseconds from `since` to `now`; none where the clock went back.
pub open spec fn elapsed(since: u64, now: u64) -> nat {
    if now >= since {
        (now - since) as nat
    } else {
        0
    }
}

/// The balance after the refill for the time that passed, capped at capacity.
pub open spec fn refilled(bucket: TokenBucket, rate: u32, now: u64) -> nat {
    let grown = bucket.tokens + elapsed(bucket.last_update, now) * rate;
    if grown <= capacity(rate) {
        grown as nat
    } else {
        capacity(rate)
    }
}

/// Whether a request at `now` is let through: a whole token is there after the
/// refill.
pub open spec fn admits(bucket: TokenBucket, rate: u32, now: u64) -> bool {
    refilled(bucket, rate, now) >= BILLION
}

/// The bucket after a request at `now`: refilled, and a token spent where the
/// request was let through.
pub open spec fn after_request(bucket: TokenBucket, rate: u32, now: u64) -> TokenBucket {
    TokenBucket {
        tokens: if admits(bucket, rate, now) {
            (refilled(bucket, rate, now) - BILLION) as u64
        } else {
            refilled(bucket, rate, now) as u64
        },
        last_update: now,
    }
}

/// Whether a bucket is kept under `key`.
pub open spec fn has_bucket(entries: Seq<BucketEntry>, key: Seq<char>) -> bool {
    exists|i: int| 0 <= i < entries.len() && (#[trigger] entries[i]).key@ == key
}

/// The place of the bucket kept under `key`.
pub open spec fn bucket_index(entries: Seq<BucketEntry>, key: Seq<char>) -> int {
    choose|i: int| 0 <= i < entries.len() && (#[trigger] entries[i]).key@ == key
}

/// No key has two buckets.
pub open spec fn keys_unique(entries: Seq<BucketEntry>) -> bool {
    forall|i: int, j: int|
        0 <= i < j < entries.len() ==> (#[trigger] entries[i]).key@ != (#[trigger] entries[j]).key@
}

/// The buckets by client key.
pub open spec fn buckets_of(entries: Seq<BucketEntry>) -> Map<Seq<char>, TokenBucket> {
    Map::new(
        |key: Seq<char>| has_bucket(entries, key),
        |key: Seq<char>| entries[bucket_index(entries, key)].bucket,
    )
}

/// The limiter with its rate and one bucket for every client that has asked.
#[derive(Debug)]
pub struct RateLimiter {
    tokens_per_second: u32,
    buckets: Vec<BucketEntry>,
}

impl View for RateLimiter {
    type V = Map<Seq<char>, TokenBucket>;

    closed spec fn view(&self) -> Map<Seq<char>, TokenBucket> {
        buckets_of(self.buckets@)
    }
}

/// The bucket of `key` as a request finds it: the one kept for the key, or a
/// fresh one.
pub open spec fn bucket_found(
    buckets: Map<Seq<char>, TokenBucket>,
    key: Seq<char>,
    rate: u32,
    now: u64,
) -> TokenBucket {
    if buckets.contains_key(key) {
        buckets[key]
    } else {
        fresh(rate, now)
    }
}

/// No bucket holds more than the capacity.
pub open spec fn within_capacity(buckets: Map<Seq<char>, TokenBucket>, rate: u32) -> bool {
    forall|key: Seq<char>| buckets.contains_key(key) ==> (#[trigger] buckets[key]).tokens <= capacity(rate)
}

impl RateLimiter {
    #[verifier::type_invariant]
    spec fn consistent(self) -> bool {
        &&& keys_unique(self.buckets@)
        &&& forall|i: int|
            0 <= i < self.buckets@.len() ==> (#[trigger] self.buckets@[i]).bucket.tokens
                <= capacity(self.tokens_per_second)
    }

    /// The rate, in tokens per second; also the most tokens that a bucket holds.
    pub closed spec fn rate(&self) -> u32 {
        self.tokens_per_second
    }

    /// A limiter that lets `tokens_per_second` requests per second through for
    /// each client, with no client seen yet.
    pub fn new(tokens_per_second: u32) -> (limiter: Self)
        ensures
            limiter.rate() == tokens_per_second,
            limiter@ == Map::<Seq<char>, TokenBucket>::empty(),
            within_capacity(limiter@, limiter.rate()),
    {
        let limiter = RateLimiter { tokens_per_second, buckets: Vec::new() };
        assert(limiter@ =~= Map::<Seq<char>, TokenBucket>::empty());
        limiter
    }

    /// The rate, in tokens per second.
    pub fn tokens_per_second(&self) -> (rate: u32)
        ensures
            rate == self.rate(),
    {
        self.tokens_per_second
    }

    fn position(&self, key: &str) -> (at: usize)
        ensures
            at <= self.buckets@.len(),
            forall|j: int| 0 <= j < at ==> (#[trigger] self.buckets@[j]).key@ != key@,
            at < self.buckets@.len() ==> self.buckets@[at as int].key@ == key@,
            (at < self.buckets@.len()) == has_bucket(self.buckets@, key@),
    {
        let mut i: usize = 0;
        while i < self.buckets.len() && !same_text(self.buckets[i].key.as_str(), key)
            invariant
                i <= self.buckets@.len(),
                forall|j: int| 0 <= j < i ==> (#[trigger] self.buckets@[j]).key@ != key@,
            decreases self.buckets@.len() - i,
        {
            i = i + 1;
        }
        proof {
            if i < self.buckets@.len() {
                assert(self.buckets@[i as int].key@ == key@);
            }
        }
        i
    }

    /// The bucket kept for a client, if the client has asked before.
    pub fn bucket(&self, client: &str) -> (found: Option<TokenBucket>)
        ensures
            found == if self@.contains_key(client@) {
                Some(self@[client@])
            } else {
                None
            },
            found is Some ==> found->0.tokens <= capacity(self.rate()),
    {
        proof {
            use_type_invariant(self);
        }
        let at = self.position(client);
        if at < self.buckets.len() {
            proof {
                lemma_bucket_index(self.buckets@, client@, at as int);
            }
            Some(self.buckets[at].bucket)
        } else {
            None
        }
    }

    /// Decides on a request of the client `client` at the time `now`, given in
    /// nanoseconds on a clock of the caller's. The client's bucket, full if the
    /// client is new, is refilled for the time since its last request; the
    /// request is let through if a whole token is there, which it then spends.
    pub fn allow(&mut self, client: &str, now: u64) -> (allowed: bool)
        ensures
            final(self).rate() == old(self).rate(),
            within_capacity(old(self)@, old(self).rate()),
            within_capacity(final(self)@, final(self).rate()),
            allowed == admits(
                bucket_found(old(self)@, client@, old(self).rate(), now),
                old(self).rate(),
                now,
            ),
            final(self)@ == old(self)@.insert(
                client@,
                after_request(
                    bucket_found(old(self)@, client@, old(self).rate(), now),
                    old(self).rate(),
                    now,
                ),
            ),
    {
        proof {
            use_type_invariant(&*self);
        }
        let rate = self.tokens_per_second;
        let full: u64 = (rate as u64) * BILLION;
        let at = self.position(client);
        let ghost before = self.buckets@;
        let found = if at < self.buckets.len() {
            proof {
                lemma_bucket_index(before, client@, at as int);
            }
            self.buckets[at].bucket
        } else {
            TokenBucket { tokens: full, last_update: now }
        };
        assert(found == bucket_found(old(self)@, client@, rate, now));
        let waited: u64 = if now >= found.last_update {
            now - found.last_update
        } else {
            0
        };
        assert(waited * rate <= 0xffff_ffff_ffff_ffff * 0xffff_ffff) by (nonlinear_arith)
            requires
                waited <= 0xffff_ffff_ffff_ffff,
                rate <= 0xffff_ffff,
        ;
        let grown: u128 = (found.tokens as u128) + (waited as u128) * (rate as u128);
        let balance: u64 = if grown <= full as u128 {
            grown as u64
        } else {
            full
        };
        assert(balance == refilled(found, rate, now));
        let allowed = balance >= BILLION;
        let left: u64 = if allowed {
            balance - BILLION
        } else {
            balance
        };
        let bucket = TokenBucket { tokens: left, last_update: now };
        let mut buckets: Vec<BucketEntry> = Vec::new();
        core::mem::swap(&mut self.buckets, &mut buckets);
        if at < buckets.len() {
            buckets.set(at, BucketEntry { key: String::from_str(client), bucket });
        } else {
            buckets.push(BucketEntry { key: String::from_str(client), bucket });
        }
        proof {
            lemma_bucket_written(before, buckets@, client@, bucket, at as int);
            lemma_within_capacity(before, rate);
            lemma_within_capacity(buckets@, rate);
        }
        *self = RateLimiter { tokens_per_second: rate, buckets };
        allowed
    }
}

/// The bucket of a new client after so many requests, all at the time `now`.
pub open spec fn after_burst(rate: u32, now: u64, requests: nat) -> TokenBucket
    decreases requests,
{
    if requests == 0 {
        fresh(rate, now)
    } else {
        after_request(after_burst(rate, now, (requests - 1) as nat), rate, now)
    }
}

/// The first request of a client is let through, unless the rate is zero.
pub proof fn law_first_request_admitted(rate: u32, now: u64)
    ensures
        admits(fresh(rate, now), rate, now) == (rate >= 1),
{
    assert(rate >= 1 ==> rate * BILLION >= BILLION) by (nonlinear_arith);
    assert(0 * rate == 0) by (nonlinear_arith);
}

/// Of the requests that a new client makes at one instant, the first
/// `tokens_per_second` are let through and every later one is turned away.
pub proof fn law_burst_is_capped(rate: u32, now: u64, earlier: nat)
    ensures
        admits(after_burst(rate, now, earlier), rate, now) == (earlier < rate),
{
    lemma_burst_balance(rate, now, earlier);
    let left = if earlier < rate {
        (rate - earlier) as nat
    } else {
        0
    };
    assert(0 * rate == 0) by (nonlinear_arith);
    assert(left >= 1 ==> left * BILLION >= BILLION) by (nonlinear_arith);
    assert(left <= rate ==> left * BILLION <= rate * BILLION) by (nonlinear_arith);
}

proof fn lemma_burst_balance(rate: u32, now: u64, requests: nat)
    ensures
        after_burst(rate, now, requests).last_update == now,
        after_burst(rate, now, requests).tokens == if requests < rate {
            (rate - requests) * BILLION
        } else {
            0
        },
    decreases requests,
{
    if requests > 0 {
        let earlier = (requests - 1) as nat;
        lemma_burst_balance(rate, now, earlier);
        let left = if earlier < rate {
            (rate - earlier) as nat
        } else {
            0
        };
        assert(0 * rate == 0) by (nonlinear_arith);
        assert(left >= 1 ==> left * BILLION >= BILLION) by (nonlinear_arith);
        assert(left <= rate ==> left * BILLION <= rate * BILLION) by (nonlinear_arith);
        assert(left >= 1 ==> left * BILLION - BILLION == (left - 1) * BILLION) by (nonlinear_arith);
    }
}

/// A client that has waited a second is let through, unless the rate is zero.
pub proof fn law_admitted_after_a_second(bucket: TokenBucket, rate: u32, now: u64)
    requires
        rate >= 1,
        now - bucket.last_update >= BILLION,
    ensures
        admits(bucket, rate, now),
{
    let waited = elapsed(bucket.last_update, now);
    assert(waited * rate >= BILLION) by (nonlinear_arith)
        requires
            waited >= BILLION,
            rate >= 1,
    ;
    assert(rate * BILLION >= BILLION) by (nonlinear_arith)
        requires
            rate >= 1,
    ;
}

proof fn lemma_within_capacity(entries: Seq<BucketEntry>, rate: u32)
    requires
        forall|i: int| 0 <= i < entries.len() ==> (#[trigger] entries[i]).bucket.tokens <= capacity(rate),
    ensures
        within_capacity(buckets_of(entries), rate),
{
    assert forall|key: Seq<char>| buckets_of(entries).contains_key(key) implies (
    #[trigger] buckets_of(entries)[key]).tokens <= capacity(rate) by {
        let i = bucket_index(entries, key);
        assert(entries[i].bucket.tokens <= capacity(rate));
    }
}

/// Where the keys are unique, the place of a key is the one place that holds it.
pub proof fn lemma_bucket_index(entries: Seq<BucketEntry>, key: Seq<char>, at: int)
    requires
        0 <= at < entries.len(),
        entries[at].key@ == key,
        keys_unique(entries),
    ensures
        has_bucket(entries, key),
        bucket_index(entries, key) == at,
{
    let chosen = bucket_index(entries, key);
    if chosen > at {
        assert(entries[at].key@ != entries[chosen].key@);
    } else if chosen < at {
        assert(entries[chosen].key@ != entries[at].key@);
    }
}

proof fn lemma_bucket_written(
    before: Seq<BucketEntry>,
    after: Seq<BucketEntry>,
    key: Seq<char>,
    bucket: TokenBucket,
    at: int,
)
    requires
        keys_unique(before),
        0 <= at <= before.len(),
        at < before.len() ==> before[at].key@ == key,
        forall|j: int| 0 <= j < before.len() && j != at ==> (#[trigger] before[j]).key@ != key,
        after.len() == if at < before.len() {
            before.len()
        } else {
            before.len() + 1
        },
        after[at].key@ == key,
        after[at].bucket == bucket,
        forall|j: int| 0 <= j < before.len() && j != at ==> #[trigger] after[j] == before[j],
    ensures
        keys_unique(after),
        buckets_of(after) == buckets_of(before).insert(key, bucket),
{
    assert forall|i: int, j: int| 0 <= i < j < after.len() implies (#[trigger] after[i]).key@ != (
    #[trigger] after[j]).key@ by {
        if i != at && j != at {
            assert(after[i] == before[i] && after[j] == before[j]);
        } else if i == at {
            assert(after[j] == before[j]);
        } else {
            assert(after[i] == before[i]);
        }
    }
    lemma_bucket_index(after, key, at);
    let wanted = buckets_of(before).insert(key, bucket);
    assert forall|k: Seq<char>| buckets_of(after).contains_key(k) <==> wanted.contains_key(k) by {
        if k != key {
            if has_bucket(after, k) {
                let i = bucket_index(after, k);
                assert(after[i] == before[i]);
            }
            if has_bucket(before, k) {
                let i = bucket_index(before, k);
                assert(after[i] == before[i]);
            }
        }
    }
    assert forall|k: Seq<char>| buckets_of(after).contains_key(k) implies buckets_of(after)[k]
        == wanted[k] by {
        if k != key {
            let i = bucket_index(after, k);
            assert(after[i] == before[i]);
            lemma_bucket_index(before, k, i);
        }
    }
    assert(buckets_of(after) =~= wanted);
}

} // verus!
