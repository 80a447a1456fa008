//! Seeds for the reproducible draws: a time bucket and the request's context,
//! hashed in a fixed order with `FxHasher`.
use rustc_hash::FxBuildHasher;
use std::hash::BuildHasher;
use vstd::prelude::*;

verus! {

pub const SECOND: u64 = 1;
pub const MINUTE: u64 = 60;
pub const HOUR: u64 = 3600;
pub const DAY: u64 = 86400;
/// Days begin at midnight UTC+7.
pub const DAY_OFFSET: u64 = 25200;

/// The granularity of a time bucket.
#[derive(Debug, Clone, Copy, PartialEq, Eq, Structural)]
pub enum TimeHash {
    Minute,
    Second,
    Day,
}

pub open spec fn bucket_len(kind: TimeHash) -> nat {
    match kind {
        TimeHash::Minute => MINUTE as nat,
        TimeHash::Second => SECOND as nat,
        TimeHash::Day => DAY as nat,
    }
}

pub open spec fn bucket_offset(kind: TimeHash) -> nat {
    match kind {
        TimeHash::Day => DAY_OFFSET as nat,
        _ => 0,
    }
}

/// The index of the bucket that holds the unix time `now`.
pub open spec fn bucket_index(now: nat, kind: TimeHash) -> nat {
    (now + bucket_offset(kind)) / bucket_len(kind)
}

/// `now - (now + offset) mod length`: the first second of the bucket that holds
/// `now`. The first bucket of all, which begins before the epoch, is cut at 0.
pub open spec fn bucket_start(now: nat, kind: TimeHash) -> nat {
    let back = (now + bucket_offset(kind)) % bucket_len(kind);
    if back <= now {
        (now - back) as nat
    } else {
        0
    }
}

/// Two times in the same bucket have the same bucket start, and two times in
/// different buckets have different ones.
pub proof fn lemma_bucket_start(t1: nat, t2: nat, kind: TimeHash)
    ensures
        bucket_index(t1, kind) == bucket_index(t2, kind) <==> bucket_start(t1, kind)
            == bucket_start(t2, kind),
{
    let len = bucket_len(kind) as int;
    let off = bucket_offset(kind) as int;
    let q1 = bucket_index(t1, kind) as int;
    let q2 = bucket_index(t2, kind) as int;
    let x1 = t1 + off;
    let x2 = t2 + off;
    assert(x1 == len * q1 + x1 % len) by (nonlinear_arith)
        requires len > 0, q1 == x1 / len;
    assert(x2 == len * q2 + x2 % len) by (nonlinear_arith)
        requires len > 0, q2 == x2 / len;
    assert(q1 != q2 ==> len * q1 != len * q2) by (nonlinear_arith)
        requires len > 0;
    assert(q1 >= 1 ==> len * q1 >= len) by (nonlinear_arith)
        requires len > 0;
    assert(q2 >= 1 ==> len * q2 >= len) by (nonlinear_arith)
        requires len > 0;
    assert(q1 > q2 ==> len * q1 >= len * q2 + len) by (nonlinear_arith)
        requires len > 0;
    assert(q2 > q1 ==> len * q2 >= len * q1 + len) by (nonlinear_arith)
        requires len > 0;
}

/// A later bucket starts at least one bucket length after an earlier one. The
/// first day bucket, which is cut at the epoch, is left out.
pub proof fn lemma_bucket_advance(t1: nat, t2: nat, kind: TimeHash)
    requires
        bucket_index(t1, kind) < bucket_index(t2, kind),
        kind == TimeHash::Day ==> bucket_index(t1, kind) >= 1,
    ensures
        bucket_start(t2, kind) >= bucket_start(t1, kind) + bucket_len(kind),
{
    let len = bucket_len(kind) as int;
    let off = bucket_offset(kind) as int;
    let q1 = bucket_index(t1, kind) as int;
    let q2 = bucket_index(t2, kind) as int;
    let x1 = t1 + off;
    let x2 = t2 + off;
    assert(x1 == len * q1 + x1 % len) by (nonlinear_arith)
        requires len > 0, q1 == x1 / len;
    assert(x2 == len * q2 + x2 % len) by (nonlinear_arith)
        requires len > 0, q2 == x2 / len;
    assert(len * q2 >= len * q1 + len) by (nonlinear_arith)
        requires len > 0, q2 > q1;
    assert(q1 >= 1 ==> len * q1 >= len) by (nonlinear_arith)
        requires len > 0;
}

/// Computes `bucket_start`.
pub fn bucket_start_of(now: u64, kind: TimeHash) -> (r: u64)
    ensures
        r == bucket_start(now as nat, kind),
{
    let (len, off) = match kind {
        TimeHash::Minute => (MINUTE, 0u64),
        TimeHash::Second => (SECOND, 0u64),
        TimeHash::Day => (DAY, DAY_OFFSET),
    };
    let back = (now % len + off) % len;
    proof {
        vstd::arithmetic::div_mod::lemma_add_mod_noop(now as int, off as int, len as int);
        vstd::arithmetic::div_mod::lemma_small_mod(off as nat, len as nat);
    }
    if back <= now {
        now - back
    } else {
        0
    }
}

/// Relies on `std::time::SystemTime`: the whole seconds elapsed since the unix
/// epoch, or 0 for a clock set before it. Nothing is known of the value.
#[verifier::external_body]
fn unix_now() -> (r: u64) {
    match std::time::UNIX_EPOCH.elapsed() {
        Ok(d) => d.as_secs(),
        Err(_) => 0,
    }
}

/// The view of an optional text.
pub open spec fn opt_text(s: Option<&str>) -> Option<Seq<char>> {
    match s {
        Some(t) => Some(t@),
        None => None,
    }
}

/// What `FxBuildHasher::hash_one` gives for `(time, user, prompt, amount)`.
pub uninterp spec fn fx_hash_draw(time: u64, user: u64, prompt: Option<Seq<char>>, amount: usize) -> u64;

/// What `FxBuildHasher::hash_one` gives for `(time, user, prompt)`.
pub uninterp spec fn fx_hash_answer(time: u64, user: u64, prompt: Seq<char>) -> u64;

/// What `FxBuildHasher::hash_one` gives for `(time, user1, user2)`.
pub uninterp spec fn fx_hash_pair(time: u64, user1: u64, user2: u64) -> u64;

/// Relies on `rustc_hash::FxBuildHasher::hash_one` on a tuple: a fresh `FxHasher`
/// fed the four fields in order and finished; a function of them alone.
#[verifier::external_body]
fn hash_draw(time: u64, user: u64, prompt: Option<&str>, amount: usize) -> (r: u64)
    ensures
        r == fx_hash_draw(time, user, opt_text(prompt), amount),
{
    FxBuildHasher.hash_one((time, user, prompt, amount))
}

/// Relies on `rustc_hash::FxBuildHasher::hash_one` on a tuple: a fresh `FxHasher`
/// fed the three fields in order and finished; a function of them alone.
#[verifier::external_body]
fn hash_answer(time: u64, user: u64, prompt: &str) -> (r: u64)
    ensures
        r == fx_hash_answer(time, user, prompt@),
{
    FxBuildHasher.hash_one((time, user, prompt))
}

/// Relies on `rustc_hash::FxBuildHasher::hash_one` on a tuple: a fresh `FxHasher`
/// fed the three fields in order and finished; a function of them alone.
#[verifier::external_body]
fn hash_pair(time: u64, user1: u64, user2: u64) -> (r: u64)
    ensures
        r == fx_hash_pair(time, user1, user2),
{
    FxBuildHasher.hash_one((time, user1, user2))
}

/// The granularity of a card draw: one a day without arguments, one a second
/// with an amount alone, one a minute with a prompt.
pub open spec fn draw_granularity(has_prompt: bool, has_amount: bool) -> TimeHash {
    if has_prompt {
        TimeHash::Minute
    } else if has_amount {
        TimeHash::Second
    } else {
        TimeHash::Day
    }
}

pub open spec fn draw_seed(now: u64, user: u64, prompt: Option<Seq<char>>, amount: Option<usize>) -> u64 {
    let kind = draw_granularity(prompt is Some, amount is Some);
    let n = match amount {
        Some(a) => a,
        None => 1,
    };
    fx_hash_draw(bucket_start(now as nat, kind) as u64, user, prompt, n)
}

pub open spec fn answer_seed(now: u64, user: u64, prompt: Seq<char>) -> u64 {
    fx_hash_answer(bucket_start(now as nat, TimeHash::Minute) as u64, user, prompt)
}

/// The pair is hashed in ascending order.
pub open spec fn pair_seed(now: u64, user1: u64, user2: u64) -> u64 {
    let (lo, hi) = if user1 <= user2 {
        (user1, user2)
    } else {
        (user2, user1)
    };
    fx_hash_pair(bucket_start(now as nat, TimeHash::Day) as u64, lo, hi)
}

/// Builds the seeds of the reproducible draws.
pub struct SeedGenerator;

impl SeedGenerator {
    /// The start of the current bucket of the given granularity.
    pub fn specific_time(kind: TimeHash) -> (r: u64)
        ensures
            exists|now: u64| r == bucket_start(now as nat, kind),
    {
        let now = unix_now();
        bucket_start_of(now, kind)
    }

    /// The seed of a card draw at unix time `now`.
    pub fn draw_seed(now: u64, user: u64, prompt: Option<&str>, amount: Option<usize>) -> (r: u64)
        ensures
            r == draw_seed(now, user, opt_text(prompt), amount),
    {
        let kind = match (prompt, amount) {
            (None, None) => TimeHash::Day,
            (None, Some(_)) => TimeHash::Second,
            (Some(_), _) => TimeHash::Minute,
        };
        let n = match amount {
            Some(a) => a,
            None => 1,
        };
        hash_draw(bucket_start_of(now, kind), user, prompt, n)
    }

    /// The seed of a book-of-answers draw with a prompt at unix time `now`.
    pub fn answer_seed(now: u64, user: u64, prompt: &str) -> (r: u64)
        ensures
            r == answer_seed(now, user, prompt@),
    {
        hash_answer(bucket_start_of(now, TimeHash::Minute), user, prompt)
    }

    /// The seed of the relationship between two users at unix time `now`.
    pub fn pair_seed(now: u64, user1: u64, user2: u64) -> (r: u64)
        ensures
            r == pair_seed(now, user1, user2),
    {
        let (lo, hi) = if user1 <= user2 {
            (user1, user2)
        } else {
            (user2, user1)
        };
        hash_pair(bucket_start_of(now, TimeHash::Day), lo, hi)
    }
}

/// Two card draws with the same inputs at times in the same bucket get the
/// same seed.
pub proof fn lemma_draw_seed_stable(
    t1: u64,
    t2: u64,
    user: u64,
    prompt: Option<Seq<char>>,
    amount: Option<usize>,
)
    requires
        bucket_index(t1 as nat, draw_granularity(prompt is Some, amount is Some))
            == bucket_index(t2 as nat, draw_granularity(prompt is Some, amount is Some)),
    ensures
        draw_seed(t1, user, prompt, amount) == draw_seed(t2, user, prompt, amount),
{
    lemma_bucket_start(t1 as nat, t2 as nat, draw_granularity(prompt is Some, amount is Some));
}

/// Two book-of-answers draws with the same user and prompt in the same minute
/// get the same seed.
pub proof fn lemma_answer_seed_stable(t1: u64, t2: u64, user: u64, prompt: Seq<char>)
    requires
        bucket_index(t1 as nat, TimeHash::Minute) == bucket_index(t2 as nat, TimeHash::Minute),
    ensures
        answer_seed(t1, user, prompt) == answer_seed(t2, user, prompt),
{
    lemma_bucket_start(t1 as nat, t2 as nat, TimeHash::Minute);
}

/// The relationship seed of a pair is the same on the same day, whatever the
/// order in which the two users are given.
pub proof fn lemma_pair_seed_stable(t1: u64, t2: u64, user1: u64, user2: u64)
    requires
        bucket_index(t1 as nat, TimeHash::Day) == bucket_index(t2 as nat, TimeHash::Day),
    ensures
        pair_seed(t1, user1, user2) == pair_seed(t2, user2, user1),
{
    lemma_bucket_start(t1 as nat, t2 as nat, TimeHash::Day);
}

} // verus!
