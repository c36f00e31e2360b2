//! A non-blocking timer for retrying an operation with a fixed delay or an
//! exponential backoff.
use core::ops::RangeInclusive;
use rand::{Rng, SeedableRng};
use vstd::arithmetic::mul::lemma_mul_upper_bound;
use vstd::arithmetic::power2::{lemma2_to64, lemma_pow2_strictly_increases, lemma_pow2_unfold, pow2};
use vstd::prelude::*;

use crate::time::{spec_after, spec_not_before, Instant, Millis, HALF_RANGE};

verus! {

/// A number of attempts
#[derive(Debug, Default, Clone, Copy, PartialEq, Eq, PartialOrd, Ord, Hash, Structural)]
pub struct Attempts(pub u16);

impl core::ops::Add for Attempts {
    type Output = Attempts;

    fn add(self, rhs: Attempts) -> (r: Attempts) {
        Attempts(self.0 + rhs.0)
    }
}

impl vstd::std_specs::ops::AddSpecImpl for Attempts {
    open spec fn obeys_add_spec() -> bool {
        true
    }

    open spec fn add_req(self, rhs: Attempts) -> bool {
        self.0 + rhs.0 <= u16::MAX
    }

    open spec fn add_spec(self, rhs: Attempts) -> Attempts {
        Attempts((self.0 + rhs.0) as u16)
    }
}

impl core::ops::Sub for Attempts {
    type Output = Attempts;

    fn sub(self, rhs: Attempts) -> (r: Attempts) {
        Attempts(self.0 - rhs.0)
    }
}

impl vstd::std_specs::ops::SubSpecImpl for Attempts {
    open spec fn obeys_sub_spec() -> bool {
        true
    }

    open spec fn sub_req(self, rhs: Attempts) -> bool {
        self.0 >= rhs.0
    }

    open spec fn sub_spec(self, rhs: Attempts) -> Attempts {
        Attempts((self.0 - rhs.0) as u16)
    }
}

impl core::ops::Mul for Attempts {
    type Output = Attempts;

    fn mul(self, rhs: Attempts) -> (r: Attempts) {
        Attempts(self.0 * rhs.0)
    }
}

impl vstd::std_specs::ops::MulSpecImpl for Attempts {
    open spec fn obeys_mul_spec() -> bool {
        true
    }

    open spec fn mul_req(self, rhs: Attempts) -> bool {
        self.0 * rhs.0 <= u16::MAX
    }

    open spec fn mul_spec(self, rhs: Attempts) -> Attempts {
        Attempts((self.0 * rhs.0) as u16)
    }
}

/// What a [`RetryTimer`] says to do after the operation failed again
#[derive(PartialEq, Eq, Debug, Clone, Copy, Structural)]
pub enum YouShould {
    /// Attempts have been exhausted: the work being retried should be
    /// considered poisoned.
    Cry,
    /// A retry should be performed
    Retry,
}

/// The timer has not yet waited long enough for the next attempt: ask again later.
#[derive(PartialEq, Eq, Debug, Clone, Copy, Structural)]
pub struct WouldBlock;

/// Strategy to employ when retrying
#[derive(Debug, Clone, Copy, PartialEq, Eq, PartialOrd, Ord, Hash, Structural)]
pub enum Strategy {
    /// Pick a random delay between `init_min` and `init_max` for the second
    /// attempt, and double the delay after each further failure.
    Exponential {
        /// Minimum (inclusive) delay for the second attempt
        init_min: Millis,
        /// Maximum (inclusive) delay for the second attempt
        init_max: Millis,
    },
    /// Pick a random delay between `min` and `max`, and wait that long
    /// between attempts.
    Delay {
        /// Minimum (inclusive) delay for attempts
        min: Millis,
        /// Maximum (inclusive) delay for attempts
        max: Millis,
    },
}

/// Total delay from the first attempt until attempt number `attempt + 1`
/// under exponential backoff: `init * 2^(attempt - 1)`
pub open spec fn spec_total_delay_exp(init: u64, attempt: u16) -> int {
    init * pow2((attempt - 1) as nat)
}

/// [`Strategy::total_delay_exp`] can compute its result for these arguments
pub open spec fn exp_fits(init: u64, attempt: u16) -> bool {
    &&& 1 <= attempt <= 64
    &&& spec_total_delay_exp(init, attempt) <= u64::MAX
}

impl Strategy {
    /// The inclusive bounds of the first delay
    pub open spec fn spec_bounds(self) -> (u64, u64) {
        match self {
            Strategy::Exponential { init_min, init_max } => (init_min.0, init_max.0),
            Strategy::Delay { min, max } => (min.0, max.0),
        }
    }

    /// Time spent waiting when `max_attempts` attempts all fail
    pub open spec fn spec_max_time(self, max_attempts: u16) -> int {
        match self {
            Strategy::Exponential { init_max, .. } => spec_total_delay_exp(
                init_max.0,
                max_attempts,
            ),
            Strategy::Delay { max, .. } => max.0 * max_attempts,
        }
    }

    /// [`Strategy::max_time`] can compute its result for these attempts
    pub open spec fn max_time_fits(self, max_attempts: u16) -> bool {
        match self {
            Strategy::Exponential { init_max, .. } => exp_fits(init_max.0, max_attempts),
            Strategy::Delay { max, .. } => max.0 * max_attempts <= u64::MAX,
        }
    }

    fn bounds(&self) -> (r: (u64, u64))
        ensures
            r == self.spec_bounds(),
    {
        match self {
            Strategy::Exponential { init_min, init_max } => (init_min.0, init_max.0),
            Strategy::Delay { min, max } => (min.0, max.0),
        }
    }

    /// Are min & max delays different? If they are the same, no random
    /// number needs to be drawn.
    pub fn has_jitter(&self) -> (r: bool)
        ensures
            r == (self.spec_bounds().0 != self.spec_bounds().1),
    {
        let (lo, hi) = self.bounds();
        lo != hi
    }

    /// The min & max durations as an inclusive range
    pub fn range(&self) -> (r: RangeInclusive<u64>)
        ensures
            r@.start == self.spec_bounds().0,
            r@.end == self.spec_bounds().1,
            !r@.exhausted,
    {
        let (lo, hi) = self.bounds();
        RangeInclusive::new(lo, hi)
    }

    /// The amount of time this strategy waits if all attempts fail
    pub fn max_time(&self, max_attempts: Attempts) -> (r: Millis)
        requires
            self.max_time_fits(max_attempts.0),
        ensures
            r.0 == self.spec_max_time(max_attempts.0),
    {
        match self {
            Strategy::Exponential { init_max, .. } => Millis(
                Strategy::total_delay_exp(*init_max, max_attempts.0),
            ),
            Strategy::Delay { max, .. } => Millis(max.0 * (max_attempts.0 as u64)),
        }
    }

    /// Given the initial delay and the number of attempts performed so far,
    /// the total delay from the first attempt until the next retry.
    ///
    /// | attempt | total delay |
    /// |---------|-------------|
    /// | 1       | init        |
    /// | 2       | init * 2    |
    /// | 3       | init * 4    |
    /// | n       | init * 2^(n-1) |
    pub fn total_delay_exp(init: Millis, attempt: u16) -> (r: u64)
        requires
            exp_fits(init.0, attempt),
        ensures
            r == spec_total_delay_exp(init.0, attempt),
    {
        let mut p: u64 = 1;
        let mut i: u16 = 1;
        proof {
            lemma2_to64();
        }
        while i < attempt
            invariant
                1 <= i <= attempt <= 64,
                p == pow2((i - 1) as nat),
            decreases attempt - i,
        {
            proof {
                lemma_pow2_unfold(i as nat);
                lemma_pow2_strictly_increases(i as nat, 64);
                lemma2_to64();
            }
            p = p * 2;
            i = i + 1;
        }
        init.0 * p
    }
}

/// The draw that a ChaCha8 generator seeded with `seed` makes from `lo..=hi`
pub uninterp spec fn seeded_draw(seed: u64, lo: u64, hi: u64) -> u64;

/// Seeds `rand_chacha::ChaCha8Rng` with `SeedableRng::seed_from_u64(seed)` and
/// draws one value with `rand::Rng::gen_range(lo..=hi)`. The generator is
/// deterministic, so the draw is a function of the arguments; `gen_range`
/// documents that its result lies in the range, and panics on an empty one.
#[verifier::external_body]
fn draw_in_range(seed: u64, lo: u64, hi: u64) -> (r: u64)
    requires
        lo <= hi,
    ensures
        r == seeded_draw(seed, lo, hi),
        lo <= r <= hi,
{
    let mut rng = rand_chacha::ChaCha8Rng::seed_from_u64(seed);
    rng.gen_range(lo..=hi)
}

/// The state of a [`RetryTimer`], instants and durations in milliseconds
pub struct RetryState {
    pub start: u64,
    pub last_attempted_at: Option<u64>,
    pub init: u64,
    pub strategy: Strategy,
    pub attempts: u16,
    pub max_attempts: u16,
}

impl RetryState {
    /// Delay from the first attempt until the next one may be made
    pub open spec fn after_start(self) -> int {
        match self.strategy {
            Strategy::Delay { .. } => self.init * self.attempts,
            Strategy::Exponential { .. } => spec_total_delay_exp(self.init, self.attempts),
        }
    }

    /// The next attempt time can be computed: the delay fits in half the
    /// clock's range (and the exponent in a `u64`)
    pub open spec fn can_schedule(self) -> bool {
        &&& self.after_start() <= HALF_RANGE
        &&& match self.strategy {
            Strategy::Delay { .. } => true,
            Strategy::Exponential { .. } => 1 <= self.attempts <= 64,
        }
    }

    /// Instant at which the next attempt may be made
    pub open spec fn next_at(self) -> u64 {
        spec_after(self.start, self.after_start() as u64)
    }

    /// The timer is asked again at `now`: its new state and its answer
    /// (`None` meaning "not yet")
    pub open spec fn step(self, now: u64) -> (RetryState, Option<YouShould>) {
        if self.attempts >= self.max_attempts {
            (self, Some(YouShould::Cry))
        } else if spec_not_before(now, self.next_at()) {
            (
                RetryState {
                    attempts: (self.attempts + 1) as u16,
                    last_attempted_at: Some(now),
                    ..self
                },
                Some(YouShould::Retry),
            )
        } else {
            (self, None)
        }
    }

    /// The timer may be asked: it has given up, or can compute when to retry
    pub open spec fn can_ask(self) -> bool {
        self.attempts >= self.max_attempts || self.can_schedule()
    }

    /// State after being asked at each of `nows` in turn
    pub open spec fn run(self, nows: Seq<u64>) -> RetryState
        decreases nows.len(),
    {
        if nows.len() == 0 {
            self
        } else {
            self.step(nows[0]).0.run(nows.drop_first())
        }
    }

    /// How many of the answers to `nows` were [`YouShould::Retry`]
    pub open spec fn retries(self, nows: Seq<u64>) -> nat
        decreases nows.len(),
    {
        if nows.len() == 0 {
            0
        } else {
            let (next, answer) = self.step(nows[0]);
            (if answer == Some(YouShould::Retry) {
                1nat
            } else {
                0nat
            }) + next.retries(nows.drop_first())
        }
    }
}

/// The state of a new timer started at `start`: its first delay is drawn from
/// the strategy's range by a generator seeded with `start`, unless the range
/// holds one value
pub open spec fn new_timer_state(start: u64, strategy: Strategy, max_attempts: u16) -> RetryState {
    RetryState {
        start,
        last_attempted_at: None,
        init: if strategy.spec_bounds().0 != strategy.spec_bounds().1 {
            seeded_draw(start, strategy.spec_bounds().0, strategy.spec_bounds().1)
        } else {
            strategy.spec_bounds().0
        },
        strategy,
        attempts: 1,
        max_attempts,
    }
}

/// A non-blocking timer that allows a fixed-delay or exponential-backoff retry,
/// and lives alongside some operation to retry.
///
/// It does not contain the work to be done: the caller asks it what to do each
/// time the work fails.
#[derive(Debug, Clone, Copy, PartialEq, Eq)]
pub struct RetryTimer {
    start: Instant,
    last_attempted_at: Option<Instant>,
    init: Millis,
    strategy: Strategy,
    attempts: Attempts,
    max_attempts: Attempts,
}

impl View for RetryTimer {
    type V = RetryState;

    closed spec fn view(&self) -> RetryState {
        RetryState {
            start: self.start.0,
            last_attempted_at: match self.last_attempted_at {
                Some(t) => Some(t.0),
                None => None,
            },
            init: self.init.0,
            strategy: self.strategy,
            attempts: self.attempts.0,
            max_attempts: self.max_attempts.0,
        }
    }
}

impl RetryTimer {
    /// Create a new retrier whose first delay is `init`
    pub fn with_delay(start: Instant, strategy: Strategy, max_attempts: Attempts, init: Millis) -> (r:
        Self)
        ensures
            r@ == (RetryState {
                start: start.0,
                last_attempted_at: None,
                init: init.0,
                strategy,
                attempts: 1,
                max_attempts: max_attempts.0,
            }),
    {
        RetryTimer {
            start,
            last_attempted_at: None,
            init,
            strategy,
            attempts: Attempts(1),
            max_attempts,
        }
    }

    /// Create a new retrier. Where the strategy has jitter, the first delay is
    /// drawn from its range by a generator seeded with the start time.
    pub fn new(start: Instant, strategy: Strategy, max_attempts: Attempts) -> (r: Self)
        requires
            strategy.spec_bounds().0 <= strategy.spec_bounds().1,
        ensures
            r@ == new_timer_state(start.0, strategy, max_attempts.0),
            strategy.spec_bounds().0 <= r@.init <= strategy.spec_bounds().1,
    {
        let (lo, hi) = strategy.bounds();
        let init = if strategy.has_jitter() {
            let seed = start.duration_since_epoch();
            Millis(draw_in_range(seed.0, lo, hi))
        } else {
            Millis(lo)
        };
        RetryTimer::with_delay(start, strategy, max_attempts, init)
    }

    /// When the operation being retried fails, ask the timer what to do.
    ///
    /// Returns `Err(WouldBlock)` when the appropriate time to retry has not
    /// come yet.
    pub fn what_should_i_do(&mut self, now: Instant) -> (r: Result<YouShould, WouldBlock>)
        requires
            old(self)@.can_ask(),
        ensures
            final(self)@ == old(self)@.step(now.0).0,
            match r {
                Ok(y) => old(self)@.step(now.0).1 == Some(y),
                Err(_) => old(self)@.step(now.0).1 is None,
            },
    {
        if self.attempts.0 >= self.max_attempts.0 {
            Ok(YouShould::Cry)
        } else {
            let next = self.next_attempt_at();
            if now.is_not_before(&next) {
                self.attempts = Attempts(self.attempts.0 + 1);
                self.last_attempted_at = Some(now);
                Ok(YouShould::Retry)
            } else {
                Err(WouldBlock)
            }
        }
    }

    /// The instant this retry timer was first attempted
    pub fn first_attempted_at(&self) -> (r: Instant)
        ensures
            r.0 == self@.start,
    {
        self.start
    }

    /// The instant this retry timer was last attempted, or the first attempt
    /// if it has not been retried
    pub fn last_attempted_at(&self) -> (r: Instant)
        ensures
            r.0 == match self@.last_attempted_at {
                Some(t) => t,
                None => self@.start,
            },
    {
        match self.last_attempted_at {
            Some(t) => t,
            None => self.first_attempted_at(),
        }
    }

    /// Whether the timer may be asked what to do: it has given up, or the
    /// time of its next attempt can be computed
    pub fn can_ask(&self) -> (r: bool)
        ensures
            r == self@.can_ask(),
    {
        if self.attempts.0 >= self.max_attempts.0 {
            return true;
        }
        let init = self.init.0 as u128;
        let n = self.attempts.0;
        match self.strategy {
            Strategy::Delay { .. } => {
                assert(init * n <= 0xffff_ffff_ffff_ffffu128 * 0xffffu128) by (nonlinear_arith)
                    requires
                        init <= 0xffff_ffff_ffff_ffffu128,
                        n <= 0xffff,
                ;
                let d = init * (n as u128);
                d <= HALF_RANGE as u128
            },
            Strategy::Exponential { .. } => {
                if n < 1 || n > 64 {
                    return false;
                }
                let mut p: u128 = 1;
                let mut i: u16 = 1;
                proof {
                    lemma2_to64();
                }
                while i < n
                    invariant
                        1 <= i <= n <= 64,
                        p == pow2((i - 1) as nat),
                    decreases n - i,
                {
                    proof {
                        lemma_pow2_unfold(i as nat);
                        lemma_pow2_strictly_increases((i - 1) as nat, 64);
                        lemma2_to64();
                    }
                    p = p * 2;
                    i = i + 1;
                }
                proof {
                    lemma_pow2_strictly_increases((i - 1) as nat, 64);
                    lemma2_to64();
                }
                assert(init * p <= 0xffff_ffff_ffff_ffffu128 * 0x1_0000_0000_0000_0000u128) by (nonlinear_arith)
                    requires
                        init <= 0xffff_ffff_ffff_ffffu128,
                        p <= 0x1_0000_0000_0000_0000u128,
                ;
                let d = init * p;
                d <= HALF_RANGE as u128
            },
        }
    }

    /// The instant at which the next attempt may be made
    pub fn next_attempt_at(&self) -> (r: Instant)
        requires
            self@.can_schedule(),
        ensures
            r.0 == self@.next_at(),
    {
        let after_start = match self.strategy {
            Strategy::Delay { .. } => {
                proof {
                    lemma_mul_upper_bound(
                        self.init.0 as int,
                        self.init.0 as int,
                        self.attempts.0 as int,
                        self.attempts.0 as int,
                    );
                }
                Millis(self.init.0 * (self.attempts.0 as u64))
            },
            Strategy::Exponential { .. } => Millis(
                Strategy::total_delay_exp(self.init, self.attempts.0),
            ),
        };
        match self.start.checked_add(after_start) {
            Some(t) => t,
            None => self.start,
        }
    }
}

/// Once a timer has said to give up, it keeps saying so, and its state no
/// longer changes.
pub proof fn lemma_cry_is_final(t: RetryState, now: u64, later: u64)
    requires
        t.step(now).1 == Some(YouShould::Cry),
    ensures
        t.step(now).0 == t,
        t.step(now).0.step(later) == (t, Some(YouShould::Cry)),
{
}

/// Being told to wait leaves the timer as it was.
pub proof fn lemma_would_block_keeps_state(t: RetryState, now: u64)
    requires
        t.step(now).1 is None,
    ensures
        t.step(now).0 == t,
{
}

/// Each retry counts one attempt, and a timer never counts more attempts
/// than it allows: a timer that has made `a` of its `m` attempts answers
/// "retry" at most `m - a` more times, however often and whenever it is asked.
pub proof fn lemma_retries_bounded(t: RetryState, nows: Seq<u64>)
    ensures
        t.run(nows).attempts == t.attempts + t.retries(nows),
        t.attempts <= t.max_attempts ==> t.run(nows).attempts <= t.max_attempts,
        t.attempts <= t.max_attempts ==> t.retries(nows) <= t.max_attempts - t.attempts,
        t.attempts > t.max_attempts ==> t.retries(nows) == 0,
    decreases nows.len(),
{
    if nows.len() > 0 {
        lemma_retries_bounded(t.step(nows[0]).0, nows.drop_first());
    }
}

/// Asking a timer, however often and whenever, changes only how many
/// attempts it has made and when it made the last one: its start, first
/// delay, strategy and limit stay. So after `r` retries from `a` attempts the
/// next attempt falls `d(a + r)` after the start, where `d(n)` is `n` times
/// the first delay for a fixed delay and `2^(n - 1)` times it under
/// exponential backoff.
pub proof fn lemma_run_keeps_schedule(t: RetryState, nows: Seq<u64>)
    ensures
        t.run(nows).start == t.start,
        t.run(nows).init == t.init,
        t.run(nows).strategy == t.strategy,
        t.run(nows).max_attempts == t.max_attempts,
        t.run(nows).attempts == t.attempts + t.retries(nows),
        t.strategy is Delay ==> t.run(nows).after_start() == t.init * (t.attempts + t.retries(nows)),
        t.strategy is Exponential ==> t.run(nows).after_start() == spec_total_delay_exp(
            t.init,
            (t.attempts + t.retries(nows)) as u16,
        ),
    decreases nows.len(),
{
    lemma_retries_bounded(t, nows);
    if nows.len() > 0 {
        lemma_run_keeps_schedule(t.step(nows[0]).0, nows.drop_first());
    }
}

/// A new timer allows exactly `max_attempts - 1` retries before giving up,
/// when asked late enough each time.
pub proof fn lemma_new_timer_retries(t: RetryState, nows: Seq<u64>)
    requires
        t.attempts == 1,
        t.max_attempts >= 1,
    ensures
        t.retries(nows) <= t.max_attempts - 1,
{
    lemma_retries_bounded(t, nows);
}

/// Under exponential backoff each retry doubles the total delay since the
/// first attempt; under a fixed delay each retry adds the delay once more.
pub proof fn lemma_backoff(t: RetryState, now: u64)
    requires
        t.attempts >= 1,
        t.step(now).1 == Some(YouShould::Retry),
    ensures
        t.strategy is Exponential ==> t.step(now).0.after_start() == 2 * t.after_start(),
        t.strategy is Delay ==> t.step(now).0.after_start() == t.after_start() + t.init,
{
    let n = t.step(now).0;
    if t.strategy is Exponential {
        lemma_pow2_unfold(t.attempts as nat);
        assert(n.after_start() == t.init * pow2(t.attempts as nat));
        assert(t.init * pow2(t.attempts as nat) == t.init * (2 * pow2((t.attempts - 1) as nat)));
        assert(t.init * (2 * pow2((t.attempts - 1) as nat)) == 2 * (t.init * pow2(
            (t.attempts - 1) as nat,
        ))) by (nonlinear_arith);
    } else {
        assert(t.init * (t.attempts + 1) == t.init * t.attempts + t.init) by (nonlinear_arith);
    }
}

/// [`Strategy::max_time`] bounds the wait: whatever first delay the timer
/// drew from the strategy's range, the delay before any of its allowed
/// attempts is at most the strategy's maximum time for that many attempts.
pub proof fn lemma_max_time_bounds_delay(t: RetryState)
    requires
        t.strategy.spec_bounds().0 <= t.init <= t.strategy.spec_bounds().1,
        1 <= t.attempts <= t.max_attempts,
    ensures
        t.after_start() <= t.strategy.spec_max_time(t.max_attempts),
{
    let hi = t.strategy.spec_bounds().1;
    match t.strategy {
        Strategy::Delay { .. } => {
            lemma_mul_upper_bound(
                t.init as int,
                hi as int,
                t.attempts as int,
                t.max_attempts as int,
            );
        },
        Strategy::Exponential { .. } => {
            let a = (t.attempts - 1) as nat;
            let m = (t.max_attempts - 1) as nat;
            if a < m {
                lemma_pow2_strictly_increases(a, m);
            }
            lemma_mul_upper_bound(t.init as int, hi as int, pow2(a) as int, pow2(m) as int);
        },
    }
}

} // verus!
