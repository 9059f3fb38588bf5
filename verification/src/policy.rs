use vstd::prelude::*;
use crate::period::{Period, MAX_NANOS};

verus! {

/// How the delay between retries grows.
#[derive(Debug, Clone, Copy, PartialEq, Eq, Structural)]
pub enum Backoff {
    Fixed,
    Exponential,
}

/// How often, and after what delay, a failed fetch is tried again.
#[derive(Debug, Clone, Copy, PartialEq, Eq, Structural)]
pub struct Retry {
    pub max_retries: u32,
    pub initial_delay: Period,
    pub max_delay: Period,
    pub backoff: Backoff,
}

/// Whether a resource refetches on its own, and how often.
#[derive(Debug, Clone, Copy, PartialEq, Eq, Structural)]
pub enum Refresh {
    Never,
    Every(Period),
}

/// The delay before retry number `n` (counted from 1), or `None` where no
/// retry is left: the initial delay, doubled for each retry after the first
/// under exponential backoff (at most 31 times, held at the largest span),
/// and never longer than the longest delay.
pub open spec fn delay_spec(r: Retry, n: u32) -> Option<Period> {
    if n == 0 || n > r.max_retries {
        None
    } else {
        let d: u128 = match r.backoff {
            Backoff::Fixed => r.initial_delay.nanos,
            Backoff::Exponential => {
                let shift: nat = if n - 1 < 31 { (n - 1) as nat } else { 31 };
                r.initial_delay.saturating_mul_spec(vstd::arithmetic::power2::pow2(shift) as u32)
            },
        };
        Some(Period { nanos: if d <= r.max_delay.nanos { d } else { r.max_delay.nanos } })
    }
}

/// Whether a throttled task may run now: it never ran, or at least
/// `interval` passed since it last did.
pub fn throttle_allows(since_last_run: Option<Period>, interval: Period) -> (r: bool)
    ensures
        r == match since_last_run {
            Some(e) => e.nanos >= interval.nanos,
            None => true,
        },
{
    match since_last_run {
        Some(e) => e.nanos >= interval.nanos,
        None => true,
    }
}

impl Retry {
    pub open spec fn none_spec() -> Retry {
        Retry { max_retries: 0, initial_delay: Period { nanos: 0 }, max_delay: Period { nanos: 0 }, backoff: Backoff::Fixed }
    }

    /// No retries.
    pub fn none() -> (r: Retry)
        ensures
            r == Self::none_spec(),
    {
        Retry { max_retries: 0, initial_delay: Period::zero(), max_delay: Period::zero(), backoff: Backoff::Fixed }
    }

    /// Up to `max_retries` retries, each after `delay`.
    pub fn fixed(max_retries: u32, delay: Period) -> (r: Retry)
        ensures
            r == (Retry { max_retries, initial_delay: delay, max_delay: delay, backoff: Backoff::Fixed }),
    {
        Retry { max_retries, initial_delay: delay, max_delay: delay, backoff: Backoff::Fixed }
    }

    /// Up to `max_retries` retries, the delay doubling from `initial_delay`
    /// up to thirty seconds.
    pub fn exponential(max_retries: u32, initial_delay: Period) -> (r: Retry)
        ensures
            r == (Retry { max_retries, initial_delay, max_delay: Period { nanos: 30_000_000_000 }, backoff: Backoff::Exponential }),
    {
        Retry { max_retries, initial_delay, max_delay: Period::from_secs(30), backoff: Backoff::Exponential }
    }

    /// Up to `max_retries` retries, the delay doubling from `initial_delay`
    /// up to `max_delay`.
    pub fn exponential_max(max_retries: u32, initial_delay: Period, max_delay: Period) -> (r: Retry)
        ensures
            r == (Retry { max_retries, initial_delay, max_delay, backoff: Backoff::Exponential }),
    {
        Retry { max_retries, initial_delay, max_delay, backoff: Backoff::Exponential }
    }

    /// The delay before retry number `retry_number` (counted from 1).
    pub fn delay_for_retry(self, retry_number: u32) -> (r: Option<Period>)
        ensures
            r == delay_spec(self, retry_number),
    {
        if retry_number == 0 || retry_number > self.max_retries {
            return None;
        }
        let delay = match self.backoff {
            Backoff::Fixed => self.initial_delay,
            Backoff::Exponential => {
                let shift: u32 = if retry_number - 1 < 31 { retry_number - 1 } else { 31 };
                proof {
                    vstd::bits::lemma_u32_pow2_no_overflow(shift as nat);
                    assert(1 * vstd::arithmetic::power2::pow2(shift as nat) == vstd::arithmetic::power2::pow2(shift as nat));
                    vstd::bits::lemma_u32_shl_is_mul(1, shift);
                }
                self.initial_delay.saturating_mul(1u32 << shift)
            },
        };
        Some(delay.min(self.max_delay))
    }
}


/// A longer multiplier never gives a shorter span.
proof fn lemma_saturating_mul_mono(p: Period, f: u32, g: u32)
    requires
        f <= g,
    ensures
        p.saturating_mul_spec(f) <= p.saturating_mul_spec(g),
{
    vstd::arithmetic::mul::lemma_mul_inequality(f as int, g as int, p.nanos as int);
    assert(p.nanos * f == f * p.nanos) by (nonlinear_arith);
    assert(p.nanos * g == g * p.nanos) by (nonlinear_arith);
}

/// Retries are numbered from one up to the policy's maximum, and no retry
/// waits longer than the longest delay. Under fixed backoff every retry
/// waits the same; under exponential backoff no retry waits less than the
/// one before it.
pub proof fn law_retry_delays(r: Retry, n: u32, m: u32)
    ensures
        delay_spec(r, n) is Some <==> 1 <= n <= r.max_retries,
        delay_spec(r, n) matches Some(d) ==> d.nanos <= r.max_delay.nanos,
        r.backoff is Fixed && delay_spec(r, n) is Some && delay_spec(r, m) is Some ==> delay_spec(r, n) == delay_spec(r, m),
        r.backoff is Exponential && 1 <= n <= m <= r.max_retries ==> delay_spec(r, n).unwrap().nanos <= delay_spec(r, m).unwrap().nanos,
{
    if r.backoff is Exponential && 1 <= n <= m <= r.max_retries {
        let sn: nat = if n - 1 < 31 { (n - 1) as nat } else { 31 };
        let sm: nat = if m - 1 < 31 { (m - 1) as nat } else { 31 };
        vstd::bits::lemma_u32_pow2_no_overflow(sn);
        vstd::bits::lemma_u32_pow2_no_overflow(sm);
        if sn < sm {
            vstd::arithmetic::power2::lemma_pow2_strictly_increases(sn, sm);
        }
        lemma_saturating_mul_mono(r.initial_delay, vstd::arithmetic::power2::pow2(sn) as u32, vstd::arithmetic::power2::pow2(sm) as u32);
    }
}


/// The first retry waits the initial delay (no longer than the longest
/// delay), under either backoff; under exponential backoff each later retry
/// waits twice as long as the one before, until the longest delay holds it.
pub proof fn law_backoff_starts_at_initial_and_doubles(r: Retry, n: u32)
    requires
        r.initial_delay.nanos <= MAX_NANOS,
    ensures
        r.max_retries >= 1 ==> delay_spec(r, 1) == Some(Period {
            nanos: if r.initial_delay.nanos <= r.max_delay.nanos { r.initial_delay.nanos } else { r.max_delay.nanos },
        }),
        r.backoff is Exponential && 1 <= n < r.max_retries && n < 31
            && r.initial_delay.nanos * vstd::arithmetic::power2::pow2(n as nat) <= r.max_delay.nanos
            && r.max_delay.nanos <= MAX_NANOS
            ==> delay_spec(r, (n + 1) as u32).unwrap().nanos == 2 * delay_spec(r, n).unwrap().nanos,
{
    vstd::arithmetic::power2::lemma2_to64();
    assert(r.initial_delay.nanos * 1 == r.initial_delay.nanos);
    if r.backoff is Exponential && 1 <= n < r.max_retries && n < 31
        && r.initial_delay.nanos * vstd::arithmetic::power2::pow2(n as nat) <= r.max_delay.nanos
        && r.max_delay.nanos <= MAX_NANOS {
        let a = vstd::arithmetic::power2::pow2((n - 1) as nat);
        let b = vstd::arithmetic::power2::pow2(n as nat);
        vstd::bits::lemma_u32_pow2_no_overflow((n - 1) as nat);
        vstd::bits::lemma_u32_pow2_no_overflow(n as nat);
        vstd::arithmetic::power2::lemma_pow2_unfold(n as nat);
        assert(b == 2 * a);
        let x = r.initial_delay.nanos as int;
        assert(x * b == 2 * (x * a)) by (nonlinear_arith)
            requires
                b == 2 * a,
        ;
        assert(x * a <= x * b) by (nonlinear_arith)
            requires
                b == 2 * a,
                x >= 0,
                a >= 0,
        ;
        assert((a as u32) as int == a);
        assert((b as u32) as int == b);
    }
}
} // verus!
