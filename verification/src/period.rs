use vstd::prelude::*;

verus! {

/// The largest span: `u64::MAX` seconds and 999_999_999 nanoseconds.
pub const MAX_NANOS: u128 = 18446744073709551615999999999;

/// A span of time, counted in nanoseconds, up to [`MAX_NANOS`].
#[derive(Debug, Clone, Copy, PartialEq, Eq, Hash, Default, Structural)]
pub struct Period {
    pub nanos: u128,
}

impl Period {
    /// The empty span.
    pub fn zero() -> (r: Period)
        ensures
            r.nanos == 0,
    {
        Period { nanos: 0 }
    }

    pub fn from_secs(secs: u64) -> (r: Period)
        ensures
            r.nanos == secs * 1_000_000_000,
    {
        Period { nanos: secs as u128 * 1_000_000_000u128 }
    }

    pub fn from_millis(millis: u64) -> (r: Period)
        ensures
            r.nanos == millis * 1_000_000,
    {
        Period { nanos: millis as u128 * 1_000_000u128 }
    }

    pub fn from_nanos(nanos: u64) -> (r: Period)
        ensures
            r.nanos == nanos,
    {
        Period { nanos: nanos as u128 }
    }

    pub fn as_nanos(self) -> (r: u128)
        ensures
            r == self.nanos,
    {
        self.nanos
    }

    /// `self * factor`, held at [`MAX_NANOS`] where it would pass it.
    pub open spec fn saturating_mul_spec(self, factor: u32) -> u128 {
        if self.nanos * factor <= MAX_NANOS {
            (self.nanos * factor) as u128
        } else {
            MAX_NANOS
        }
    }

    pub fn saturating_mul(self, factor: u32) -> (r: Period)
        ensures
            r.nanos == self.saturating_mul_spec(factor),
    {
        match self.nanos.checked_mul(factor as u128) {
            Some(product) => {
                if product <= MAX_NANOS {
                    Period { nanos: product }
                } else {
                    Period { nanos: MAX_NANOS }
                }
            },
            None => Period { nanos: MAX_NANOS },
        }
    }

    /// `self - other`, or the empty span where `other` is longer.
    pub fn saturating_sub(self, other: Period) -> (r: Period)
        ensures
            r.nanos == if self.nanos >= other.nanos { self.nanos - other.nanos } else { 0 },
    {
        if self.nanos >= other.nanos {
            Period { nanos: self.nanos - other.nanos }
        } else {
            Period { nanos: 0 }
        }
    }

    /// The shorter of the two spans.
    pub fn min(self, other: Period) -> (r: Period)
        ensures
            r.nanos == if self.nanos <= other.nanos { self.nanos } else { other.nanos },
    {
        if self.nanos <= other.nanos {
            self
        } else {
            other
        }
    }
}

} // verus!
