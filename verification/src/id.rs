use vstd::prelude::*;
use crate::text::string_from_chars;

verus! {

/// The character of a decimal digit.
pub open spec fn digit_char(d: nat) -> char {
    (48 + d) as char
}

/// `n` written in decimal, without leading zeros.
pub open spec fn decimal_seq(n: nat) -> Seq<char>
    decreases n,
{
    if n < 10 {
        seq![digit_char(n)]
    } else {
        decimal_seq(n / 10).push(digit_char(n % 10))
    }
}

/// `n` written in decimal.
pub fn decimal_string(n: u64) -> (r: String)
    ensures
        r@ == decimal_seq(n as nat),
{
    let mut out: Vec<char> = Vec::new();
    let mut m: u64 = n;
    while m >= 10
        invariant
            decimal_seq(n as nat) == decimal_seq(m as nat) + out@,
        decreases m,
    {
        let d: u64 = m % 10;
        let c = ((48u64 + d) as u8) as char;
        assert(c == digit_char((m % 10) as nat));
        let ghost before = out@;
        out.insert(0, c);
        proof {
            assert(out@ =~= seq![c] + before);
            assert(decimal_seq(m as nat) == decimal_seq((m / 10) as nat).push(c));
            assert(decimal_seq((m / 10) as nat).push(c) + before =~= decimal_seq((m / 10) as nat) + out@);
        }
        m = m / 10;
    }
    let c = ((48u64 + m) as u8) as char;
    let ghost before = out@;
    out.insert(0, c);
    proof {
        assert(out@ =~= seq![c] + before);
        assert(decimal_seq(m as nat) =~= seq![c]);
    }
    string_from_chars(&out)
}

/// A name given to a focusable element or a component.
#[derive(Clone, Hash, PartialEq, Eq, Debug)]
pub struct Id(pub String);

impl Id {
    pub fn as_str(&self) -> (r: &str)
        ensures
            r@ == self.0@,
    {
        self.0.as_str()
    }

    /// The name `s`.
    pub fn from_str(s: &str) -> (r: Id)
        ensures
            r.0@ == s@,
    {
        Id(s.to_owned())
    }

    /// The name `s`.
    pub fn from_string(s: String) -> (r: Id)
        ensures
            r.0@ == s@,
    {
        Id(s)
    }

    /// The decimal name of `n`.
    pub fn from_u32(n: u32) -> (r: Id)
        ensures
            r.0@ == decimal_seq(n as nat),
    {
        Id(decimal_string(n as u64))
    }

    /// The decimal name of `n`.
    pub fn from_u64(n: u64) -> (r: Id)
        ensures
            r.0@ == decimal_seq(n as nat),
    {
        Id(decimal_string(n))
    }
}

} // verus!
