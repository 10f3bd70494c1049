//! Discrete simulated time.

use vstd::prelude::*;
use vstd::string::StringExecFns;
use vstd::std_specs::ops::AddSpecImpl;
use vstd::std_specs::ops::MulSpecImpl;
use vstd::std_specs::ops::SubSpecImpl;

verus! {

/// A count of abstract time units. What one jiffy stands for (a millisecond,
/// a microsecond) is up to the experiment.
#[derive(Clone, Copy, Debug, PartialEq, Eq, Structural, PartialOrd, Ord, Hash, Default)]
pub struct Jiffies(pub usize);

/// The character of a decimal digit.
pub open spec fn digit(d: nat) -> char {
    ((48 + d % 10) as u8) as char
}

/// The decimal numeral of `n`, without leading zeros.
pub open spec fn decimal(n: nat) -> Seq<char>
    decreases n,
{
    if n < 10 {
        seq![digit(n)]
    } else {
        decimal(n / 10).push(digit(n % 10))
    }
}

/// `ToString::to_string` of a `usize`: its decimal numeral.
#[verifier::external_body]
fn numeral(n: usize) -> (s: String)
    ensures
        s@ == decimal(n as nat),
{
    n.to_string()
}

impl Jiffies {
    /// The text of a time: `Jiffies(`, the count in decimal, and `)`.
    pub open spec fn spec_text(self) -> Seq<char> {
        "Jiffies("@ + decimal(self.0 as nat) + ")"@
    }

    /// The time as text, such as `Jiffies(12345)`.
    pub fn to_text(&self) -> (s: String)
        ensures
            s@ == self.spec_text(),
    {
        let count = numeral(self.0);
        String::from_str("Jiffies(").concat(count.as_str()).concat(")")
    }

    /// The sum, or `None` where it does not fit.
    pub fn checked_add(self, rhs: Jiffies) -> (r: Option<Jiffies>)
        ensures
            r == (if self.0 + rhs.0 <= usize::MAX {
                Some(Jiffies((self.0 + rhs.0) as usize))
            } else {
                None
            }),
    {
        match self.0.checked_add(rhs.0) {
            Some(v) => Some(Jiffies(v)),
            None => None,
        }
    }

    /// The difference, or `None` where it would be negative.
    pub fn checked_sub(self, rhs: Jiffies) -> (r: Option<Jiffies>)
        ensures
            r == (if rhs.0 <= self.0 {
                Some(Jiffies((self.0 - rhs.0) as usize))
            } else {
                None
            }),
    {
        if rhs.0 <= self.0 {
            Some(Jiffies(self.0 - rhs.0))
        } else {
            None
        }
    }

    /// Adds `rhs` in place.
    pub fn add_assign(&mut self, rhs: Jiffies)
        requires
            old(self).0 + rhs.0 <= usize::MAX,
        ensures
            final(self).0 == old(self).0 + rhs.0,
    {
        self.0 = self.0 + rhs.0;
    }

    /// Adds a bare count of jiffies in place.
    pub fn advance(&mut self, rhs: usize)
        requires
            old(self).0 + rhs <= usize::MAX,
        ensures
            final(self).0 == old(self).0 + rhs,
    {
        self.0 = self.0 + rhs;
    }

    /// Whether `self` is strictly earlier than `other`.
    pub fn before(self, other: Jiffies) -> (b: bool)
        ensures
            b == (self.0 < other.0),
    {
        self.0 < other.0
    }
}

impl AddSpecImpl for Jiffies {
    open spec fn obeys_add_spec() -> bool {
        true
    }

    open spec fn add_req(self, rhs: Jiffies) -> bool {
        self.0 + rhs.0 <= usize::MAX
    }

    open spec fn add_spec(self, rhs: Jiffies) -> Jiffies {
        Jiffies((self.0 + rhs.0) as usize)
    }
}

impl core::ops::Add for Jiffies {
    type Output = Jiffies;

    fn add(self, rhs: Jiffies) -> (r: Jiffies) {
        Jiffies(self.0 + rhs.0)
    }
}

impl SubSpecImpl for Jiffies {
    open spec fn obeys_sub_spec() -> bool {
        true
    }

    open spec fn sub_req(self, rhs: Jiffies) -> bool {
        rhs.0 <= self.0
    }

    open spec fn sub_spec(self, rhs: Jiffies) -> Jiffies {
        Jiffies((self.0 - rhs.0) as usize)
    }
}

impl core::ops::Sub for Jiffies {
    type Output = Jiffies;

    fn sub(self, rhs: Jiffies) -> (r: Jiffies) {
        Jiffies(self.0 - rhs.0)
    }
}

impl MulSpecImpl<Jiffies> for usize {
    open spec fn obeys_mul_spec() -> bool {
        true
    }

    open spec fn mul_req(self, rhs: Jiffies) -> bool {
        self * rhs.0 <= usize::MAX
    }

    open spec fn mul_spec(self, rhs: Jiffies) -> usize {
        (self * rhs.0) as usize
    }
}

impl core::ops::Mul<Jiffies> for usize {
    type Output = usize;

    fn mul(self, rhs: Jiffies) -> (r: usize) {
        self * rhs.0
    }
}

} // verus!
