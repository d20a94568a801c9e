use vstd::prelude::*;
use vstd::arithmetic::div_mod::{lemma_add_mod_noop, lemma_sub_mod_noop, lemma_small_mod, lemma_mod_bound, lemma_mod_add_multiples_vanish, lemma_mod_sub_multiples_vanish};

verus! {

/// Ceiling of `a / b` for a positive `b`.
pub open spec fn spec_div_ceil(a: int, b: int) -> int {
    if a % b == 0 { a / b } else { a / b + 1 }
}

/// Unsigned duration
///
/// The unit is set to HRP Ranging counter time unit (RCTU), which is
/// 1/128 of the 499.2 MHz chipping period
/// Max value is ~9 years
#[derive(Debug, Copy, Clone, PartialEq, Eq, Structural, PartialOrd, Ord)]
pub struct Duration(u64);

impl View for Duration {
    type V = u64;

    closed spec fn view(&self) -> u64 {
        self.0
    }
}

impl Duration {
    /// The longest representable duration.
    pub fn max_value() -> (r: Duration)
        ensures
            r@ == u64::MAX,
    {
        Duration(0xffff_ffff_ffff_ffff)
    }

    /// The empty duration.
    pub fn zero() -> (r: Duration)
        ensures
            r@ == 0,
    {
        Duration(0)
    }

    /// Ranging Counter Time Unit, ~15.65 ps
    ///
    /// Defined at IEEE 802.15.4z section 6.9.1.4
    pub fn rctu() -> (r: Duration)
        ensures
            r@ == 1,
    {
        Duration(1)
    }

    /// 499.2 MHz chip duration, ~2.003 ns, 128 RCTU
    ///
    /// Defined at IEEE 802.15.4 section 15.2.4
    pub fn chip() -> (r: Duration)
        ensures
            r@ == 128,
    {
        Duration(128)
    }

    /// Ranging Scheduling Time Unit, ~0.833 us, 416 chips
    ///
    /// Defined at IEEE 802.15.4z section 6.9.1.5
    pub fn rstu() -> (r: Duration)
        ensures
            r@ == 416 * 128,
    {
        Duration(53248)
    }

    /// One second, 499 200 000 chips.
    pub fn second() -> (r: Duration)
        ensures
            r@ == 499_200_000 * 128,
    {
        Duration(63_897_600_000)
    }

    /// A duration is its tick count: equal views mean equal durations.
    pub proof fn lemma_view_injective(a: Duration, b: Duration)
        ensures
            a@ == b@ <==> a == b,
    {
    }

    pub fn from_ticks(ticks: u64) -> (r: Self)
        ensures
            r@ == ticks,
    {
        Self(ticks)
    }

    pub fn as_ticks(self) -> (r: u64)
        ensures
            r == self@,
    {
        self.0
    }

    pub fn min(self, other: Duration) -> (r: Duration)
        ensures
            r@ == if self@ <= other@ { self@ } else { other@ },
    {
        if self.0 <= other.0 { self } else { other }
    }

    pub fn max(self, other: Duration) -> (r: Duration)
        ensures
            r@ == if self@ >= other@ { self@ } else { other@ },
    {
        if self.0 >= other.0 { self } else { other }
    }

    /// Adds one Duration to another, returning a new Duration or None in the event of an overflow.
    pub fn checked_add(self, rhs: Duration) -> (r: Option<Duration>)
        ensures
            r is Some <==> self@ + rhs@ <= u64::MAX,
            r matches Some(d) ==> d@ == self@ + rhs@,
    {
        match self.0.checked_add(rhs.0) {
            Some(ticks) => Some(Self(ticks)),
            None => None,
        }
    }

    /// Subtracts one Duration to another, returning a new Duration or None in the event of an overflow.
    pub fn checked_sub(self, rhs: Duration) -> (r: Option<Duration>)
        ensures
            r is Some <==> rhs@ <= self@,
            r matches Some(d) ==> d@ == self@ - rhs@,
    {
        match self.0.checked_sub(rhs.0) {
            Some(ticks) => Some(Self(ticks)),
            None => None,
        }
    }

    /// Divides one Duration by another, returning a factor or None if the later is zero.
    pub fn checked_div(self, rhs: Duration) -> (r: Option<u64>)
        ensures
            r is Some <==> rhs@ != 0,
            r matches Some(q) ==> q == self@ / rhs@,
    {
        if rhs.0 == 0 {
            None
        } else {
            Some(self.0 / rhs.0)
        }
    }

    /// Divides one Duration by another, rounding up and returning a factor or None if the later is zero.
    pub fn checked_div_ceil(self, rhs: Duration) -> (r: Option<u64>)
        ensures
            r is Some <==> rhs@ != 0,
            r matches Some(q) ==> q == spec_div_ceil(self@ as int, rhs@ as int),
    {
        if rhs.0 == 0 {
            None
        } else {
            Some(u64_div_ceil(self.0, rhs.0))
        }
    }

    /// Divides one Duration by another, returning a reminder or None if the later is zero.
    pub fn checked_rem(self, rhs: Duration) -> (r: Option<Duration>)
        ensures
            r is Some <==> rhs@ != 0,
            r matches Some(d) ==> d@ == self@ % rhs@,
    {
        if rhs.0 == 0 {
            None
        } else {
            Some(Self(self.0 % rhs.0))
        }
    }

    /// Multiplies one Duration by a scalar u32, returning a new Duration or None in the event of an overflow.
    pub fn checked_mul_u32(self, rhs: u32) -> (r: Option<Duration>)
        ensures
            r is Some <==> self@ * rhs <= u64::MAX,
            r matches Some(d) ==> d@ == self@ * rhs,
    {
        match self.0.checked_mul(rhs as u64) {
            Some(ticks) => Some(Self(ticks)),
            None => None,
        }
    }

    /// Divides one Duration a scalar u32, returning a new Duration or None in the event of an overflow.
    pub fn checked_div_u32(self, rhs: u32) -> (r: Option<Duration>)
        ensures
            r is Some <==> rhs != 0,
            r matches Some(d) ==> d@ == self@ / (rhs as u64),
    {
        if rhs == 0 {
            None
        } else {
            Some(Self(self.0 / (rhs as u64)))
        }
    }

    /// Adds one Duration to another
    pub fn add(self, rhs: Duration) -> (r: Duration)
        requires
            self@ + rhs@ <= u64::MAX,
        ensures
            r@ == self@ + rhs@,
    {
        match self.checked_add(rhs) {
            Some(duration) => duration,
            None => Duration(0),
        }
    }

    /// Subtracts one Duration to another
    pub fn sub(self, rhs: Duration) -> (r: Duration)
        requires
            rhs@ <= self@,
        ensures
            r@ == self@ - rhs@,
    {
        match self.checked_sub(rhs) {
            Some(duration) => duration,
            None => Duration(0),
        }
    }

    /// Divides one Duration by another
    pub fn div(self, rhs: Duration) -> (r: u64)
        requires
            rhs@ != 0,
        ensures
            r == self@ / rhs@,
    {
        match self.checked_div(rhs) {
            Some(value) => value,
            None => 0,
        }
    }

    /// Divides one Duration by another, rounding up
    pub fn div_ceil(self, rhs: Duration) -> (r: u64)
        requires
            rhs@ != 0,
        ensures
            r == spec_div_ceil(self@ as int, rhs@ as int),
    {
        match self.checked_div_ceil(rhs) {
            Some(value) => value,
            None => 0,
        }
    }

    /// Reminder after division of one Duration by another
    pub fn rem(self, rhs: Duration) -> (r: Duration)
        requires
            rhs@ != 0,
        ensures
            r@ == self@ % rhs@,
    {
        match self.checked_rem(rhs) {
            Some(duration) => duration,
            None => Duration(0),
        }
    }

    /// Multiplies one Duration by a scalar u32
    pub fn mul_u32(self, rhs: u32) -> (r: Duration)
        requires
            self@ * rhs <= u64::MAX,
        ensures
            r@ == self@ * rhs,
    {
        match self.checked_mul_u32(rhs) {
            Some(duration) => duration,
            None => Duration(0),
        }
    }

    /// Divides one Duration a scalar u32
    pub fn div_u32(self, rhs: u32) -> (r: Duration)
        requires
            rhs != 0,
        ensures
            r@ == self@ / (rhs as u64),
    {
        match self.checked_div_u32(rhs) {
            Some(duration) => duration,
            None => Duration(0),
        }
    }
}

/// `a / b` rounded up, for a non-zero `b`.
pub fn u64_div_ceil(a: u64, b: u64) -> (r: u64)
    requires
        b != 0,
    ensures
        r == spec_div_ceil(a as int, b as int),
{
    let q = a / b;
    if a % b == 0 {
        q
    } else {
        proof {
            assert(q * b <= a) by (nonlinear_arith)
                requires
                    q == a / b,
                    b > 0,
            ;
            assert(q < u64::MAX) by (nonlinear_arith)
                requires
                    q == a / b,
                    b > 0,
                    a % b != 0,
                    a <= u64::MAX,
            ;
        }
        q + 1
    }
}

/// `a + d` on the cycle of length `period`.
pub open spec fn spec_cyclic_add(period: int, a: int, d: int) -> int {
    (a + d) % period
}

/// `a - d` on the cycle of length `period`.
pub open spec fn spec_cyclic_sub(period: int, a: int, d: int) -> int {
    (a - d) % period
}

/// Represent a periodic time instant
///
/// The unit is set to HRP Ranging counter time unit (RCTU), ~15.65 ps
/// Value is given modulo device-specific timestamp period
#[derive(Debug, PartialEq, Clone, Copy, Eq)]
pub struct Instant<const P: u64>(u64);

impl<const P: u64> View for Instant<P> {
    type V = u64;

    closed spec fn view(&self) -> u64 {
        self.0
    }
}

impl<const P: u64> Instant<P> {
    #[verifier::type_invariant]
    spec fn in_period(self) -> bool {
        self.0 < P
    }

    /// An instant is its tick count: equal views mean equal instants.
    pub proof fn lemma_view_injective(a: Instant<P>, b: Instant<P>)
        ensures
            a@ == b@ <==> a == b,
    {
    }

    /// The period of the timestamp counter.
    pub fn period() -> (r: Duration)
        ensures
            r@ == P,
    {
        Duration::from_ticks(P)
    }

    pub fn try_from_ticks(ticks: u64) -> (r: Option<Self>)
        ensures
            r is Some <==> ticks < P,
            r matches Some(i) ==> i@ == ticks,
    {
        if ticks < P { Some(Self(ticks)) } else { None }
    }

    pub fn as_ticks(self) -> (r: u64)
        ensures
            r == self@,
            r < P,
    {
        proof { use_type_invariant(&self); }
        self.0
    }

    /// Moves the instant forward by `duration`, wrapping around the period.
    pub fn add(self, duration: Duration) -> (r: Self)
        ensures
            r@ == spec_cyclic_add(P as int, self@ as int, duration@ as int),
    {
        proof { use_type_invariant(&self); }
        let a = self.0;
        let b = duration.as_ticks() % P;

        let ticks = if a >= P - b { a - (P - b) } else { a + b };
        proof {
            let pi = P as int;
            lemma_add_mod_noop(a as int, duration@ as int, pi);
            lemma_small_mod(a as nat, P as nat);
            if a >= P - b {
                lemma_mod_add_multiples_vanish(ticks as int, pi);
                lemma_small_mod(ticks as nat, P as nat);
            } else {
                lemma_small_mod(ticks as nat, P as nat);
            }
        }
        Self(ticks)
    }

    /// Moves the instant backward by `duration`, wrapping around the period.
    pub fn sub_duration(self, duration: Duration) -> (r: Self)
        ensures
            r@ == spec_cyclic_sub(P as int, self@ as int, duration@ as int),
    {
        proof { use_type_invariant(&self); }
        let a = self.0;
        let b = duration.as_ticks() % P;

        let ticks = if a < b { a + (P - b) } else { a - b };
        proof {
            let pi = P as int;
            lemma_sub_mod_noop(a as int, duration@ as int, pi);
            lemma_small_mod(a as nat, P as nat);
            if a < b {
                lemma_mod_sub_multiples_vanish(ticks as int, pi);
                lemma_small_mod(ticks as nat, P as nat);
            } else {
                lemma_small_mod(ticks as nat, P as nat);
            }
        }
        Self(ticks)
    }

    /// Time elapsed from `rhs` to `self`, going forward around the cycle.
    pub fn sub_instant(self, rhs: Instant<P>) -> (r: Duration)
        ensures
            r@ == spec_cyclic_sub(P as int, self@ as int, rhs@ as int),
            r@ < P,
    {
        proof {
            use_type_invariant(&self);
            use_type_invariant(&rhs);
        }
        let a = self.0;
        let b = rhs.0;

        let ticks = if a < b { a + (P - b) } else { a - b };
        proof {
            let pi = P as int;
            if a < b {
                lemma_mod_sub_multiples_vanish(ticks as int, pi);
                lemma_small_mod(ticks as nat, P as nat);
            } else {
                lemma_small_mod(ticks as nat, P as nat);
            }
        }
        Duration::from_ticks(ticks)
    }
}

/// A timestamp that counts around a cycle of a fixed period.
pub trait CyclicTimestamp: Sized + Copy {
    spec fn spec_period() -> u64;

    fn cycle_period() -> (r: Duration)
        ensures
            r@ == Self::spec_period(),
    ;
}

impl<const P: u64> CyclicTimestamp for Instant<P> {
    open spec fn spec_period() -> u64 {
        P
    }

    fn cycle_period() -> (r: Duration) {
        Duration::from_ticks(P)
    }
}

/// Moving forward by `d` and then back by `d` returns to the start instant.
pub proof fn law_instant_add_sub(period: int, a: int, d: int)
    requires
        0 <= a < period,
    ensures
        spec_cyclic_sub(period, spec_cyclic_add(period, a, d), d) == a,
{
    let x = (a + d) % period;
    lemma_mod_bound(a + d, period);
    lemma_small_mod(x as nat, period as nat);
    lemma_sub_mod_noop(x, d, period);
    lemma_sub_mod_noop(a + d, d, period);
    lemma_small_mod(a as nat, period as nat);
    assert((a + d - d) == a);
}

/// The time from `a` to `a + d` is `d` reduced modulo the period.
pub proof fn law_instant_add_elapsed(period: int, a: int, d: int)
    requires
        0 <= a < period,
    ensures
        spec_cyclic_sub(period, spec_cyclic_add(period, a, d), a) == d % period,
{
    lemma_sub_mod_noop(a + d, a, period);
    lemma_small_mod(a as nat, period as nat);
    lemma_mod_bound(a + d, period);
    assert(((a + d) % period - a % period) % period == (a + d - a) % period);
}

/// Moving forward from `a` by the time from `a` to `b` arrives at `b`.
pub proof fn law_instant_elapsed_add(period: int, a: int, b: int)
    requires
        0 <= a < period,
        0 <= b < period,
    ensures
        spec_cyclic_add(period, a, spec_cyclic_sub(period, b, a)) == b,
{
    lemma_add_mod_noop(a, b - a, period);
    lemma_small_mod(a as nat, period as nat);
    lemma_small_mod(b as nat, period as nat);
    lemma_mod_bound(b - a, period);
    lemma_small_mod(((b - a) % period) as nat, period as nat);
    assert((a % period + (b - a) % period) % period == (a + (b - a)) % period);
}

} // verus!
