//! The arithmetic that playback, timing and picking rules are written over.
//!
//! The rules in this crate never look inside a time or a distance: they add, scale and
//! compare it. `Scalar` names each of those operations, so that a contract can say which
//! operation was applied to which values. `Fixed` is the 16.16 fixed-point instance.
use vstd::prelude::*;

verus! {

/// A number with the operations that timing rules use.
///
/// Every method gives back the value of the spec function of the same name, so any type whose
/// operations depend on their arguments alone fits. Nothing is claimed of how two operations
/// relate (rounding is the instance's own).
pub trait Scalar: Copy {
    spec fn zero_spec() -> Self;

    spec fn one_spec() -> Self;

    /// The slack with which times within a clip are compared.
    spec fn clip_epsilon_spec() -> Self;

    /// The smallest duration that is divided by.
    spec fn machine_epsilon_spec() -> Self;

    spec fn from_count_spec(count: usize) -> Self;

    spec fn plus_spec(self, rhs: Self) -> Self;

    spec fn minus_spec(self, rhs: Self) -> Self;

    spec fn times_spec(self, rhs: Self) -> Self;

    spec fn over_spec(self, rhs: Self) -> Self;

    spec fn negated_spec(self) -> Self;

    spec fn rem_euclid_by_spec(self, rhs: Self) -> Self;

    spec fn floored_spec(self) -> Self;

    spec fn floor_count_spec(self) -> u64;

    spec fn floor_steps_spec(self) -> i32;

    spec fn ceil_steps_spec(self) -> i32;

    spec fn from_steps_spec(steps: i32) -> Self;

    spec fn to_fixed_spec(self) -> u32;

    spec fn from_fixed_spec(value: u32) -> Self;

    spec fn lt_spec(self, rhs: Self) -> bool;

    spec fn le_spec(self, rhs: Self) -> bool;

    spec fn same_spec(self, rhs: Self) -> bool;

    spec fn finite_spec(self) -> bool;

    spec fn nan_spec(self) -> bool;

    spec fn larger_spec(self, rhs: Self) -> Self;

    spec fn smaller_spec(self, rhs: Self) -> Self;

    spec fn magnitude_spec(self) -> Self;

    /// The nearest whole number; halves go away from zero.
    spec fn rounded_spec(self) -> Self;

    /// One with the sign of the value.
    spec fn sign_spec(self) -> Self;

    /// The square root.
    spec fn root_spec(self) -> Self;

    /// A value that no value lies above.
    spec fn topmost_spec() -> Self;

    fn zero() -> (r: Self)
        ensures
            r == Self::zero_spec(),
    ;

    fn one() -> (r: Self)
        ensures
            r == Self::one_spec(),
    ;

    fn clip_epsilon() -> (r: Self)
        ensures
            r == Self::clip_epsilon_spec(),
    ;

    fn machine_epsilon() -> (r: Self)
        ensures
            r == Self::machine_epsilon_spec(),
    ;

    /// The number of whole units that `count` stands for.
    fn from_count(count: usize) -> (r: Self)
        ensures
            r == Self::from_count_spec(count),
    ;

    fn plus(self, rhs: Self) -> (r: Self)
        ensures
            r == self.plus_spec(rhs),
    ;

    fn minus(self, rhs: Self) -> (r: Self)
        ensures
            r == self.minus_spec(rhs),
    ;

    fn times(self, rhs: Self) -> (r: Self)
        ensures
            r == self.times_spec(rhs),
    ;

    fn over(self, rhs: Self) -> (r: Self)
        ensures
            r == self.over_spec(rhs),
    ;

    fn negated(self) -> (r: Self)
        ensures
            r == self.negated_spec(),
    ;

    /// The remainder that is never negative for a positive divisor.
    fn rem_euclid_by(self, rhs: Self) -> (r: Self)
        ensures
            r == self.rem_euclid_by_spec(rhs),
    ;

    /// The greatest whole number that is not larger.
    fn floored(self) -> (r: Self)
        ensures
            r == self.floored_spec(),
    ;

    /// The same as a count, 0 for what is negative.
    fn floor_count(self) -> (r: u64)
        ensures
            r == self.floor_count_spec(),
    ;

    /// The whole number below or at, held within the range of `i32`.
    fn floor_steps(self) -> (r: i32)
        ensures
            r == self.floor_steps_spec(),
    ;

    /// The whole number above or at, held within the range of `i32`.
    fn ceil_steps(self) -> (r: i32)
        ensures
            r == self.ceil_steps_spec(),
    ;

    fn from_steps(steps: i32) -> (r: Self)
        ensures
            r == Self::from_steps_spec(steps),
    ;

    /// The nearest unsigned 16.16 value; 0 for what is not positive.
    fn to_fixed(self) -> (r: u32)
        ensures
            r == self.to_fixed_spec(),
    ;

    fn from_fixed(value: u32) -> (r: Self)
        ensures
            r == Self::from_fixed_spec(value),
    ;

    fn lt(self, rhs: Self) -> (r: bool)
        ensures
            r == self.lt_spec(rhs),
    ;

    fn le(self, rhs: Self) -> (r: bool)
        ensures
            r == self.le_spec(rhs),
    ;

    fn same(self, rhs: Self) -> (r: bool)
        ensures
            r == self.same_spec(rhs),
    ;

    fn finite(self) -> (r: bool)
        ensures
            r == self.finite_spec(),
    ;

    fn nan(self) -> (r: bool)
        ensures
            r == self.nan_spec(),
    ;

    fn larger(self, rhs: Self) -> (r: Self)
        ensures
            r == self.larger_spec(rhs),
    ;

    fn smaller(self, rhs: Self) -> (r: Self)
        ensures
            r == self.smaller_spec(rhs),
    ;

    fn magnitude(self) -> (r: Self)
        ensures
            r == self.magnitude_spec(),
    ;

    fn rounded(self) -> (r: Self)
        ensures
            r == self.rounded_spec(),
    ;

    fn sign(self) -> (r: Self)
        ensures
            r == self.sign_spec(),
    ;

    fn root(self) -> (r: Self)
        ensures
            r == self.root_spec(),
    ;

    fn topmost() -> (r: Self)
        ensures
            r == Self::topmost_spec(),
    ;
}

/// The quotient of two counts.
pub open spec fn ratio_spec<S: Scalar>(a: usize, b: usize) -> S {
    S::from_count_spec(a).over_spec(S::from_count_spec(b))
}

pub fn ratio<S: Scalar>(a: usize, b: usize) -> (r: S)
    ensures
        r == ratio_spec::<S>(a, b),
{
    S::from_count(a).over(S::from_count(b))
}

/// `x` held between `lo` and `hi`: below `lo` it is `lo`, above `hi` it is `hi`.
pub open spec fn clamped_spec<S: Scalar>(x: S, lo: S, hi: S) -> S {
    if x.lt_spec(lo) {
        lo
    } else if hi.lt_spec(x) {
        hi
    } else {
        x
    }
}

pub fn clamped<S: Scalar>(x: S, lo: S, hi: S) -> (r: S)
    ensures
        r == clamped_spec(x, lo, hi),
{
    if x.lt(lo) {
        lo
    } else if hi.lt(x) {
        hi
    } else {
        x
    }
}

/// A value that a track moves through: it can be shifted along a slope.
pub trait TrackValue<S>: Copy {
    spec fn origin_spec() -> Self;

    /// `self + slope * amount`.
    spec fn shifted_spec(self, slope: Self, amount: S) -> Self;

    /// The value between `self` and `to` at `alpha`.
    spec fn mixed_spec(self, to: Self, alpha: S) -> Self;

    /// Whether two values count as the same.
    spec fn alike_spec(self, other: Self) -> bool;

    fn origin() -> (r: Self)
        ensures
            r == Self::origin_spec(),
    ;

    fn shifted(self, slope: Self, amount: S) -> (r: Self)
        ensures
            r == self.shifted_spec(slope, amount),
    ;

    fn mixed(self, to: Self, alpha: S) -> (r: Self)
        ensures
            r == self.mixed_spec(to, alpha),
    ;

    fn alike(self, other: Self) -> (r: bool)
        ensures
            r == self.alike_spec(other),
    ;
}

/// A 16.16 fixed-point number. Results that do not fit are held at the nearest end.
#[derive(Clone, Copy, Debug, PartialEq, Eq, Structural)]
pub struct Fixed(pub i64);

pub const FP_SHIFT: u32 = 16;

pub const FP_ONE: i64 = 65536;

/// The nearest value of the range of `i64`.
pub open spec fn saturated(x: int) -> i64 {
    if x > i64::MAX {
        i64::MAX
    } else if x < i64::MIN {
        i64::MIN
    } else {
        x as i64
    }
}

fn saturate(x: i128) -> (r: i64)
    ensures
        r == saturated(x as int),
{
    if x > 9223372036854775807i128 {
        i64::MAX
    } else if x < -9223372036854775808i128 {
        i64::MIN
    } else {
        x as i64
    }
}

/// The nearest value of the range of `i32`.
pub open spec fn held_i32(x: int) -> i32 {
    if x > i32::MAX {
        i32::MAX
    } else if x < i32::MIN {
        i32::MIN
    } else {
        x as i32
    }
}

fn hold_i32(x: i128) -> (r: i32)
    ensures
        r == held_i32(x as int),
{
    if x > 2147483647i128 {
        i32::MAX
    } else if x < -2147483648i128 {
        i32::MIN
    } else {
        x as i32
    }
}

/// The largest whole number whose square is at most `n`.
pub open spec fn floor_root(n: int) -> int
    decreases n,
{
    if n <= 0 {
        0
    } else {
        let below = floor_root(n - 1);
        if (below + 1) * (below + 1) <= n {
            below + 1
        } else {
            below
        }
    }
}

pub proof fn lemma_floor_root(n: int)
    requires
        n >= 0,
    ensures
        floor_root(n) >= 0,
        floor_root(n) * floor_root(n) <= n,
        n < (floor_root(n) + 1) * (floor_root(n) + 1),
    decreases n,
{
    if n > 0 {
        lemma_floor_root(n - 1);
        let below = floor_root(n - 1);
        assert((below + 2) * (below + 2) > (below + 1) * (below + 1)) by (nonlinear_arith)
            requires
                below >= 0,
        ;
    }
}

pub proof fn lemma_floor_root_unique(n: int, r: int)
    requires
        n >= 0,
        r >= 0,
        r * r <= n,
        n < (r + 1) * (r + 1),
    ensures
        r == floor_root(n),
{
    lemma_floor_root(n);
    let f = floor_root(n);
    if r < f {
        assert((r + 1) * (r + 1) <= f * f) by (nonlinear_arith)
            requires
                0 <= r,
                r + 1 <= f,
        ;
    } else if f < r {
        assert((f + 1) * (f + 1) <= r * r) by (nonlinear_arith)
            requires
                0 <= f,
                f + 1 <= r,
        ;
    }
}

/// The root of a fixed-point number fits.
pub proof fn lemma_root_fits(n: int)
    requires
        0 <= n <= i64::MAX,
    ensures
        0 <= floor_root(n * FP_ONE) < 0x100_0000_0000,
{
    lemma_floor_root(n * FP_ONE);
    let r = floor_root(n * FP_ONE);
    assert(r < 0x100_0000_0000) by (nonlinear_arith)
        requires
            r * r <= n * 65536,
            n <= i64::MAX,
    ;
}

/// The square root of a number below 2^80, rounded down.
fn whole_root(n: u128) -> (r: u64)
    requires
        n < 0x1_0000_0000_0000_0000_0000,
    ensures
        r == floor_root(n as int),
        r < 0x100_0000_0000,
{
    let mut lo: u64 = 0;
    let mut hi: u64 = 0x100_0000_0000;
    while lo + 1 < hi
        invariant
            n < 0x1_0000_0000_0000_0000_0000,
            0 <= lo < hi <= 0x100_0000_0000,
            (lo as int) * (lo as int) <= n,
            n < (hi as int) * (hi as int),
        decreases hi - lo,
    {
        let mid: u64 = lo + (hi - lo) / 2;
        assert((mid as int) * (mid as int) < 0x1_0000_0000_0000_0000_0000) by (nonlinear_arith)
            requires
                0 <= mid < 0x100_0000_0000,
        ;
        if (mid as u128) * (mid as u128) <= n {
            lo = mid;
        } else {
            hi = mid;
        }
    }
    proof {
        lemma_floor_root_unique(n as int, lo as int);
    }
    lo
}

impl Scalar for Fixed {
    open spec fn rounded_spec(self) -> Self {
        if self.0 >= 0 {
            Fixed(saturated((self.0 + 32768) / 65536 * 65536))
        } else {
            Fixed(saturated(-((32768 - self.0) / 65536 * 65536)))
        }
    }

    fn rounded(self) -> (r: Self) {
        let x: i128 = self.0 as i128;
        if x >= 0 {
            Fixed(saturate((x + 32768) / 65536 * 65536))
        } else {
            Fixed(saturate(-((32768 - x) / 65536 * 65536)))
        }
    }

    open spec fn sign_spec(self) -> Self {
        if self.0 < 0 {
            Fixed((-65536) as i64)
        } else {
            Fixed(FP_ONE)
        }
    }

    fn sign(self) -> (r: Self) {
        if self.0 < 0 {
            Fixed(-65536)
        } else {
            Fixed(FP_ONE)
        }
    }

    open spec fn root_spec(self) -> Self {
        if self.0 <= 0 {
            Fixed(0)
        } else {
            Fixed(floor_root(self.0 * FP_ONE) as i64)
        }
    }

    fn root(self) -> (r: Self) {
        if self.0 <= 0 {
            Fixed(0)
        } else {
            Fixed(whole_root((self.0 as u128) * 65536) as i64)
        }
    }

    open spec fn topmost_spec() -> Self {
        Fixed(i64::MAX)
    }

    fn topmost() -> (r: Self) {
        Fixed(i64::MAX)
    }

    open spec fn zero_spec() -> Self {
        Fixed(0)
    }

    open spec fn one_spec() -> Self {
        Fixed(FP_ONE)
    }

    open spec fn clip_epsilon_spec() -> Self {
        Fixed(1)
    }

    open spec fn machine_epsilon_spec() -> Self {
        Fixed(1)
    }

    open spec fn from_count_spec(count: usize) -> Self {
        Fixed(saturated(count * FP_ONE))
    }

    open spec fn plus_spec(self, rhs: Self) -> Self {
        Fixed(saturated(self.0 + rhs.0))
    }

    open spec fn minus_spec(self, rhs: Self) -> Self {
        Fixed(saturated(self.0 - rhs.0))
    }

    open spec fn times_spec(self, rhs: Self) -> Self {
        Fixed(saturated((self.0 * rhs.0) / FP_ONE as int))
    }

    open spec fn over_spec(self, rhs: Self) -> Self {
        if rhs.0 == 0 {
            Fixed(0)
        } else {
            Fixed(saturated((self.0 * FP_ONE) / rhs.0 as int))
        }
    }

    open spec fn negated_spec(self) -> Self {
        Fixed(saturated(-self.0))
    }

    open spec fn rem_euclid_by_spec(self, rhs: Self) -> Self {
        if rhs.0 == 0 {
            Fixed(0)
        } else {
            Fixed(saturated(self.0 as int % rhs.0 as int))
        }
    }

    open spec fn floored_spec(self) -> Self {
        Fixed(saturated((self.0 as int / FP_ONE as int) * FP_ONE))
    }

    open spec fn floor_count_spec(self) -> u64 {
        if self.0 < 0 {
            0
        } else {
            (self.0 as int / FP_ONE as int) as u64
        }
    }

    open spec fn floor_steps_spec(self) -> i32 {
        held_i32(self.0 as int / FP_ONE as int)
    }

    open spec fn ceil_steps_spec(self) -> i32 {
        held_i32(-((-self.0) / FP_ONE as int))
    }

    open spec fn from_steps_spec(steps: i32) -> Self {
        Fixed((steps * FP_ONE) as i64)
    }

    open spec fn to_fixed_spec(self) -> u32 {
        if self.0 <= 0 {
            0
        } else if self.0 > u32::MAX {
            u32::MAX
        } else {
            self.0 as u32
        }
    }

    open spec fn from_fixed_spec(value: u32) -> Self {
        Fixed(value as i64)
    }

    open spec fn lt_spec(self, rhs: Self) -> bool {
        self.0 < rhs.0
    }

    open spec fn le_spec(self, rhs: Self) -> bool {
        self.0 <= rhs.0
    }

    open spec fn same_spec(self, rhs: Self) -> bool {
        self.0 == rhs.0
    }

    open spec fn finite_spec(self) -> bool {
        true
    }

    open spec fn nan_spec(self) -> bool {
        false
    }

    open spec fn larger_spec(self, rhs: Self) -> Self {
        if self.0 < rhs.0 {
            rhs
        } else {
            self
        }
    }

    open spec fn smaller_spec(self, rhs: Self) -> Self {
        if rhs.0 < self.0 {
            rhs
        } else {
            self
        }
    }

    open spec fn magnitude_spec(self) -> Self {
        if self.0 < 0 {
            Fixed(saturated(-self.0))
        } else {
            self
        }
    }

    fn zero() -> (r: Self) {
        Fixed(0)
    }

    fn one() -> (r: Self) {
        Fixed(FP_ONE)
    }

    fn clip_epsilon() -> (r: Self) {
        Fixed(1)
    }

    fn machine_epsilon() -> (r: Self) {
        Fixed(1)
    }

    fn from_count(count: usize) -> (r: Self) {
        Fixed(saturate(count as i128 * 65536i128))
    }

    fn plus(self, rhs: Self) -> (r: Self) {
        Fixed(saturate(self.0 as i128 + rhs.0 as i128))
    }

    fn minus(self, rhs: Self) -> (r: Self) {
        Fixed(saturate(self.0 as i128 - rhs.0 as i128))
    }

    fn times(self, rhs: Self) -> (r: Self) {
        let a: i128 = self.0 as i128;
        let b: i128 = rhs.0 as i128;
        proof {
            lemma_product_fits(self.0 as int, rhs.0 as int);
        }
        let p: i128 = a * b;
        let q: i128 = floor_div(p, 65536i128);
        Fixed(saturate(q))
    }

    fn over(self, rhs: Self) -> (r: Self) {
        if rhs.0 == 0 {
            return Fixed(0);
        }
        let n: i128 = self.0 as i128 * 65536i128;
        if rhs.0 > 0 {
            let q: i128 = floor_div(n, rhs.0 as i128);
            Fixed(saturate(q))
        } else {
            let d: i128 = -(rhs.0 as i128);
            let q: i128 = floor_div(n, d);
            proof {
                lemma_div_negative_divisor(n as int, d as int);
                assert(-d == rhs.0);
                lemma_quotient_fits(n as int, d as int);
            }
            Fixed(saturate(-q))
        }
    }

    fn negated(self) -> (r: Self) {
        Fixed(saturate(-(self.0 as i128)))
    }

    fn rem_euclid_by(self, rhs: Self) -> (r: Self) {
        if rhs.0 == 0 {
            return Fixed(0);
        }
        let n: i128 = self.0 as i128;
        let d: i128 = if rhs.0 > 0 { rhs.0 as i128 } else { -(rhs.0 as i128) };
        let m: i128 = floor_mod(n, d);
        proof {
            if rhs.0 < 0 {
                lemma_mod_negative_divisor(n as int, d as int);
                assert(-d == rhs.0);
            }
        }
        Fixed(saturate(m))
    }

    fn floored(self) -> (r: Self) {
        let q: i128 = floor_div(self.0 as i128, 65536i128);
        Fixed(saturate(q * 65536i128))
    }

    fn floor_count(self) -> (r: u64) {
        if self.0 < 0 {
            0
        } else {
            (self.0 / 65536) as u64
        }
    }

    fn floor_steps(self) -> (r: i32) {
        hold_i32(floor_div(self.0 as i128, 65536i128))
    }

    fn ceil_steps(self) -> (r: i32) {
        let opposite: i128 = -(self.0 as i128);
        let q: i128 = floor_div(opposite, 65536i128);
        hold_i32(-q)
    }

    fn from_steps(steps: i32) -> (r: Self) {
        Fixed(steps as i64 * 65536)
    }

    fn to_fixed(self) -> (r: u32) {
        if self.0 <= 0 {
            0
        } else if self.0 > 4294967295 {
            u32::MAX
        } else {
            self.0 as u32
        }
    }

    fn from_fixed(value: u32) -> (r: Self) {
        Fixed(value as i64)
    }

    fn lt(self, rhs: Self) -> (r: bool) {
        self.0 < rhs.0
    }

    fn le(self, rhs: Self) -> (r: bool) {
        self.0 <= rhs.0
    }

    fn same(self, rhs: Self) -> (r: bool) {
        self.0 == rhs.0
    }

    fn finite(self) -> (r: bool) {
        true
    }

    fn nan(self) -> (r: bool) {
        false
    }

    fn larger(self, rhs: Self) -> (r: Self) {
        if self.0 < rhs.0 {
            rhs
        } else {
            self
        }
    }

    fn smaller(self, rhs: Self) -> (r: Self) {
        if rhs.0 < self.0 {
            rhs
        } else {
            self
        }
    }

    fn magnitude(self) -> (r: Self) {
        if self.0 < 0 {
            Fixed(saturate(-(self.0 as i128)))
        } else {
            self
        }
    }
}

impl TrackValue<Fixed> for Fixed {
    open spec fn origin_spec() -> Self {
        Fixed(0)
    }

    open spec fn shifted_spec(self, slope: Self, amount: Fixed) -> Self {
        self.plus_spec(slope.times_spec(amount))
    }

    open spec fn mixed_spec(self, to: Self, alpha: Fixed) -> Self {
        self.plus_spec(to.minus_spec(self).times_spec(alpha))
    }

    open spec fn alike_spec(self, other: Self) -> bool {
        self.0 == other.0
    }

    fn origin() -> (r: Self) {
        Fixed(0)
    }

    fn alike(self, other: Self) -> (r: bool) {
        self.0 == other.0
    }

    fn shifted(self, slope: Self, amount: Fixed) -> (r: Self) {
        self.plus(slope.times(amount))
    }

    fn mixed(self, to: Self, alpha: Fixed) -> (r: Self) {
        self.plus(to.minus(self).times(alpha))
    }
}

proof fn lemma_product_fits(a: int, b: int)
    requires
        i64::MIN <= a <= i64::MAX,
        i64::MIN <= b <= i64::MAX,
    ensures
        -0x4000_0000_0000_0000_0000_0000_0000_0000 <= a * b
            <= 0x4000_0000_0000_0000_0000_0000_0000_0000,
{
    assert(-0x4000_0000_0000_0000_0000_0000_0000_0000 <= a * b
        <= 0x4000_0000_0000_0000_0000_0000_0000_0000) by (nonlinear_arith)
        requires
            -0x8000_0000_0000_0000 <= a <= 0x8000_0000_0000_0000,
            -0x8000_0000_0000_0000 <= b <= 0x8000_0000_0000_0000,
    ;
}

proof fn lemma_quotient_fits(n: int, d: int)
    requires
        d > 0,
        -0x8000_0000_0000_0000_0000 <= n <= 0x8000_0000_0000_0000_0000,
    ensures
        -0x8000_0000_0000_0000_0000 <= n / d <= 0x8000_0000_0000_0000_0000,
{
    vstd::arithmetic::div_mod::lemma_fundamental_div_mod(n, d);
    assert(-0x8000_0000_0000_0000_0000 <= n / d <= 0x8000_0000_0000_0000_0000) by (nonlinear_arith)
        requires
            d > 0,
            n == d * (n / d) + n % d,
            0 <= n % d < d,
            -0x8000_0000_0000_0000_0000 <= n <= 0x8000_0000_0000_0000_0000,
    ;
}

/// Dividing by the opposite of `d` gives the opposite quotient.
proof fn lemma_div_negative_divisor(n: int, d: int)
    requires
        d > 0,
    ensures
        n / (-d) == -(n / d),
{
    assert(n / (-d) == -(n / d)) by (nonlinear_arith)
        requires
            d > 0,
    ;
}

/// The remainder does not depend on the sign of the divisor.
proof fn lemma_mod_negative_divisor(n: int, d: int)
    requires
        d > 0,
    ensures
        n % (-d) == n % d,
{
    assert(n % (-d) == n % d) by (nonlinear_arith)
        requires
            d > 0,
    ;
}

fn floor_div(n: i128, d: i128) -> (q: i128)
    requires
        d > 0,
        -0x7fff_ffff_ffff_ffff_ffff_ffff_ffff_ffff <= n,
    ensures
        q == n as int / d as int,
{
    if n >= 0 {
        n / d
    } else {
        let m: i128 = -n;
        let t: i128 = m / d;
        let exact: bool = m % d == 0;
        proof {
            lemma_floor_of_negative(m as int, d as int);
        }
        if exact {
            -t
        } else {
            -t - 1
        }
    }
}

fn floor_mod(n: i128, d: i128) -> (m: i128)
    requires
        d > 0,
        -0x7fff_ffff_ffff_ffff_ffff_ffff_ffff_ffff <= n,
    ensures
        m == n as int % d as int,
{
    if n >= 0 {
        n % d
    } else {
        let k: i128 = -n;
        let t: i128 = k % d;
        proof {
            lemma_floor_of_negative(k as int, d as int);
        }
        if t == 0 {
            0
        } else {
            d - t
        }
    }
}

proof fn lemma_floor_of_negative(m: int, d: int)
    requires
        d > 0,
        m > 0,
    ensures
        m % d == 0 ==> (-m) / d == -(m / d) && (-m) % d == 0,
        m % d != 0 ==> (-m) / d == -(m / d) - 1 && (-m) % d == d - m % d,
        0 <= m / d <= m,
        0 <= m % d < d,
{
    vstd::arithmetic::div_mod::lemma_fundamental_div_mod(m, d);
    vstd::arithmetic::div_mod::lemma_mod_bound(m, d);
    assert(0 <= m / d <= m) by (nonlinear_arith)
        requires
            d > 0,
            m > 0,
            m == d * (m / d) + m % d,
            0 <= m % d < d,
    ;
    if m % d == 0 {
        assert(-m == d * (-(m / d)) + 0) by (nonlinear_arith)
            requires
                m == d * (m / d) + m % d,
                m % d == 0,
        ;
        vstd::arithmetic::div_mod::lemma_fundamental_div_mod_converse(-m, d, -(m / d), 0);
    } else {
        assert(-m == d * (-(m / d) - 1) + (d - m % d)) by (nonlinear_arith)
            requires
                m == d * (m / d) + m % d,
        ;
        vstd::arithmetic::div_mod::lemma_fundamental_div_mod_converse(
            -m,
            d,
            -(m / d) - 1,
            d - m % d,
        );
    }
}

/// The remainder by a positive length always lies within that length.
pub proof fn law_fixed_remainder_lies_within(x: Fixed, length: Fixed)
    requires
        length.0 > 0,
    ensures
        0 <= x.rem_euclid_by_spec(length).0 < length.0,
{
    vstd::arithmetic::div_mod::lemma_mod_bound(x.0 as int, length.0 as int);
}

} // verus!
