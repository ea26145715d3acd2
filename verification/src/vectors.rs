//! Vectors of two, three and four scalars.
use vstd::prelude::*;
use crate::scalar::{Scalar, TrackValue};

verus! {

#[derive(Clone, Copy)]
pub struct Vec2<S> {
    pub x: S,
    pub y: S,
}

#[derive(Clone, Copy)]
pub struct Vec3<S> {
    pub x: S,
    pub y: S,
    pub z: S,
}

#[derive(Clone, Copy)]
pub struct Vec4<S> {
    pub x: S,
    pub y: S,
    pub z: S,
    pub w: S,
}

impl<S: Scalar> Vec2<S> {
    pub open spec fn zero_spec() -> Self {
        Vec2 { x: S::zero_spec(), y: S::zero_spec() }
    }

    pub fn zero() -> (r: Self)
        ensures
            r == Self::zero_spec(),
    {
        Vec2 { x: S::zero(), y: S::zero() }
    }

    pub open spec fn plus_spec(self, rhs: Self) -> Self {
        Vec2 { x: self.x.plus_spec(rhs.x), y: self.y.plus_spec(rhs.y) }
    }

    pub fn plus(self, rhs: Self) -> (r: Self)
        ensures
            r == self.plus_spec(rhs),
    {
        Vec2 { x: self.x.plus(rhs.x), y: self.y.plus(rhs.y) }
    }

    pub open spec fn minus_spec(self, rhs: Self) -> Self {
        Vec2 { x: self.x.minus_spec(rhs.x), y: self.y.minus_spec(rhs.y) }
    }

    pub fn minus(self, rhs: Self) -> (r: Self)
        ensures
            r == self.minus_spec(rhs),
    {
        Vec2 { x: self.x.minus(rhs.x), y: self.y.minus(rhs.y) }
    }

    pub open spec fn scaled_spec(self, k: S) -> Self {
        Vec2 { x: self.x.times_spec(k), y: self.y.times_spec(k) }
    }

    pub fn scaled(self, k: S) -> (r: Self)
        ensures
            r == self.scaled_spec(k),
    {
        Vec2 { x: self.x.times(k), y: self.y.times(k) }
    }

    pub open spec fn dot_spec(self, rhs: Self) -> S {
        self.x.times_spec(rhs.x).plus_spec(self.y.times_spec(rhs.y))
    }

    pub fn dot(self, rhs: Self) -> (r: S)
        ensures
            r == self.dot_spec(rhs),
    {
        self.x.times(rhs.x).plus(self.y.times(rhs.y))
    }

    pub open spec fn length_spec(self) -> S {
        self.dot_spec(self).root_spec()
    }

    pub fn length(self) -> (r: S)
        ensures
            r == self.length_spec(),
    {
        self.dot(self).root()
    }

    /// Both parts set to one value.
    pub open spec fn both(k: S) -> Self {
        Vec2 { x: k, y: k }
    }

    pub open spec fn over_spec(self, k: S) -> Self {
        Vec2 { x: self.x.over_spec(k), y: self.y.over_spec(k) }
    }

    pub fn over(self, k: S) -> (r: Self)
        ensures
            r == self.over_spec(k),
    {
        Vec2 { x: self.x.over(k), y: self.y.over(k) }
    }

    /// The vector with length one, or zero where it has no direction.
    pub open spec fn unit_or_zero_spec(self) -> Self {
        let k = S::one_spec().over_spec(self.length_spec());
        if k.finite_spec() && S::zero_spec().lt_spec(k) {
            self.scaled_spec(k)
        } else {
            Self::zero_spec()
        }
    }

    pub fn unit_or_zero(self) -> (r: Self)
        ensures
            r == self.unit_or_zero_spec(),
    {
        let k = S::one().over(self.length());
        if k.finite() && S::zero().lt(k) {
            self.scaled(k)
        } else {
            Self::zero()
        }
    }

    pub open spec fn same_spec(self, rhs: Self) -> bool {
        self.x.same_spec(rhs.x) && self.y.same_spec(rhs.y)
    }

    pub fn same(self, rhs: Self) -> (r: bool)
        ensures
            r == self.same_spec(rhs),
    {
        self.x.same(rhs.x) && self.y.same(rhs.y)
    }
}

impl<S: Scalar> Vec4<S> {
    pub open spec fn plus_spec(self, rhs: Self) -> Self {
        Vec4 {
            x: self.x.plus_spec(rhs.x),
            y: self.y.plus_spec(rhs.y),
            z: self.z.plus_spec(rhs.z),
            w: self.w.plus_spec(rhs.w),
        }
    }

    pub fn plus(self, rhs: Self) -> (r: Self)
        ensures
            r == self.plus_spec(rhs),
    {
        Vec4 {
            x: self.x.plus(rhs.x),
            y: self.y.plus(rhs.y),
            z: self.z.plus(rhs.z),
            w: self.w.plus(rhs.w),
        }
    }

    pub open spec fn minus_spec(self, rhs: Self) -> Self {
        Vec4 {
            x: self.x.minus_spec(rhs.x),
            y: self.y.minus_spec(rhs.y),
            z: self.z.minus_spec(rhs.z),
            w: self.w.minus_spec(rhs.w),
        }
    }

    pub fn minus(self, rhs: Self) -> (r: Self)
        ensures
            r == self.minus_spec(rhs),
    {
        Vec4 {
            x: self.x.minus(rhs.x),
            y: self.y.minus(rhs.y),
            z: self.z.minus(rhs.z),
            w: self.w.minus(rhs.w),
        }
    }

    pub open spec fn scaled_spec(self, k: S) -> Self {
        Vec4 {
            x: self.x.times_spec(k),
            y: self.y.times_spec(k),
            z: self.z.times_spec(k),
            w: self.w.times_spec(k),
        }
    }

    pub fn scaled(self, k: S) -> (r: Self)
        ensures
            r == self.scaled_spec(k),
    {
        Vec4 { x: self.x.times(k), y: self.y.times(k), z: self.z.times(k), w: self.w.times(k) }
    }
}

impl<S: Scalar> Vec3<S> {
    pub open spec fn zero_spec() -> Self {
        Vec3 { x: S::zero_spec(), y: S::zero_spec(), z: S::zero_spec() }
    }

    pub fn zero() -> (r: Self)
        ensures
            r == Self::zero_spec(),
    {
        Vec3 { x: S::zero(), y: S::zero(), z: S::zero() }
    }

    pub open spec fn plus_spec(self, rhs: Self) -> Self {
        Vec3 {
            x: self.x.plus_spec(rhs.x),
            y: self.y.plus_spec(rhs.y),
            z: self.z.plus_spec(rhs.z),
        }
    }

    pub fn plus(self, rhs: Self) -> (r: Self)
        ensures
            r == self.plus_spec(rhs),
    {
        Vec3 { x: self.x.plus(rhs.x), y: self.y.plus(rhs.y), z: self.z.plus(rhs.z) }
    }

    pub open spec fn minus_spec(self, rhs: Self) -> Self {
        Vec3 {
            x: self.x.minus_spec(rhs.x),
            y: self.y.minus_spec(rhs.y),
            z: self.z.minus_spec(rhs.z),
        }
    }

    pub fn minus(self, rhs: Self) -> (r: Self)
        ensures
            r == self.minus_spec(rhs),
    {
        Vec3 { x: self.x.minus(rhs.x), y: self.y.minus(rhs.y), z: self.z.minus(rhs.z) }
    }

    pub open spec fn scaled_spec(self, k: S) -> Self {
        Vec3 { x: self.x.times_spec(k), y: self.y.times_spec(k), z: self.z.times_spec(k) }
    }

    pub fn scaled(self, k: S) -> (r: Self)
        ensures
            r == self.scaled_spec(k),
    {
        Vec3 { x: self.x.times(k), y: self.y.times(k), z: self.z.times(k) }
    }

    pub open spec fn dot_spec(self, rhs: Self) -> S {
        self.x.times_spec(rhs.x).plus_spec(self.y.times_spec(rhs.y)).plus_spec(
            self.z.times_spec(rhs.z),
        )
    }

    pub fn dot(self, rhs: Self) -> (r: S)
        ensures
            r == self.dot_spec(rhs),
    {
        self.x.times(rhs.x).plus(self.y.times(rhs.y)).plus(self.z.times(rhs.z))
    }

    pub open spec fn cross_spec(self, rhs: Self) -> Self {
        Vec3 {
            x: self.y.times_spec(rhs.z).minus_spec(rhs.y.times_spec(self.z)),
            y: self.z.times_spec(rhs.x).minus_spec(rhs.z.times_spec(self.x)),
            z: self.x.times_spec(rhs.y).minus_spec(rhs.x.times_spec(self.y)),
        }
    }

    pub fn cross(self, rhs: Self) -> (r: Self)
        ensures
            r == self.cross_spec(rhs),
    {
        Vec3 {
            x: self.y.times(rhs.z).minus(rhs.y.times(self.z)),
            y: self.z.times(rhs.x).minus(rhs.z.times(self.x)),
            z: self.x.times(rhs.y).minus(rhs.x.times(self.y)),
        }
    }

    pub open spec fn length_spec(self) -> S {
        self.dot_spec(self).root_spec()
    }

    pub fn length(self) -> (r: S)
        ensures
            r == self.length_spec(),
    {
        self.dot(self).root()
    }

    /// The vector with length one.
    pub open spec fn unit_spec(self) -> Self {
        self.scaled_spec(S::one_spec().over_spec(self.length_spec()))
    }

    pub fn unit(self) -> (r: Self)
        ensures
            r == self.unit_spec(),
    {
        self.scaled(S::one().over(self.length()))
    }

    /// The vector with length one, or zero where it has no direction.
    pub open spec fn unit_or_zero_spec(self) -> Self {
        let k = S::one_spec().over_spec(self.length_spec());
        if k.finite_spec() && S::zero_spec().lt_spec(k) {
            self.scaled_spec(k)
        } else {
            Self::zero_spec()
        }
    }

    pub fn unit_or_zero(self) -> (r: Self)
        ensures
            r == self.unit_or_zero_spec(),
    {
        let k = S::one().over(self.length());
        if k.finite() && S::zero().lt(k) {
            self.scaled(k)
        } else {
            Self::zero()
        }
    }

    pub open spec fn negated_spec(self) -> Self {
        Vec3 { x: self.x.negated_spec(), y: self.y.negated_spec(), z: self.z.negated_spec() }
    }

    pub fn negated(self) -> (r: Self)
        ensures
            r == self.negated_spec(),
    {
        Vec3 { x: self.x.negated(), y: self.y.negated(), z: self.z.negated() }
    }

    /// The vector at `k` between this one and another.
    pub open spec fn lerp_spec(self, rhs: Self, k: S) -> Self {
        self.scaled_spec(S::one_spec().minus_spec(k)).plus_spec(rhs.scaled_spec(k))
    }

    pub fn lerp(self, rhs: Self, k: S) -> (r: Self)
        ensures
            r == self.lerp_spec(rhs, k),
    {
        self.scaled(S::one().minus(k)).plus(rhs.scaled(k))
    }

    pub open spec fn smaller_spec(self, rhs: Self) -> Self {
        Vec3 {
            x: self.x.smaller_spec(rhs.x),
            y: self.y.smaller_spec(rhs.y),
            z: self.z.smaller_spec(rhs.z),
        }
    }

    pub fn smaller(self, rhs: Self) -> (r: Self)
        ensures
            r == self.smaller_spec(rhs),
    {
        Vec3 { x: self.x.smaller(rhs.x), y: self.y.smaller(rhs.y), z: self.z.smaller(rhs.z) }
    }

    pub open spec fn larger_spec(self, rhs: Self) -> Self {
        Vec3 {
            x: self.x.larger_spec(rhs.x),
            y: self.y.larger_spec(rhs.y),
            z: self.z.larger_spec(rhs.z),
        }
    }

    pub fn larger(self, rhs: Self) -> (r: Self)
        ensures
            r == self.larger_spec(rhs),
    {
        Vec3 { x: self.x.larger(rhs.x), y: self.y.larger(rhs.y), z: self.z.larger(rhs.z) }
    }
}

impl<S: Scalar> TrackValue<S> for Vec2<S> {
    open spec fn origin_spec() -> Self {
        Vec2 { x: S::zero_spec(), y: S::zero_spec() }
    }

    open spec fn shifted_spec(self, slope: Self, amount: S) -> Self {
        self.plus_spec(slope.scaled_spec(amount))
    }

    open spec fn mixed_spec(self, to: Self, alpha: S) -> Self {
        self.plus_spec(to.minus_spec(self).scaled_spec(alpha))
    }

    open spec fn alike_spec(self, other: Self) -> bool {
        self.x.same_spec(other.x)
            && self.y.same_spec(other.y)
    }

    fn origin() -> (r: Self) {
        Vec2 { x: S::zero(), y: S::zero() }
    }

    fn shifted(self, slope: Self, amount: S) -> (r: Self) {
        self.plus(slope.scaled(amount))
    }

    fn mixed(self, to: Self, alpha: S) -> (r: Self) {
        self.plus(to.minus(self).scaled(alpha))
    }

    fn alike(self, other: Self) -> (r: bool) {
        self.x.same(other.x)
            && self.y.same(other.y)
    }
}

impl<S: Scalar> TrackValue<S> for Vec3<S> {
    open spec fn origin_spec() -> Self {
        Vec3 { x: S::zero_spec(), y: S::zero_spec(), z: S::zero_spec() }
    }

    open spec fn shifted_spec(self, slope: Self, amount: S) -> Self {
        self.plus_spec(slope.scaled_spec(amount))
    }

    open spec fn mixed_spec(self, to: Self, alpha: S) -> Self {
        self.plus_spec(to.minus_spec(self).scaled_spec(alpha))
    }

    open spec fn alike_spec(self, other: Self) -> bool {
        self.x.same_spec(other.x)
            && self.y.same_spec(other.y)
            && self.z.same_spec(other.z)
    }

    fn origin() -> (r: Self) {
        Vec3 { x: S::zero(), y: S::zero(), z: S::zero() }
    }

    fn shifted(self, slope: Self, amount: S) -> (r: Self) {
        self.plus(slope.scaled(amount))
    }

    fn mixed(self, to: Self, alpha: S) -> (r: Self) {
        self.plus(to.minus(self).scaled(alpha))
    }

    fn alike(self, other: Self) -> (r: bool) {
        self.x.same(other.x)
            && self.y.same(other.y)
            && self.z.same(other.z)
    }
}

impl<S: Scalar> TrackValue<S> for Vec4<S> {
    open spec fn origin_spec() -> Self {
        Vec4 { x: S::zero_spec(), y: S::zero_spec(), z: S::zero_spec(), w: S::zero_spec() }
    }

    open spec fn shifted_spec(self, slope: Self, amount: S) -> Self {
        self.plus_spec(slope.scaled_spec(amount))
    }

    open spec fn mixed_spec(self, to: Self, alpha: S) -> Self {
        self.plus_spec(to.minus_spec(self).scaled_spec(alpha))
    }

    open spec fn alike_spec(self, other: Self) -> bool {
        self.x.same_spec(other.x)
            && self.y.same_spec(other.y)
            && self.z.same_spec(other.z)
            && self.w.same_spec(other.w)
    }

    fn origin() -> (r: Self) {
        Vec4 { x: S::zero(), y: S::zero(), z: S::zero(), w: S::zero() }
    }

    fn shifted(self, slope: Self, amount: S) -> (r: Self) {
        self.plus(slope.scaled(amount))
    }

    fn mixed(self, to: Self, alpha: S) -> (r: Self) {
        self.plus(to.minus(self).scaled(alpha))
    }

    fn alike(self, other: Self) -> (r: bool) {
        self.x.same(other.x)
            && self.y.same(other.y)
            && self.z.same(other.z)
            && self.w.same(other.w)
    }
}

} // verus!
