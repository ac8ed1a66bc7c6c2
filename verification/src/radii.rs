//! Radii of round shapes, in any unit.

use vstd::prelude::*;
use std::ops::{Add, Div, Mul, Sub};
use vstd::std_specs::ops::{AddSpec, DivSpec, MulSpec, SubSpec};

verus! {

/// A single radius.
#[derive(Debug, Clone, Copy, PartialEq, Eq, PartialOrd, Ord)]
pub struct Radius<T>(pub T);

impl<T> Radius<T> {
    /// Creates a new [`Radius`].
    pub fn new(radius: T) -> (r: Self)
        ensures
            r.0 == radius,
    {
        Radius(radius)
    }
}

/// A radius that covers both the x and y axes.
#[derive(Debug, Clone, Copy, PartialEq, Eq, PartialOrd, Ord)]
pub struct Radii<T> {
    /// The radius on the x-axis.
    pub x: Radius<T>,
    /// The radius on the y-axis.
    pub y: Radius<T>,
}

impl<T> Radii<T> {
    /// Creates new radii.
    pub fn new(x: T, y: T) -> (r: Self)
        ensures
            r.x.0 == x,
            r.y.0 == y,
    {
        Radii { x: Radius(x), y: Radius(y) }
    }

    /// Creates *uniform* radii (the x and y values are the same).
    pub fn uniform(radius: T) -> (r: Self)
        where
            T: Copy,
        ensures
            r.x.0 == radius,
            r.y.0 == radius,
    {
        Radii { x: Radius(radius), y: Radius(radius) }
    }
}

impl<T: Mul<Output = T>> Mul<T> for Radius<T> {
    type Output = Self;

    fn mul(self, rhs: T) -> Self {
        Radius(self.0 * rhs)
    }
}

impl<T: Mul<Output = T>> vstd::std_specs::ops::MulSpecImpl<T> for Radius<T> {
    open spec fn obeys_mul_spec() -> bool {
        T::obeys_mul_spec()
    }

    open spec fn mul_req(self, rhs: T) -> bool {
        self.0.mul_req(rhs)
    }

    open spec fn mul_spec(self, rhs: T) -> Self {
        Radius(self.0.mul_spec(rhs))
    }
}

impl<T: Mul<Output = T>> Mul<Self> for Radius<T> {
    type Output = Self;

    fn mul(self, rhs: Self) -> Self {
        Radius(self.0 * rhs.0)
    }
}

impl<T: Mul<Output = T>> vstd::std_specs::ops::MulSpecImpl<Self> for Radius<T> {
    open spec fn obeys_mul_spec() -> bool {
        T::obeys_mul_spec()
    }

    open spec fn mul_req(self, rhs: Self) -> bool {
        self.0.mul_req(rhs.0)
    }

    open spec fn mul_spec(self, rhs: Self) -> Self {
        Radius(self.0.mul_spec(rhs.0))
    }
}

impl<T: Mul<Output = T> + Copy> Mul<T> for Radii<T> {
    type Output = Self;

    fn mul(self, rhs: T) -> Self {
        Radii { x: self.x * rhs, y: self.y * rhs }
    }
}

impl<T: Mul<Output = T> + Copy> vstd::std_specs::ops::MulSpecImpl<T> for Radii<T> {
    open spec fn obeys_mul_spec() -> bool {
        T::obeys_mul_spec()
    }

    open spec fn mul_req(self, rhs: T) -> bool {
        self.x.0.mul_req(rhs) && self.y.0.mul_req(rhs)
    }

    open spec fn mul_spec(self, rhs: T) -> Self {
        Radii { x: Radius(self.x.0.mul_spec(rhs)), y: Radius(self.y.0.mul_spec(rhs)) }
    }
}

impl<T: Mul<Output = T>> Mul<Self> for Radii<T> {
    type Output = Self;

    fn mul(self, rhs: Self) -> Self {
        Radii { x: self.x * rhs.x, y: self.y * rhs.y }
    }
}

impl<T: Mul<Output = T>> vstd::std_specs::ops::MulSpecImpl<Self> for Radii<T> {
    open spec fn obeys_mul_spec() -> bool {
        T::obeys_mul_spec()
    }

    open spec fn mul_req(self, rhs: Self) -> bool {
        self.x.0.mul_req(rhs.x.0) && self.y.0.mul_req(rhs.y.0)
    }

    open spec fn mul_spec(self, rhs: Self) -> Self {
        Radii { x: Radius(self.x.0.mul_spec(rhs.x.0)), y: Radius(self.y.0.mul_spec(rhs.y.0)) }
    }
}

impl<T: Div<Output = T>> Div<T> for Radius<T> {
    type Output = Self;

    fn div(self, rhs: T) -> Self {
        Radius(self.0 / rhs)
    }
}

impl<T: Div<Output = T>> vstd::std_specs::ops::DivSpecImpl<T> for Radius<T> {
    open spec fn obeys_div_spec() -> bool {
        T::obeys_div_spec()
    }

    open spec fn div_req(self, rhs: T) -> bool {
        self.0.div_req(rhs)
    }

    open spec fn div_spec(self, rhs: T) -> Self {
        Radius(self.0.div_spec(rhs))
    }
}

impl<T: Div<Output = T>> Div<Self> for Radius<T> {
    type Output = Self;

    fn div(self, rhs: Self) -> Self {
        Radius(self.0 / rhs.0)
    }
}

impl<T: Div<Output = T>> vstd::std_specs::ops::DivSpecImpl<Self> for Radius<T> {
    open spec fn obeys_div_spec() -> bool {
        T::obeys_div_spec()
    }

    open spec fn div_req(self, rhs: Self) -> bool {
        self.0.div_req(rhs.0)
    }

    open spec fn div_spec(self, rhs: Self) -> Self {
        Radius(self.0.div_spec(rhs.0))
    }
}

impl<T: Div<Output = T> + Copy> Div<T> for Radii<T> {
    type Output = Self;

    fn div(self, rhs: T) -> Self {
        Radii { x: self.x / rhs, y: self.y / rhs }
    }
}

impl<T: Div<Output = T> + Copy> vstd::std_specs::ops::DivSpecImpl<T> for Radii<T> {
    open spec fn obeys_div_spec() -> bool {
        T::obeys_div_spec()
    }

    open spec fn div_req(self, rhs: T) -> bool {
        self.x.0.div_req(rhs) && self.y.0.div_req(rhs)
    }

    open spec fn div_spec(self, rhs: T) -> Self {
        Radii { x: Radius(self.x.0.div_spec(rhs)), y: Radius(self.y.0.div_spec(rhs)) }
    }
}

impl<T: Div<Output = T>> Div<Self> for Radii<T> {
    type Output = Self;

    fn div(self, rhs: Self) -> Self {
        Radii { x: self.x / rhs.x, y: self.y / rhs.y }
    }
}

impl<T: Div<Output = T>> vstd::std_specs::ops::DivSpecImpl<Self> for Radii<T> {
    open spec fn obeys_div_spec() -> bool {
        T::obeys_div_spec()
    }

    open spec fn div_req(self, rhs: Self) -> bool {
        self.x.0.div_req(rhs.x.0) && self.y.0.div_req(rhs.y.0)
    }

    open spec fn div_spec(self, rhs: Self) -> Self {
        Radii { x: Radius(self.x.0.div_spec(rhs.x.0)), y: Radius(self.y.0.div_spec(rhs.y.0)) }
    }
}

impl<T: Add<Output = T>> Add<T> for Radius<T> {
    type Output = Self;

    fn add(self, rhs: T) -> Self {
        Radius(self.0 + rhs)
    }
}

impl<T: Add<Output = T>> vstd::std_specs::ops::AddSpecImpl<T> for Radius<T> {
    open spec fn obeys_add_spec() -> bool {
        T::obeys_add_spec()
    }

    open spec fn add_req(self, rhs: T) -> bool {
        self.0.add_req(rhs)
    }

    open spec fn add_spec(self, rhs: T) -> Self {
        Radius(self.0.add_spec(rhs))
    }
}

impl<T: Add<Output = T>> Add<Self> for Radius<T> {
    type Output = Self;

    fn add(self, rhs: Self) -> Self {
        Radius(self.0 + rhs.0)
    }
}

impl<T: Add<Output = T>> vstd::std_specs::ops::AddSpecImpl<Self> for Radius<T> {
    open spec fn obeys_add_spec() -> bool {
        T::obeys_add_spec()
    }

    open spec fn add_req(self, rhs: Self) -> bool {
        self.0.add_req(rhs.0)
    }

    open spec fn add_spec(self, rhs: Self) -> Self {
        Radius(self.0.add_spec(rhs.0))
    }
}

impl<T: Add<Output = T> + Copy> Add<T> for Radii<T> {
    type Output = Self;

    fn add(self, rhs: T) -> Self {
        Radii { x: self.x + rhs, y: self.y + rhs }
    }
}

impl<T: Add<Output = T> + Copy> vstd::std_specs::ops::AddSpecImpl<T> for Radii<T> {
    open spec fn obeys_add_spec() -> bool {
        T::obeys_add_spec()
    }

    open spec fn add_req(self, rhs: T) -> bool {
        self.x.0.add_req(rhs) && self.y.0.add_req(rhs)
    }

    open spec fn add_spec(self, rhs: T) -> Self {
        Radii { x: Radius(self.x.0.add_spec(rhs)), y: Radius(self.y.0.add_spec(rhs)) }
    }
}

impl<T: Add<Output = T>> Add<Self> for Radii<T> {
    type Output = Self;

    fn add(self, rhs: Self) -> Self {
        Radii { x: self.x + rhs.x, y: self.y + rhs.y }
    }
}

impl<T: Add<Output = T>> vstd::std_specs::ops::AddSpecImpl<Self> for Radii<T> {
    open spec fn obeys_add_spec() -> bool {
        T::obeys_add_spec()
    }

    open spec fn add_req(self, rhs: Self) -> bool {
        self.x.0.add_req(rhs.x.0) && self.y.0.add_req(rhs.y.0)
    }

    open spec fn add_spec(self, rhs: Self) -> Self {
        Radii { x: Radius(self.x.0.add_spec(rhs.x.0)), y: Radius(self.y.0.add_spec(rhs.y.0)) }
    }
}

impl<T: Sub<Output = T>> Sub<T> for Radius<T> {
    type Output = Self;

    fn sub(self, rhs: T) -> Self {
        Radius(self.0 - rhs)
    }
}

impl<T: Sub<Output = T>> vstd::std_specs::ops::SubSpecImpl<T> for Radius<T> {
    open spec fn obeys_sub_spec() -> bool {
        T::obeys_sub_spec()
    }

    open spec fn sub_req(self, rhs: T) -> bool {
        self.0.sub_req(rhs)
    }

    open spec fn sub_spec(self, rhs: T) -> Self {
        Radius(self.0.sub_spec(rhs))
    }
}

impl<T: Sub<Output = T>> Sub<Self> for Radius<T> {
    type Output = Self;

    fn sub(self, rhs: Self) -> Self {
        Radius(self.0 - rhs.0)
    }
}

impl<T: Sub<Output = T>> vstd::std_specs::ops::SubSpecImpl<Self> for Radius<T> {
    open spec fn obeys_sub_spec() -> bool {
        T::obeys_sub_spec()
    }

    open spec fn sub_req(self, rhs: Self) -> bool {
        self.0.sub_req(rhs.0)
    }

    open spec fn sub_spec(self, rhs: Self) -> Self {
        Radius(self.0.sub_spec(rhs.0))
    }
}

impl<T: Sub<Output = T> + Copy> Sub<T> for Radii<T> {
    type Output = Self;

    fn sub(self, rhs: T) -> Self {
        Radii { x: self.x - rhs, y: self.y - rhs }
    }
}

impl<T: Sub<Output = T> + Copy> vstd::std_specs::ops::SubSpecImpl<T> for Radii<T> {
    open spec fn obeys_sub_spec() -> bool {
        T::obeys_sub_spec()
    }

    open spec fn sub_req(self, rhs: T) -> bool {
        self.x.0.sub_req(rhs) && self.y.0.sub_req(rhs)
    }

    open spec fn sub_spec(self, rhs: T) -> Self {
        Radii { x: Radius(self.x.0.sub_spec(rhs)), y: Radius(self.y.0.sub_spec(rhs)) }
    }
}

impl<T: Sub<Output = T>> Sub<Self> for Radii<T> {
    type Output = Self;

    fn sub(self, rhs: Self) -> Self {
        Radii { x: self.x - rhs.x, y: self.y - rhs.y }
    }
}

impl<T: Sub<Output = T>> vstd::std_specs::ops::SubSpecImpl<Self> for Radii<T> {
    open spec fn obeys_sub_spec() -> bool {
        T::obeys_sub_spec()
    }

    open spec fn sub_req(self, rhs: Self) -> bool {
        self.x.0.sub_req(rhs.x.0) && self.y.0.sub_req(rhs.y.0)
    }

    open spec fn sub_spec(self, rhs: Self) -> Self {
        Radii { x: Radius(self.x.0.sub_spec(rhs.x.0)), y: Radius(self.y.0.sub_spec(rhs.y.0)) }
    }
}

} // verus!
