//! Quantities of a commodity.

use vstd::prelude::*;
use std::cmp::Ordering;
use std::ops::Mul;
use crate::decimal::Decimal;

verus! {

/// How much of a commodity: a decimal number.
#[derive(Clone, Copy, PartialEq, Eq, Debug, Structural)]
pub struct Quantity(pub Decimal);

impl Quantity {
    /// The quantity without its sign.
    pub fn abs(self) -> (q: Quantity)
        requires
            self.0.unscaled > i64::MIN,
        ensures
            q.0.scale == self.0.scale,
            q.0.unscaled == self.0.magnitude(),
    {
        Quantity(self.0.abs())
    }
}

/// Quantities are ordered as their decimal numbers are.
impl PartialOrd for Quantity {
    fn partial_cmp(&self, other: &Quantity) -> (r: Option<Ordering>) {
        self.0.partial_cmp(&other.0)
    }
}

impl vstd::std_specs::cmp::PartialOrdSpecImpl for Quantity {
    open spec fn obeys_partial_cmp_spec() -> bool {
        true
    }

    open spec fn partial_cmp_spec(&self, other: &Quantity) -> Option<Ordering> {
        vstd::std_specs::cmp::PartialOrdSpec::partial_cmp_spec(&self.0, &other.0)
    }
}

impl Mul for Quantity {
    type Output = Quantity;

    fn mul(self, r: Quantity) -> (q: Quantity) {
        Quantity(self.0 * r.0)
    }
}

impl vstd::std_specs::ops::MulSpecImpl for Quantity {
    open spec fn obeys_mul_spec() -> bool {
        true
    }

    open spec fn mul_req(self, r: Quantity) -> bool {
        self.0.has_product(r.0)
    }

    open spec fn mul_spec(self, r: Quantity) -> Quantity {
        Quantity(self.0.product(r.0))
    }
}

} // verus!
