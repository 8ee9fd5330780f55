//! Prices: what one commodity costs in another.

use vstd::prelude::*;
use crate::amount::Amount;
use crate::amount::AmountView;

verus! {

/// The price attached to an amount.
#[derive(Debug)]
pub enum Price {
    /// No price is attached.
    NoPrice,
    /// The price of one unit.
    UnitPrice(Amount),
    /// The price of the whole amount.
    TotalPrice(Amount),
}

/// What a [`Price`] stands for.
pub ghost enum PriceView {
    NoPrice,
    UnitPrice(Box<AmountView>),
    TotalPrice(Box<AmountView>),
}

impl Price {
    /// What the price stands for.
    pub open spec fn view(&self) -> PriceView
        decreases self,
    {
        match self {
            Price::NoPrice => PriceView::NoPrice,
            Price::UnitPrice(a) => PriceView::UnitPrice(Box::new(a.view())),
            Price::TotalPrice(a) => PriceView::TotalPrice(Box::new(a.view())),
        }
    }

    /// A copy of the price.
    pub fn duplicate(&self) -> (r: Price)
        ensures
            r@ == self@,
        decreases self,
    {
        match self {
            Price::NoPrice => Price::NoPrice,
            Price::UnitPrice(a) => Price::UnitPrice(a.duplicate()),
            Price::TotalPrice(a) => Price::TotalPrice(a.duplicate()),
        }
    }

    /// Whether both prices stand for the same.
    pub fn same_as(&self, other: &Price) -> (r: bool)
        ensures
            r == (self@ == other@),
        decreases self,
    {
        match (self, other) {
            (Price::NoPrice, Price::NoPrice) => true,
            (Price::UnitPrice(a), Price::UnitPrice(b)) => a.same_as(b),
            (Price::TotalPrice(a), Price::TotalPrice(b)) => a.same_as(b),
            _ => false,
        }
    }
}

impl Clone for Price {
    fn clone(&self) -> (r: Price)
        ensures
            r@ == self@,
    {
        self.duplicate()
    }
}

impl PartialEq for Price {
    fn eq(&self, other: &Price) -> (r: bool) {
        self.same_as(other)
    }
}

impl Eq for Price {

}

impl vstd::std_specs::cmp::PartialEqSpecImpl for Price {
    open spec fn obeys_eq_spec() -> bool {
        true
    }

    open spec fn eq_spec(&self, other: &Price) -> bool {
        self@ == other@
    }
}

} // verus!
