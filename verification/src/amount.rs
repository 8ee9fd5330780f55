//! Amounts: a quantity of a commodity, with the way it is written and the
//! price it was bought at.

use vstd::prelude::*;
use std::ops::Add;
use std::ops::Div;
use std::rc::Rc;
use crate::commodity::Commodity;
use crate::decimal::lemma_scaled_to_own;
use crate::decimal::Decimal;
use crate::selection::lemma_select_ignores_later;
use crate::selection::select;
use crate::price::Price;
use crate::price::PriceView;
use crate::quantity::Quantity;

verus! {

/// The side of the quantity on which the commodity is written.
#[derive(Clone, Copy, PartialEq, Eq, Debug, Structural)]
pub enum Side {
    Left,
    Right,
}

/// How the digits of a quantity are grouped: the separator and the sizes of
/// the groups.
#[derive(PartialEq, Eq, Debug)]
pub struct DigitGroupStyle(char, Vec<usize>);

/// How an amount is written.
#[derive(Debug)]
pub struct AmountStyle {
    commodity_side: Side,
    commodity_spaced: bool,
    precision: usize,
    decimal_point: Option<char>,
    digit_groups: Option<DigitGroupStyle>,
}

/// What an [`AmountStyle`] stands for.
pub ghost struct AmountStyleView {
    pub commodity_side: Side,
    pub commodity_spaced: bool,
    pub precision: nat,
    pub decimal_point: Option<char>,
    pub digit_groups: Option<(char, Seq<usize>)>,
}

/// A quantity of a commodity.
#[derive(Debug)]
pub struct Amount {
    commodity: Commodity,
    quantity: Quantity,
    price: Rc<Price>,
    style: AmountStyle,
}

/// What an [`Amount`] stands for.
pub ghost struct AmountView {
    pub commodity: Seq<char>,
    pub quantity: Quantity,
    pub price: PriceView,
    pub style: AmountStyleView,
}

/// Amounts of several commodities.
#[derive(Debug)]
pub struct MixedAmount(Vec<Amount>);

impl AmountStyleView {
    /// The plain style: the commodity on the left without a space, no
    /// decimal places, no decimal point and no digit groups.
    pub open spec fn plain() -> AmountStyleView {
        AmountStyleView {
            commodity_side: Side::Left,
            commodity_spaced: false,
            precision: 0,
            decimal_point: None,
            digit_groups: None,
        }
    }
}

impl AmountView {
    /// Nothing of no commodity, in the plain style and without a price.
    pub open spec fn nothing() -> AmountView {
        AmountView {
            commodity: Seq::empty(),
            quantity: Quantity(Decimal { unscaled: 0, scale: 0 }),
            price: PriceView::NoPrice,
            style: AmountStyleView::plain(),
        }
    }

    /// Whether the cost can be computed: the amount has no price, or the
    /// quantity of its price can be multiplied by its own.
    pub open spec fn has_cost(self) -> bool {
        match self.price {
            PriceView::NoPrice => true,
            PriceView::UnitPrice(a) => a.quantity.0.has_product(self.quantity.0),
            PriceView::TotalPrice(a) => a.quantity.0.has_product(self.quantity.0),
        }
    }

    /// The cost: the amount itself where it has no price, and else its
    /// price with the quantity multiplied by the amount's own.
    pub open spec fn cost(self) -> AmountView {
        match self.price {
            PriceView::NoPrice => self,
            PriceView::UnitPrice(a) => AmountView {
                quantity: Quantity(a.quantity.0.product(self.quantity.0)),
                ..*a
            },
            PriceView::TotalPrice(a) => AmountView {
                quantity: Quantity(a.quantity.0.product(self.quantity.0)),
                ..*a
            },
        }
    }
}

impl DigitGroupStyle {
    /// The separator and the sizes of the groups.
    pub closed spec fn view(&self) -> (char, Seq<usize>) {
        (self.0, self.1@)
    }

    /// Whether both styles are the same.
    pub fn same_as(&self, other: &DigitGroupStyle) -> (r: bool)
        ensures
            r == (self@ == other@),
    {
        if self.0 != other.0 || self.1.len() != other.1.len() {
            return false;
        }
        let mut i: usize = 0;
        while i < self.1.len()
            invariant
                i <= self.1.len(),
                self.1.len() == other.1.len(),
                forall|j: int| 0 <= j < i ==> self.1@[j] == other.1@[j],
            decreases self.1.len() - i,
        {
            if self.1[i] != other.1[i] {
                return false;
            }
            i += 1;
        }
        assert(self.1@ =~= other.1@);
        true
    }
}

impl Clone for DigitGroupStyle {
    fn clone(&self) -> (r: DigitGroupStyle)
        ensures
            r@ == self@,
    {
        let sizes = self.1.clone();
        DigitGroupStyle(self.0, sizes)
    }
}

impl AmountStyle {
    /// What the style stands for.
    pub closed spec fn view(&self) -> AmountStyleView {
        AmountStyleView {
            commodity_side: self.commodity_side,
            commodity_spaced: self.commodity_spaced,
            precision: self.precision as nat,
            decimal_point: self.decimal_point,
            digit_groups: match self.digit_groups {
                Some(g) => Some(g@),
                None => None,
            },
        }
    }

    /// The plain style.
    pub fn new() -> (r: AmountStyle)
        ensures
            r@ == AmountStyleView::plain(),
    {
        AmountStyle {
            commodity_side: Side::Left,
            commodity_spaced: false,
            precision: 0,
            decimal_point: Option::None,
            digit_groups: Option::None,
        }
    }

    /// Whether both styles are the same.
    pub fn same_as(&self, other: &AmountStyle) -> (r: bool)
        ensures
            r == (self@ == other@),
    {
        if self.commodity_side != other.commodity_side || self.commodity_spaced
            != other.commodity_spaced || self.precision != other.precision {
            return false;
        }
        let points = match (self.decimal_point, other.decimal_point) {
            (Some(a), Some(b)) => a == b,
            (None, None) => true,
            _ => false,
        };
        if !points {
            return false;
        }
        match (&self.digit_groups, &other.digit_groups) {
            (Some(a), Some(b)) => a.same_as(b),
            (None, None) => true,
            _ => false,
        }
    }
}

impl Clone for AmountStyle {
    fn clone(&self) -> (r: AmountStyle)
        ensures
            r@ == self@,
    {
        AmountStyle {
            commodity_side: self.commodity_side,
            commodity_spaced: self.commodity_spaced,
            precision: self.precision,
            decimal_point: self.decimal_point,
            digit_groups: match &self.digit_groups {
                Some(g) => Some(g.clone()),
                None => None,
            },
        }
    }
}

impl PartialEq for AmountStyle {
    fn eq(&self, other: &AmountStyle) -> (r: bool) {
        self.same_as(other)
    }
}

impl Eq for AmountStyle {

}

impl vstd::std_specs::cmp::PartialEqSpecImpl for AmountStyle {
    open spec fn obeys_eq_spec() -> bool {
        true
    }

    open spec fn eq_spec(&self, other: &AmountStyle) -> bool {
        self@ == other@
    }
}

impl Amount {
    /// What the amount stands for.
    pub closed spec fn view(&self) -> AmountView
        decreases self,
    {
        AmountView {
            commodity: self.commodity@,
            quantity: self.quantity,
            price: self.price.view(),
            style: self.style@,
        }
    }

    /// Nothing of no commodity.
    pub fn new() -> (r: Amount)
        ensures
            r@ == AmountView::nothing(),
    {
        Amount {
            commodity: Commodity::new(String::new()),
            quantity: Quantity(Decimal::new(0, 0)),
            price: Rc::new(Price::NoPrice),
            style: AmountStyle::new(),
        }
    }

    /// A copy of the amount.
    pub fn duplicate(&self) -> (r: Amount)
        ensures
            r@ == self@,
        decreases self,
    {
        let price: &Price = &*self.price;
        Amount {
            commodity: self.commodity.clone(),
            quantity: self.quantity,
            price: Rc::new(price.duplicate()),
            style: self.style.clone(),
        }
    }

    /// Whether both amounts stand for the same.
    pub fn same_as(&self, other: &Amount) -> (r: bool)
        ensures
            r == (self@ == other@),
        decreases self,
    {
        let price: &Price = &*self.price;
        let other_price: &Price = &*other.price;
        self.commodity == other.commodity && self.quantity == other.quantity && price.same_as(
            other_price,
        ) && self.style.same_as(&other.style)
    }

    /// The cost of the amount: the amount itself where it has no price, and
    /// else its price with the quantity multiplied by the amount's own.
    pub fn cost(&self) -> (r: Amount)
        requires
            self@.has_cost(),
        ensures
            r@ == self@.cost(),
    {
        let q = self.quantity;
        let price: &Price = &*self.price;
        match price {
            Price::NoPrice => self.clone(),
            Price::UnitPrice(a) => {
                let mut r = a.clone();
                r.quantity = r.quantity * q;
                r
            },
            Price::TotalPrice(a) => {
                let mut r = a.clone();
                r.quantity = r.quantity * q;
                r
            },
        }
    }

    /// Whether the quantity is less than zero.
    pub fn is_negative(&self) -> (r: bool)
        ensures
            r == (self@.quantity.0.unscaled < 0),
    {
        let z = Decimal::new(0, 0);
        proof {
            lemma_scaled_to_own(self.quantity.0);
        }
        self.quantity.0 < z
    }

    /// The amount of the commodity of `b` whose quantity is what `op` makes
    /// of the quantities of `a` and `b`, in the plain style and without a
    /// price.
    pub fn apply_op<F>(op: F, a: Amount, b: Amount) -> (r: Amount) where
        F: Fn(Quantity, Quantity) -> Quantity,

        requires
            call_requires(op, (a@.quantity, b@.quantity)),
        ensures
            call_ensures(op, (a@.quantity, b@.quantity), r@.quantity),
            r@.commodity == b@.commodity,
            r@.style == AmountStyleView::plain(),
            r@.price == PriceView::NoPrice,
    {
        Amount {
            commodity: b.commodity,
            style: AmountStyle::new(),
            price: Rc::new(Price::NoPrice),
            quantity: op(a.quantity, b.quantity),
        }
    }

    /// The same amount with the given price attached.
    pub fn with_price(&self, price: Price) -> (r: Amount)
        ensures
            r@ == (AmountView { price: price@, ..self@ }),
    {
        Amount {
            commodity: self.commodity.clone(),
            style: self.style.clone(),
            quantity: self.quantity,
            price: Rc::new(price),
        }
    }

    /// The same quantity in the same style, of another commodity and without
    /// a price.
    pub fn with_commodity(&self, commodity: Commodity) -> (r: Amount)
        ensures
            r@ == (AmountView { commodity: commodity@, price: PriceView::NoPrice, ..self@ }),
    {
        Amount {
            commodity: commodity,
            style: self.style.clone(),
            quantity: self.quantity.clone(),
            price: Rc::new(Price::NoPrice),
        }
    }
}

impl Clone for Amount {
    fn clone(&self) -> (r: Amount)
        ensures
            r@ == self@,
    {
        self.duplicate()
    }
}

impl PartialEq for Amount {
    fn eq(&self, other: &Amount) -> (r: bool) {
        self.same_as(other)
    }
}

impl Eq for Amount {

}

impl vstd::std_specs::cmp::PartialEqSpecImpl for Amount {
    open spec fn obeys_eq_spec() -> bool {
        true
    }

    open spec fn eq_spec(&self, other: &Amount) -> bool {
        self@ == other@
    }
}

impl Div<Quantity> for Amount {
    type Output = Amount;

    /// The amount with its quantity divided by `d`.
    fn div(self, d: Quantity) -> (r: Amount)
        ensures
            r@ == (AmountView { quantity: Quantity(self@.quantity.0.quotient(d.0)), ..self@ }),
    {
        let Quantity(q) = self.quantity;
        Amount {
            commodity: self.commodity,
            quantity: Quantity(q / d.0),
            price: self.price,
            style: self.style,
        }
    }
}

impl vstd::std_specs::ops::DivSpecImpl<Quantity> for Amount {
    open spec fn obeys_div_spec() -> bool {
        false
    }

    open spec fn div_req(self, d: Quantity) -> bool {
        self@.quantity.0.divisible_by(d.0)
    }

    open spec fn div_spec(self, d: Quantity) -> Amount {
        self
    }
}

impl MixedAmount {
    /// The amounts, in their order.
    pub closed spec fn amounts(&self) -> Seq<Amount> {
        self.0@
    }

    /// What the amounts stand for, in their order.
    pub open spec fn view(&self) -> Seq<AmountView> {
        Seq::new(self.amounts().len(), |i: int| self.amounts()[i]@)
    }

    /// The amounts of `amounts`, in their order.
    pub fn from_vec(amounts: Vec<Amount>) -> (r: MixedAmount)
        ensures
            r.amounts() == amounts@,
    {
        MixedAmount(amounts)
    }

    /// The amounts as a vector.
    pub fn into_vec(self) -> (r: Vec<Amount>)
        ensures
            r@ == self.amounts(),
    {
        self.0
    }

    /// No amount at all.
    pub fn zero() -> (r: MixedAmount)
        ensures
            r@ == Seq::<AmountView>::empty(),
    {
        MixedAmount(Vec::new())
    }

    /// How many amounts there are.
    pub fn len(&self) -> (n: usize)
        ensures
            n == self@.len(),
    {
        self.0.len()
    }

    /// The amounts that `f` accepts, in their order.
    pub fn filter<F>(self, f: F) -> (r: MixedAmount) where F: Fn(&Amount) -> bool
        requires
            forall|i: int|
                0 <= i < self.amounts().len() ==> call_requires(f, (&#[trigger] self.amounts()[i],)),
        ensures
            exists|keep: Seq<bool>|
                {
                    &&& keep.len() == self.amounts().len()
                    &&& forall|i: int|
                        0 <= i < keep.len() ==> call_ensures(
                            f,
                            (&#[trigger] self.amounts()[i],),
                            keep[i],
                        )
                    &&& r@ == select(self@, keep)
                },
    {
        let mut kept: Vec<Amount> = Vec::new();
        let ghost mut keep: Seq<bool> = Seq::empty();
        let mut i: usize = 0;
        while i < self.0.len()
            invariant
                i <= self.0.len(),
                keep.len() == i,
                forall|j: int|
                    0 <= j < self.amounts().len() ==> call_requires(
                        f,
                        (&#[trigger] self.amounts()[j],),
                    ),
                forall|j: int|
                    0 <= j < i ==> call_ensures(f, (&#[trigger] self.amounts()[j],), keep[j]),
                MixedAmount(kept)@ == select(self@.take(i as int), keep),
            decreases self.0.len() - i,
        {
            let ghost answers = keep;
            let answer = f(&self.0[i]);
            proof {
                keep = keep.push(answer);
                assert(self@.take(i + 1).drop_last() =~= self@.take(i as int));
                lemma_select_ignores_later(self@.take(i as int), answers, seq![answer]);
                assert(answers + seq![answer] =~= keep);
            }
            if answer {
                let x = self.0[i].clone();
                kept.push(x);
            }
            i += 1;
        }
        proof {
            assert(self@.take(self.0.len() as int) =~= self@);
        }
        MixedAmount(kept)
    }

    /// One amount of nothing where no amount is of the given commodity, and
    /// no amount at all where one is.
    pub fn filter_by_commodity(&self, commodity: Commodity) -> (r: MixedAmount)
        ensures
            r@ == if exists|i: int| 0 <= i < self@.len() && (#[trigger] self@[i]).commodity == commodity@ {
                Seq::<AmountView>::empty()
            } else {
                seq![AmountView::nothing()]
            },
    {
        let mut i: usize = 0;
        while i < self.0.len()
            invariant
                i <= self.0.len(),
                forall|j: int| 0 <= j < i ==> (#[trigger] self@[j]).commodity != commodity@,
            decreases self.0.len() - i,
        {
            if self.0[i].commodity == commodity {
                assert(self@[i as int].commodity == commodity@);
                return MixedAmount(Vec::new());
            }
            i += 1;
        }
        let mut v: Vec<Amount> = Vec::new();
        v.push(Amount::new());
        MixedAmount(v)
    }

    /// The cost of each amount, in their order.
    pub fn cost(&self) -> (r: MixedAmount)
        requires
            forall|i: int| 0 <= i < self@.len() ==> (#[trigger] self@[i]).has_cost(),
        ensures
            r@.len() == self@.len(),
            forall|i: int| 0 <= i < self@.len() ==> r@[i] == (#[trigger] self@[i]).cost(),
    {
        let mut out: Vec<Amount> = Vec::new();
        let mut i: usize = 0;
        while i < self.0.len()
            invariant
                i <= self.0.len(),
                out.len() == i,
                forall|j: int| 0 <= j < self@.len() ==> (#[trigger] self@[j]).has_cost(),
                forall|j: int| 0 <= j < i ==> out[j]@ == (#[trigger] self@[j]).cost(),
            decreases self.0.len() - i,
        {
            assert(self@[i as int].has_cost());
            let c = self.0[i].cost();
            out.push(c);
            i += 1;
        }
        MixedAmount(out)
    }
}

impl Clone for MixedAmount {
    fn clone(&self) -> (r: MixedAmount)
        ensures
            r@ == self@,
    {
        let amounts = self.0.clone();
        MixedAmount(amounts)
    }
}

impl PartialEq for MixedAmount {
    fn eq(&self, other: &MixedAmount) -> (r: bool) {
        let r = self.0 == other.0;
        proof {
            if r {
                assert(self@ =~= other@);
            } else if self@ == other@ {
                assert(self@.len() == other@.len());
                assert forall|i: int| 0 <= i < self.0.len() implies self.0[i]@ == other.0[i]@ by {
                    assert(self@[i] == other@[i]);
                }
            }
        }
        r
    }
}

impl Eq for MixedAmount {

}

impl vstd::std_specs::cmp::PartialEqSpecImpl for MixedAmount {
    open spec fn obeys_eq_spec() -> bool {
        true
    }

    open spec fn eq_spec(&self, other: &MixedAmount) -> bool {
        self@ == other@
    }
}

impl Add for MixedAmount {
    type Output = MixedAmount;

    /// The amounts of both, those of `self` first.
    fn add(self, rhs: MixedAmount) -> (r: MixedAmount)
        ensures
            r@ == self@ + rhs@,
    {
        let mut amounts = self.0;
        let mut more = rhs.0;
        amounts.append(&mut more);
        MixedAmount(amounts)
    }
}

impl vstd::std_specs::ops::AddSpecImpl for MixedAmount {
    open spec fn obeys_add_spec() -> bool {
        false
    }

    open spec fn add_req(self, rhs: MixedAmount) -> bool {
        true
    }

    open spec fn add_spec(self, rhs: MixedAmount) -> MixedAmount {
        self
    }
}

} // verus!
