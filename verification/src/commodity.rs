//! Commodities: what an amount is an amount of.

use vstd::prelude::*;

verus! {

/// A commodity, known by its symbol.
#[derive(Debug)]
pub struct Commodity(String);

impl View for Commodity {
    type V = Seq<char>;

    /// The symbol.
    closed spec fn view(&self) -> Seq<char> {
        self.0@
    }
}

impl Commodity {
    /// The commodity with the given symbol.
    pub fn new(commodity: String) -> (c: Commodity)
        ensures
            c@ == commodity@,
    {
        return Commodity(commodity);
    }

    /// The symbol.
    pub fn symbol(&self) -> (s: &str)
        ensures
            s@ == self@,
    {
        self.0.as_str()
    }
}

impl Clone for Commodity {
    fn clone(&self) -> (c: Commodity)
        ensures
            c@ == self@,
    {
        Commodity(self.0.clone())
    }
}

impl PartialEq for Commodity {
    fn eq(&self, other: &Commodity) -> (r: bool) {
        self.0 == other.0
    }
}

impl Eq for Commodity {

}

impl vstd::std_specs::cmp::PartialEqSpecImpl for Commodity {
    open spec fn obeys_eq_spec() -> bool {
        true
    }

    open spec fn eq_spec(&self, other: &Commodity) -> bool {
        self@ == other@
    }
}

} // verus!
