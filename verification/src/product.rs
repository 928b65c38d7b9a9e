use vstd::prelude::*;

verus! {

/// An inert catalogue record: a numeric identifier, a textual description,
/// and a monetary amount kept in minor currency units (cents), so that the
/// amount is exact and the record stays within verifiable arithmetic.
#[derive(Debug)]
pub struct Product {
    pub id: u32,
    pub description: String,
    pub price_cents: u64,
}

/// The mathematical content of a `Product`: the identifier, the sequence of
/// characters of the description, and the amount in minor units.
pub ghost struct ProductModel {
    pub id: u32,
    pub description: Seq<char>,
    pub price_cents: u64,
}

impl ProductModel {
    /// A model that some machine-level `Product` can hold: its description
    /// is no longer than any machine string can be.
    pub open spec fn fits(self) -> bool {
        self.description.len() <= u64::MAX
    }
}

impl View for Product {
    type V = ProductModel;

    open spec fn view(&self) -> ProductModel {
        ProductModel {
            id: self.id,
            description: self.description@,
            price_cents: self.price_cents,
        }
    }
}

} // verus!
