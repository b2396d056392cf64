//! Price and amount precision of an instrument.

use vstd::prelude::*;

verus! {

/// How a precision figure is to be read.
#[derive(Debug, Clone, Copy, PartialEq, Eq, Hash, Structural)]
pub enum Type {
    /// No precision given.
    Unset,
    /// The figure counts digits after the decimal point.
    FractionalDigits,
    /// The figure counts significant digits.
    SignificantDigits,
}

/// The precision of prices and amounts on one instrument.
#[derive(Debug, Clone, Copy, PartialEq, Eq, Hash, Structural)]
pub struct Precision {
    /// The price precision figure.
    pub price: i32,
    /// How the price figure is to be read.
    pub price_precision_type: Type,
    /// The amount precision figure.
    pub amount: i32,
    /// How the amount figure is to be read.
    pub amount_precision_type: Type,
}

impl Precision {
    /// A precision from its four figures.
    pub fn new(price: i32, price_precision_type: Type, amount: i32, amount_precision_type: Type)
        -> (p: Precision)
        ensures
            p.price == price,
            p.price_precision_type == price_precision_type,
            p.amount == amount,
            p.amount_precision_type == amount_precision_type,
    {
        Precision { price, price_precision_type, amount, amount_precision_type }
    }
}

impl Default for Precision {
    /// The default precision: zero figures, no precision types.
    fn default() -> (p: Precision)
        ensures
            p.price == 0,
            p.price_precision_type == Type::Unset,
            p.amount == 0,
            p.amount_precision_type == Type::Unset,
    {
        Precision::new(0, Type::Unset, 0, Type::Unset)
    }
}

} // verus!
