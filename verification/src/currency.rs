//! Currency-level classifications.
//!
//! Only the fee classification lives in the library; the full
//! currency record carries floating-point fee figures and is held
//! outside it.

use vstd::prelude::*;

verus! {

/// How a deposit or withdrawal fee is charged.
#[derive(Debug, Clone, Copy, PartialEq, Eq, Structural)]
pub enum FeeType {
    /// A percentage of the moved amount.
    Percentage,
    /// A fixed amount.
    Fixed,
    /// An amount circulated back into the network.
    Circulated,
}

} // verus!
