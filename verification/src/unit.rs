//! The unit in which a recipe expresses a fluid quantity.

use vstd::prelude::*;

verus! {

/// How a fluid amount in a recipe is expressed.  Amounts are normalized to
/// grams before they are compared against the gram-denominated ledger.
#[derive(Clone, Copy, Debug, PartialEq, Eq, Structural)]
pub enum Unit {
    Gram,
    Litre,
    Mol,
}

} // verus!
