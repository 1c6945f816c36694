//! Solid resources.
//!
//! A solid is tracked by whole-unit count in the ledger; the catalog carries
//! its unit mass for collaborators that derive mass-based quantities.

use vstd::prelude::*;
use crate::rational::{Q, Rat};

verus! {

/// Specification-level view of a [`Solid`].
pub struct SolidV {
    pub mass: Q,
}

/// Physical properties of a solid resource: the mass of one unit, in grams.
#[derive(Clone, Copy, Debug)]
pub struct Solid {
    pub mass: Rat,
}

impl View for Solid {
    type V = SolidV;

    open spec fn view(&self) -> SolidV {
        SolidV { mass: self.mass@ }
    }
}

} // verus!
