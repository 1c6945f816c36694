//! Fluid resources and unit conversion.
//!
//! A fluid's physical constants convert exactly among its mass (grams),
//! volume (litres) and amount of substance (moles); every recipe quantity is
//! normalized to grams before the engine compares it against the ledger.

use vstd::prelude::*;
use crate::rational::{q_div, q_fits, q_from, q_lt, q_mul, q_wf, Q, Rat};
use crate::unit::Unit;

verus! {

/// Specification-level view of a [`Fluid`].
pub struct FluidV {
    pub density: Q,
    pub mol_mass: Q,
}

/// A catalog entry is well formed when both physical constants are positive.
pub open spec fn fluid_wf(f: FluidV) -> bool {
    &&& q_wf(f.density)
    &&& q_wf(f.mol_mass)
    &&& q_fits(f.density)
    &&& q_fits(f.mol_mass)
    &&& q_lt(q_from(0), f.density)
    &&& q_lt(q_from(0), f.mol_mass)
}

/// The gram value of `v` expressed in `unit`, under `f`'s constants.
pub open spec fn q_grams_from(f: FluidV, v: Q, unit: Unit) -> Q {
    match unit {
        Unit::Gram => v,
        Unit::Litre => q_mul(v, f.density),
        Unit::Mol => q_mul(v, f.mol_mass),
    }
}

/// Physical properties of a fluid resource: density in grams per litre and
/// molar mass in grams per mole.
#[derive(Clone, Copy, Debug)]
pub struct Fluid {
    pub density: Rat,
    pub mol_mass: Rat,
}

impl View for Fluid {
    type V = FluidV;

    open spec fn view(&self) -> FluidV {
        FluidV { density: self.density@, mol_mass: self.mol_mass@ }
    }
}

impl Fluid {
    pub fn grams_from_litres(&self, litres: &Rat) -> (r: Option<Rat>)
        ensures
            r is Some <==> q_fits(q_mul(litres@, self@.density)),
            r matches Some(v) ==> v@ == q_mul(litres@, self@.density),
    {
        litres.checked_mul(&self.density)
    }

    pub fn litres_from_grams(&self, grams: &Rat) -> (r: Option<Rat>)
        ensures
            r is Some <==> (self@.density.num != 0 && q_fits(q_div(grams@, self@.density))),
            r matches Some(v) ==> v@ == q_div(grams@, self@.density),
    {
        grams.checked_div(&self.density)
    }

    pub fn grams_from_mols(&self, mols: &Rat) -> (r: Option<Rat>)
        ensures
            r is Some <==> q_fits(q_mul(mols@, self@.mol_mass)),
            r matches Some(v) ==> v@ == q_mul(mols@, self@.mol_mass),
    {
        mols.checked_mul(&self.mol_mass)
    }

    pub fn mols_from_grams(&self, grams: &Rat) -> (r: Option<Rat>)
        ensures
            r is Some <==> (self@.mol_mass.num != 0 && q_fits(q_div(grams@, self@.mol_mass))),
            r matches Some(v) ==> v@ == q_div(grams@, self@.mol_mass),
    {
        grams.checked_div(&self.mol_mass)
    }

    /// Litres of `mols` moles, composed through grams.
    pub fn litres_from_mols(&self, mols: &Rat) -> (r: Option<Rat>)
        ensures
            r is Some <==> (q_fits(q_mul(mols@, self@.mol_mass)) && self@.density.num != 0
                && q_fits(q_div(q_mul(mols@, self@.mol_mass), self@.density))),
            r matches Some(v) ==> v@ == q_div(q_mul(mols@, self@.mol_mass), self@.density),
    {
        match self.grams_from_mols(mols) {
            Some(g) => self.litres_from_grams(&g),
            None => None,
        }
    }

    /// Moles of `litres` litres, composed through grams.
    pub fn mols_from_litres(&self, litres: &Rat) -> (r: Option<Rat>)
        ensures
            r is Some <==> (q_fits(q_mul(litres@, self@.density)) && self@.mol_mass.num != 0
                && q_fits(q_div(q_mul(litres@, self@.density), self@.mol_mass))),
            r matches Some(v) ==> v@ == q_div(q_mul(litres@, self@.density), self@.mol_mass),
    {
        match self.grams_from_litres(litres) {
            Some(g) => self.mols_from_grams(&g),
            None => None,
        }
    }

    /// The gram value of `val` expressed in `unit`.
    pub fn grams_from(&self, val: &Rat, unit: Unit) -> (r: Option<Rat>)
        requires
            q_fits(val@),
        ensures
            r is Some <==> q_fits(q_grams_from(self@, val@, unit)),
            r matches Some(v) ==> v@ == q_grams_from(self@, val@, unit),
    {
        match unit {
            Unit::Gram => Some(*val),
            Unit::Litre => self.grams_from_litres(val),
            Unit::Mol => self.grams_from_mols(val),
        }
    }

    /// The litre value of `val` expressed in `unit`.
    pub fn litres_from(&self, val: &Rat, unit: Unit) -> (r: Option<Rat>)
        requires
            q_fits(val@),
        ensures
            unit == Unit::Litre ==> (r matches Some(v) && v@ == val@),
            unit == Unit::Gram ==> ((r is Some <==> (self@.density.num != 0 && q_fits(
                q_div(val@, self@.density),
            ))) && (r matches Some(v) ==> v@ == q_div(val@, self@.density))),
            unit == Unit::Mol ==> ((r is Some <==> (q_fits(q_mul(val@, self@.mol_mass))
                && self@.density.num != 0 && q_fits(
                q_div(q_mul(val@, self@.mol_mass), self@.density),
            ))) && (r matches Some(v) ==> v@ == q_div(
                q_mul(val@, self@.mol_mass),
                self@.density,
            ))),
    {
        match unit {
            Unit::Gram => self.litres_from_grams(val),
            Unit::Litre => Some(*val),
            Unit::Mol => self.litres_from_mols(val),
        }
    }

    /// The mole value of `val` expressed in `unit`.
    pub fn mols_from(&self, val: &Rat, unit: Unit) -> (r: Option<Rat>)
        requires
            q_fits(val@),
        ensures
            unit == Unit::Mol ==> (r matches Some(v) && v@ == val@),
            unit == Unit::Gram ==> ((r is Some <==> (self@.mol_mass.num != 0 && q_fits(
                q_div(val@, self@.mol_mass),
            ))) && (r matches Some(v) ==> v@ == q_div(val@, self@.mol_mass))),
            unit == Unit::Litre ==> ((r is Some <==> (q_fits(q_mul(val@, self@.density))
                && self@.mol_mass.num != 0 && q_fits(
                q_div(q_mul(val@, self@.density), self@.mol_mass),
            ))) && (r matches Some(v) ==> v@ == q_div(
                q_mul(val@, self@.density),
                self@.mol_mass,
            ))),
    {
        match unit {
            Unit::Gram => self.mols_from_grams(val),
            Unit::Litre => self.mols_from_litres(val),
            Unit::Mol => Some(*val),
        }
    }
}

} // verus!
