//! The reactor definition, its per-instance ledger, and the reaction engine.
//!
//! A recipe converts stored inputs (fluids in grams, solids in whole units,
//! power in joules) into outputs.  `react` finds the largest feasible
//! reactivity — the binding minimum over every availability, storage and
//! power ratio, floored to a whole number when any solid takes part — and
//! applies the resource deltas transactionally: either every ledger entry
//! moves, or none does.

use vstd::prelude::*;
use crate::fluid::{fluid_wf, q_grams_from, Fluid, FluidV};
use crate::rational::{
    lemma_q_add_wf, lemma_q_eq_trans, lemma_q_le_trans, lemma_q_min_props, lemma_q_sum_shift,
    q_abs, q_add, q_div, q_eq, q_fits, q_floor, q_from, q_is_whole, q_le, q_lt, q_min, q_mul,
    q_neg, q_sub, q_wf, Q, Rat,
};
use crate::table::StringMap;
use crate::unit::Unit;

verus! {

/// A storage bound: a finite amount, or explicitly unlimited.
#[derive(Clone, Copy, Debug)]
pub enum Capacity<T> {
    Bounded(T),
    Unbounded,
}

impl<T: View> View for Capacity<T> {
    type V = Capacity<T::V>;

    open spec fn view(&self) -> Capacity<T::V> {
        match self {
            Capacity::Bounded(x) => Capacity::Bounded(x@),
            Capacity::Unbounded => Capacity::Unbounded,
        }
    }
}

/// The result of an exact computation that must fit the machine
/// representation: the value, or the marker that it did not fit.
pub enum Checked<T> {
    Fits(T),
    Overflow,
}

/// Specification-level view of a [`FluidTerm`].
pub struct FluidTermV {
    pub name: Seq<char>,
    pub amount: Q,
    pub unit: Unit,
}

/// A fluid line of a recipe: `amount` of the named fluid, expressed in
/// `unit`.
pub struct FluidTerm {
    pub name: String,
    pub amount: Rat,
    pub unit: Unit,
}

impl View for FluidTerm {
    type V = FluidTermV;

    open spec fn view(&self) -> FluidTermV {
        FluidTermV { name: self.name@, amount: self.amount@, unit: self.unit }
    }
}

/// Specification-level view of a [`SolidTerm`].
pub struct SolidTermV {
    pub name: Seq<char>,
    pub count: int,
}

/// A solid line of a recipe: `count` whole units of the named solid.
pub struct SolidTerm {
    pub name: String,
    pub count: u64,
}

impl View for SolidTerm {
    type V = SolidTermV;

    open spec fn view(&self) -> SolidTermV {
        SolidTermV { name: self.name@, count: self.count as int }
    }
}

pub open spec fn fterms_view(s: Seq<FluidTerm>) -> Seq<FluidTermV> {
    s.map_values(|t: FluidTerm| t@)
}

pub open spec fn sterms_view(s: Seq<SolidTerm>) -> Seq<SolidTermV> {
    s.map_values(|t: SolidTerm| t@)
}

/// Specification-level view of a [`Reactor`].
pub struct ReactorV {
    pub fluid_inputs: Seq<FluidTermV>,
    pub fluid_outputs: Seq<FluidTermV>,
    pub solid_inputs: Seq<SolidTermV>,
    pub solid_outputs: Seq<SolidTermV>,
    pub power_loss: Q,
}

/// The immutable recipe a reactor instance executes: named fluid and solid
/// inputs and outputs, and a signed power term in joules per unit
/// reactivity (positive consumes power, negative produces it).
pub struct Reactor {
    pub fluid_inputs: Vec<FluidTerm>,
    pub fluid_outputs: Vec<FluidTerm>,
    pub solid_inputs: Vec<SolidTerm>,
    pub solid_outputs: Vec<SolidTerm>,
    pub power_loss: Rat,
}

impl View for Reactor {
    type V = ReactorV;

    open spec fn view(&self) -> ReactorV {
        ReactorV {
            fluid_inputs: fterms_view(self.fluid_inputs@),
            fluid_outputs: fterms_view(self.fluid_outputs@),
            solid_inputs: sterms_view(self.solid_inputs@),
            solid_outputs: sterms_view(self.solid_outputs@),
            power_loss: self.power_loss@,
        }
    }
}

pub open spec fn fluid_term_wf(t: FluidTermV) -> bool {
    &&& q_wf(t.amount)
    &&& q_fits(t.amount)
    &&& q_le(q_from(0), t.amount)
}

pub open spec fn fluid_terms_wf(s: Seq<FluidTermV>) -> bool {
    forall|i: int| 0 <= i < s.len() ==> fluid_term_wf(#[trigger] s[i])
}

pub open spec fn solid_term_wf(t: SolidTermV) -> bool {
    1 <= t.count <= u64::MAX
}

pub open spec fn solid_terms_wf(s: Seq<SolidTermV>) -> bool {
    forall|i: int| 0 <= i < s.len() ==> solid_term_wf(#[trigger] s[i])
}

/// No fluid name occurs twice in one term list.
pub open spec fn fluid_names_distinct(s: Seq<FluidTermV>) -> bool {
    forall|i: int, j: int| #![auto] 0 <= i < j < s.len() ==> s[i].name != s[j].name
}

/// No solid name occurs twice in one term list.
pub open spec fn solid_names_distinct(s: Seq<SolidTermV>) -> bool {
    forall|i: int, j: int| #![auto] 0 <= i < j < s.len() ==> s[i].name != s[j].name
}

impl Reactor {
    /// A recipe is well formed when every amount is a non-negative rational
    /// that fits the machine representation, every solid count is at least
    /// one (a zero count would divide by zero), no name repeats within a
    /// term list (the ledger holds one entry per name), and the power term
    /// fits.  [`Reactor::check_wf`] decides this at run time.
    pub open spec fn wf(&self) -> bool {
        &&& fluid_terms_wf(self@.fluid_inputs)
        &&& fluid_terms_wf(self@.fluid_outputs)
        &&& solid_terms_wf(self@.solid_inputs)
        &&& solid_terms_wf(self@.solid_outputs)
        &&& fluid_names_distinct(self@.fluid_inputs)
        &&& fluid_names_distinct(self@.fluid_outputs)
        &&& solid_names_distinct(self@.solid_inputs)
        &&& solid_names_distinct(self@.solid_outputs)
        &&& q_wf(self@.power_loss)
        &&& q_fits(self@.power_loss)
    }

    /// Every fluid name of the recipe resolves in the catalog to a
    /// well-formed entry.
    pub open spec fn catalog_ok(&self, fl: Map<Seq<char>, FluidV>) -> bool {
        &&& fluid_terms_cat_ok(self@.fluid_inputs, fl)
        &&& fluid_terms_cat_ok(self@.fluid_outputs, fl)
    }
}

/// Every term's fluid is in the catalog, with a well-formed entry.
pub open spec fn fluid_terms_cat_ok(s: Seq<FluidTermV>, fl: Map<Seq<char>, FluidV>) -> bool {
    forall|i: int|
        0 <= i < s.len() ==> fl.contains_key(#[trigger] s[i].name) && fluid_wf(fl[s[i].name])
}

/// A recipe with a solid on either side reacts only in whole numbers.
pub open spec fn uses_discrete(r: ReactorV) -> bool {
    r.solid_inputs.len() > 0 || r.solid_outputs.len() > 0
}

/// Specification-level view of a [`FluidStore`].
pub struct FluidStoreV {
    pub avail: Q,
    pub space: Capacity<Q>,
}

/// Ledger entry for one fluid: grams available, and grams of storage left.
#[derive(Clone, Copy, Debug)]
pub struct FluidStore {
    pub avail: Rat,
    pub space: Capacity<Rat>,
}

impl View for FluidStore {
    type V = FluidStoreV;

    open spec fn view(&self) -> FluidStoreV {
        FluidStoreV { avail: self.avail@, space: self.space@ }
    }
}

/// Specification-level view of a [`SolidStore`].
pub struct SolidStoreV {
    pub avail: int,
    pub space: Capacity<int>,
}

/// Ledger entry for one solid: whole units available, and units of storage
/// left.
#[derive(Clone, Copy, Debug)]
pub struct SolidStore {
    pub avail: u64,
    pub space: Capacity<u64>,
}

impl View for SolidStore {
    type V = SolidStoreV;

    open spec fn view(&self) -> SolidStoreV {
        SolidStoreV {
            avail: self.avail as int,
            space: match self.space {
                Capacity::Bounded(x) => Capacity::Bounded(x as int),
                Capacity::Unbounded => Capacity::Unbounded,
            },
        }
    }
}

/// Specification-level view of a [`ReactorContext`]: the whole ledger.
pub struct LedgerV {
    pub fluids: Map<Seq<char>, FluidStoreV>,
    pub solids: Map<Seq<char>, SolidStoreV>,
    pub power_avail: Q,
    pub power_space: Capacity<Q>,
    pub size: Capacity<Q>,
}

/// The mutable per-instance state of one reactor: availability and free
/// storage for every resource the recipe touches, plus the power budget.
/// The maps are exposed so the surrounding storage-transfer code can
/// deposit and withdraw resources between reaction steps.
pub struct ReactorContext {
    pub fluid_store: StringMap<FluidStore>,
    pub solid_store: StringMap<SolidStore>,
    pub power_avail: Rat,
    pub power_space: Capacity<Rat>,
    pub size: Capacity<Rat>,
}

impl View for ReactorContext {
    type V = LedgerV;

    open spec fn view(&self) -> LedgerV {
        LedgerV {
            fluids: self.fluid_store@,
            solids: self.solid_store@,
            power_avail: self.power_avail@,
            power_space: self.power_space@,
            size: self.size@,
        }
    }
}

impl ReactorContext {
    /// Both ledger tables keep each name at most once.
    pub open spec fn tables_wf(&self) -> bool {
        &&& self.fluid_store.wf()
        &&& self.solid_store.wf()
    }
}

/// The reaction outcome when no reaction is possible at all.
#[derive(Clone, Copy, Debug, PartialEq, Eq, Structural)]
pub enum ReactError {
    /// The recipe has no input, output or power constraint: it would react
    /// without bound, which marks a malformed definition.
    InfiniteReactivity,
    /// An exact intermediate value did not fit the machine representation;
    /// the ledger is untouched.
    Overflow,
}

pub open spec fn fluid_refs_ok(s: Seq<FluidTermV>, m: Map<Seq<char>, FluidStoreV>) -> bool {
    forall|i: int| 0 <= i < s.len() ==> m.contains_key(#[trigger] s[i].name)
}

pub open spec fn solid_refs_ok(s: Seq<SolidTermV>, m: Map<Seq<char>, SolidStoreV>) -> bool {
    forall|i: int| 0 <= i < s.len() ==> m.contains_key(#[trigger] s[i].name)
}

/// Every resource the recipe references has a ledger entry.  A recipe that
/// references an unknown name reacts by zero and changes nothing.
pub open spec fn refs_present(r: ReactorV, c: LedgerV) -> bool {
    &&& fluid_refs_ok(r.fluid_inputs, c.fluids)
    &&& solid_refs_ok(r.solid_inputs, c.solids)
    &&& fluid_refs_ok(r.fluid_outputs, c.fluids)
    &&& solid_refs_ok(r.solid_outputs, c.solids)
}

pub open spec fn opt_rat_view(a: Option<Rat>) -> Option<Q> {
    match a {
        Option::Some(r) => Option::Some(r@),
        Option::None => Option::None,
    }
}

/// Every bound held so far fits the machine representation.
pub open spec fn opt_fits(a: Option<Rat>) -> bool {
    match a {
        Option::Some(v) => q_fits(v@),
        Option::None => true,
    }
}

/// Fold one more ratio into the running minimum; `None` is the state before
/// any bound has applied.
pub open spec fn opt_min(acc: Option<Q>, b: Q) -> Option<Q> {
    match acc {
        Option::Some(m) => Option::Some(q_min(m, b)),
        Option::None => Option::Some(b),
    }
}

/// Bounds from the fluid inputs, from index `i` on: each positive gram need
/// caps the reactivity by `avail / need`.
pub open spec fn fluid_in_min(
    s: Seq<FluidTermV>,
    fl: Map<Seq<char>, FluidV>,
    led: Map<Seq<char>, FluidStoreV>,
    i: int,
    acc: Option<Q>,
) -> Checked<Option<Q>>
    decreases s.len() - i,
{
    if i < 0 || i >= s.len() {
        Checked::Fits(acc)
    } else {
        let t = s[i];
        let g = q_grams_from(fl[t.name], t.amount, t.unit);
        if !q_fits(g) {
            Checked::Overflow
        } else if q_eq(g, q_from(0)) {
            fluid_in_min(s, fl, led, i + 1, acc)
        } else {
            let b = q_div(led[t.name].avail, g);
            if !q_fits(b) {
                Checked::Overflow
            } else {
                fluid_in_min(s, fl, led, i + 1, opt_min(acc, b))
            }
        }
    }
}

/// Bounds from the solid inputs: each count caps the reactivity by the
/// whole-unit quotient `avail / count`.
pub open spec fn solid_in_min(
    s: Seq<SolidTermV>,
    led: Map<Seq<char>, SolidStoreV>,
    i: int,
    acc: Option<Q>,
) -> Checked<Option<Q>>
    decreases s.len() - i,
{
    if i < 0 || i >= s.len() {
        Checked::Fits(acc)
    } else {
        let t = s[i];
        let b = q_from(led[t.name].avail / t.count);
        if !q_fits(b) {
            Checked::Overflow
        } else {
            solid_in_min(s, led, i + 1, opt_min(acc, b))
        }
    }
}

/// Bounds from the fluid outputs: each positive gram make caps the
/// reactivity by `space / make`; unlimited storage imposes no bound.
pub open spec fn fluid_out_min(
    s: Seq<FluidTermV>,
    fl: Map<Seq<char>, FluidV>,
    led: Map<Seq<char>, FluidStoreV>,
    i: int,
    acc: Option<Q>,
) -> Checked<Option<Q>>
    decreases s.len() - i,
{
    if i < 0 || i >= s.len() {
        Checked::Fits(acc)
    } else {
        let t = s[i];
        let g = q_grams_from(fl[t.name], t.amount, t.unit);
        if !q_fits(g) {
            Checked::Overflow
        } else if q_eq(g, q_from(0)) {
            fluid_out_min(s, fl, led, i + 1, acc)
        } else {
            match led[t.name].space {
                Capacity::Unbounded => fluid_out_min(s, fl, led, i + 1, acc),
                Capacity::Bounded(sp) => {
                    let b = q_div(sp, g);
                    if !q_fits(b) {
                        Checked::Overflow
                    } else {
                        fluid_out_min(s, fl, led, i + 1, opt_min(acc, b))
                    }
                },
            }
        }
    }
}

/// Bounds from the solid outputs: bounded storage caps the reactivity by
/// the whole-unit quotient `space / count`.
pub open spec fn solid_out_min(
    s: Seq<SolidTermV>,
    led: Map<Seq<char>, SolidStoreV>,
    i: int,
    acc: Option<Q>,
) -> Checked<Option<Q>>
    decreases s.len() - i,
{
    if i < 0 || i >= s.len() {
        Checked::Fits(acc)
    } else {
        let t = s[i];
        match led[t.name].space {
            Capacity::Unbounded => solid_out_min(s, led, i + 1, acc),
            Capacity::Bounded(sp) => {
                let b = q_from(sp / t.count);
                if !q_fits(b) {
                    Checked::Overflow
                } else {
                    solid_out_min(s, led, i + 1, opt_min(acc, b))
                }
            },
        }
    }
}

/// The power bound: consumption is capped by the power available,
/// production by the power storage left.
pub open spec fn power_min(loss: Q, pa: Q, ps: Capacity<Q>, acc: Option<Q>) -> Checked<
    Option<Q>,
> {
    if q_lt(q_from(0), loss) {
        let b = q_div(pa, loss);
        if !q_fits(b) {
            Checked::Overflow
        } else {
            Checked::Fits(opt_min(acc, b))
        }
    } else if q_lt(loss, q_from(0)) {
        match ps {
            Capacity::Unbounded => Checked::Fits(acc),
            Capacity::Bounded(sp) => {
                let b = q_div(sp, q_neg(loss));
                if !q_fits(b) {
                    Checked::Overflow
                } else {
                    Checked::Fits(opt_min(acc, b))
                }
            },
        }
    } else {
        Checked::Fits(acc)
    }
}

/// The binding constraint: the minimum ratio over every resource class, or
/// `Fits(None)` when nothing bounds the reaction at all.
pub open spec fn reaction_min(r: ReactorV, fl: Map<Seq<char>, FluidV>, c: LedgerV) -> Checked<
    Option<Q>,
> {
    match fluid_in_min(r.fluid_inputs, fl, c.fluids, 0, Option::None) {
        Checked::Overflow => Checked::Overflow,
        Checked::Fits(a1) => match solid_in_min(r.solid_inputs, c.solids, 0, a1) {
            Checked::Overflow => Checked::Overflow,
            Checked::Fits(a2) => match fluid_out_min(r.fluid_outputs, fl, c.fluids, 0, a2) {
                Checked::Overflow => Checked::Overflow,
                Checked::Fits(a3) => match solid_out_min(r.solid_outputs, c.solids, 0, a3) {
                    Checked::Overflow => Checked::Overflow,
                    Checked::Fits(a4) => power_min(
                        r.power_loss,
                        c.power_avail,
                        c.power_space,
                        a4,
                    ),
                },
            },
        },
    }
}

/// Apply the fluid-input deltas, from index `i` on: each input fluid loses
/// `rq * need` grams of availability and, when storage is bounded, gains
/// the same amount of free space.
pub open spec fn apply_fluid_in(
    s: Seq<FluidTermV>,
    fl: Map<Seq<char>, FluidV>,
    rq: Q,
    m: Map<Seq<char>, FluidStoreV>,
    i: int,
) -> Checked<Map<Seq<char>, FluidStoreV>>
    decreases s.len() - i,
{
    if i < 0 || i >= s.len() {
        Checked::Fits(m)
    } else {
        let t = s[i];
        let g = q_grams_from(fl[t.name], t.amount, t.unit);
        if !q_fits(g) {
            Checked::Overflow
        } else {
            let d = q_mul(rq, g);
            if !q_fits(d) {
                Checked::Overflow
            } else {
                let st = m[t.name];
                let av = q_sub(st.avail, d);
                if !q_fits(av) {
                    Checked::Overflow
                } else {
                    match st.space {
                        Capacity::Unbounded => apply_fluid_in(
                            s,
                            fl,
                            rq,
                            m.insert(t.name, FluidStoreV { avail: av, space: Capacity::Unbounded }),
                            i + 1,
                        ),
                        Capacity::Bounded(sp) => {
                            let sp2 = q_add(sp, d);
                            if !q_fits(sp2) {
                                Checked::Overflow
                            } else {
                                apply_fluid_in(
                                    s,
                                    fl,
                                    rq,
                                    m.insert(
                                        t.name,
                                        FluidStoreV { avail: av, space: Capacity::Bounded(sp2) },
                                    ),
                                    i + 1,
                                )
                            }
                        },
                    }
                }
            }
        }
    }
}

/// Apply the fluid-output deltas: each output fluid gains `rq * make`
/// grams of availability and, when storage is bounded, loses the same
/// amount of free space.
pub open spec fn apply_fluid_out(
    s: Seq<FluidTermV>,
    fl: Map<Seq<char>, FluidV>,
    rq: Q,
    m: Map<Seq<char>, FluidStoreV>,
    i: int,
) -> Checked<Map<Seq<char>, FluidStoreV>>
    decreases s.len() - i,
{
    if i < 0 || i >= s.len() {
        Checked::Fits(m)
    } else {
        let t = s[i];
        let g = q_grams_from(fl[t.name], t.amount, t.unit);
        if !q_fits(g) {
            Checked::Overflow
        } else {
            let d = q_mul(rq, g);
            if !q_fits(d) {
                Checked::Overflow
            } else {
                let st = m[t.name];
                let av = q_add(st.avail, d);
                if !q_fits(av) {
                    Checked::Overflow
                } else {
                    match st.space {
                        Capacity::Unbounded => apply_fluid_out(
                            s,
                            fl,
                            rq,
                            m.insert(t.name, FluidStoreV { avail: av, space: Capacity::Unbounded }),
                            i + 1,
                        ),
                        Capacity::Bounded(sp) => {
                            let sp2 = q_sub(sp, d);
                            if !q_fits(sp2) {
                                Checked::Overflow
                            } else {
                                apply_fluid_out(
                                    s,
                                    fl,
                                    rq,
                                    m.insert(
                                        t.name,
                                        FluidStoreV { avail: av, space: Capacity::Bounded(sp2) },
                                    ),
                                    i + 1,
                                )
                            }
                        },
                    }
                }
            }
        }
    }
}

/// Apply the solid-input deltas with whole-number reactivity `n`: each
/// input solid loses `n * count` units of availability and, when storage is
/// bounded, gains the same number of free slots.
pub open spec fn apply_solid_in(
    s: Seq<SolidTermV>,
    n: int,
    m: Map<Seq<char>, SolidStoreV>,
    i: int,
) -> Checked<Map<Seq<char>, SolidStoreV>>
    decreases s.len() - i,
{
    if i < 0 || i >= s.len() {
        Checked::Fits(m)
    } else {
        let t = s[i];
        let d = n * t.count;
        if !(0 <= d <= u64::MAX) {
            Checked::Overflow
        } else {
            let st = m[t.name];
            if st.avail - d < 0 {
                Checked::Overflow
            } else {
                match st.space {
                    Capacity::Unbounded => apply_solid_in(
                        s,
                        n,
                        m.insert(
                            t.name,
                            SolidStoreV { avail: st.avail - d, space: Capacity::Unbounded },
                        ),
                        i + 1,
                    ),
                    Capacity::Bounded(sp) => {
                        if sp + d > u64::MAX {
                            Checked::Overflow
                        } else {
                            apply_solid_in(
                                s,
                                n,
                                m.insert(
                                    t.name,
                                    SolidStoreV {
                                        avail: st.avail - d,
                                        space: Capacity::Bounded(sp + d),
                                    },
                                ),
                                i + 1,
                            )
                        }
                    },
                }
            }
        }
    }
}

/// Apply the solid-output deltas with whole-number reactivity `n`: each
/// output solid gains `n * count` units of availability and, when storage
/// is bounded, loses the same number of free slots.
pub open spec fn apply_solid_out(
    s: Seq<SolidTermV>,
    n: int,
    m: Map<Seq<char>, SolidStoreV>,
    i: int,
) -> Checked<Map<Seq<char>, SolidStoreV>>
    decreases s.len() - i,
{
    if i < 0 || i >= s.len() {
        Checked::Fits(m)
    } else {
        let t = s[i];
        let d = n * t.count;
        if !(0 <= d <= u64::MAX) {
            Checked::Overflow
        } else {
            let st = m[t.name];
            if st.avail + d > u64::MAX {
                Checked::Overflow
            } else {
                match st.space {
                    Capacity::Unbounded => apply_solid_out(
                        s,
                        n,
                        m.insert(
                            t.name,
                            SolidStoreV { avail: st.avail + d, space: Capacity::Unbounded },
                        ),
                        i + 1,
                    ),
                    Capacity::Bounded(sp) => {
                        if sp - d < 0 {
                            Checked::Overflow
                        } else {
                            apply_solid_out(
                                s,
                                n,
                                m.insert(
                                    t.name,
                                    SolidStoreV {
                                        avail: st.avail + d,
                                        space: Capacity::Bounded(sp - d),
                                    },
                                ),
                                i + 1,
                            )
                        }
                    },
                }
            }
        }
    }
}

/// The whole transactional step at reactivity `rq` (with `n` its value as a
/// whole number, used by the solid deltas): every input loses, every output
/// gains, and the power books move by `rq * power_loss`.
pub open spec fn apply_all(r: ReactorV, fl: Map<Seq<char>, FluidV>, rq: Q, n: int, c: LedgerV)
    -> Checked<LedgerV> {
    match apply_fluid_in(r.fluid_inputs, fl, rq, c.fluids, 0) {
        Checked::Overflow => Checked::Overflow,
        Checked::Fits(f1) => match apply_solid_in(r.solid_inputs, n, c.solids, 0) {
            Checked::Overflow => Checked::Overflow,
            Checked::Fits(s1) => match apply_fluid_out(r.fluid_outputs, fl, rq, f1, 0) {
                Checked::Overflow => Checked::Overflow,
                Checked::Fits(f2) => match apply_solid_out(r.solid_outputs, n, s1, 0) {
                    Checked::Overflow => Checked::Overflow,
                    Checked::Fits(s2) => {
                        let pd = q_mul(rq, r.power_loss);
                        if !q_fits(pd) {
                            Checked::Overflow
                        } else {
                            let pa2 = q_sub(c.power_avail, pd);
                            if !q_fits(pa2) {
                                Checked::Overflow
                            } else {
                                match c.power_space {
                                    Capacity::Unbounded => Checked::Fits(
                                        LedgerV {
                                            fluids: f2,
                                            solids: s2,
                                            power_avail: pa2,
                                            power_space: Capacity::Unbounded,
                                            size: c.size,
                                        },
                                    ),
                                    Capacity::Bounded(sp) => {
                                        let sp2 = q_add(sp, pd);
                                        if !q_fits(sp2) {
                                            Checked::Overflow
                                        } else {
                                            Checked::Fits(
                                                LedgerV {
                                                    fluids: f2,
                                                    solids: s2,
                                                    power_avail: pa2,
                                                    power_space: Capacity::Bounded(sp2),
                                                    size: c.size,
                                                },
                                            )
                                        }
                                    },
                                }
                            }
                        }
                    },
                },
            },
        },
    }
}

fn bounds_fluid_in(
    terms: &Vec<FluidTerm>,
    cat: &StringMap<Fluid>,
    led: &StringMap<FluidStore>,
    acc0: Option<Rat>,
) -> (r: Result<Option<Rat>, ReactError>)
    requires
        cat.wf(),
        led.wf(),
        fluid_terms_wf(fterms_view(terms@)),
        fluid_terms_cat_ok(fterms_view(terms@), cat@),
        fluid_refs_ok(fterms_view(terms@), led@),
        opt_fits(acc0),
    ensures
        match r {
            Result::Ok(a) => fluid_in_min(fterms_view(terms@), cat@, led@, 0, opt_rat_view(acc0))
                == Checked::Fits(opt_rat_view(a)) && opt_fits(a),
            Result::Err(e) => fluid_in_min(fterms_view(terms@), cat@, led@, 0, opt_rat_view(acc0))
                is Overflow && e == ReactError::Overflow,
        },
{
    let n = terms.len();
    let mut acc = acc0;
    let mut i: usize = 0;
    while i < n
        invariant
            n == terms@.len(),
            0 <= i <= n,
            cat.wf(),
            led.wf(),
            fluid_terms_wf(fterms_view(terms@)),
            fluid_terms_cat_ok(fterms_view(terms@), cat@),
            fluid_refs_ok(fterms_view(terms@), led@),
            opt_fits(acc),
            fluid_in_min(fterms_view(terms@), cat@, led@, i as int, opt_rat_view(acc))
                == fluid_in_min(fterms_view(terms@), cat@, led@, 0, opt_rat_view(acc0)),
        decreases n - i,
    {
        let t = &terms[i];
        proof {
            assert(fterms_view(terms@)[i as int] == t@);
        }
        let f = match cat.get(&t.name) {
            Option::Some(f) => f,
            Option::None => {
                proof {
                    assert(false);
                }
                return Result::Err(ReactError::Overflow);
            },
        };
        let g = match f.grams_from(&t.amount, t.unit) {
            Option::Some(g) => g,
            Option::None => {
                return Result::Err(ReactError::Overflow);
            },
        };
        if !g.is_zero() {
            let st = match led.get(&t.name) {
                Option::Some(st) => st,
                Option::None => {
                    proof {
                        assert(false);
                    }
                    return Result::Err(ReactError::Overflow);
                },
            };
            let b = match st.avail.checked_div(&g) {
                Option::Some(b) => b,
                Option::None => {
                    return Result::Err(ReactError::Overflow);
                },
            };
            acc = Option::Some(
                match acc {
                    Option::Some(m) => if m.le(&b) {
                        m
                    } else {
                        b
                    },
                    Option::None => b,
                },
            );
        }
        i += 1;
    }
    Result::Ok(acc)
}

fn bounds_solid_in(terms: &Vec<SolidTerm>, led: &StringMap<SolidStore>, acc0: Option<Rat>) -> (r:
    Result<Option<Rat>, ReactError>)
    requires
        led.wf(),
        solid_terms_wf(sterms_view(terms@)),
        solid_refs_ok(sterms_view(terms@), led@),
        opt_fits(acc0),
    ensures
        match r {
            Result::Ok(a) => solid_in_min(sterms_view(terms@), led@, 0, opt_rat_view(acc0))
                == Checked::Fits(opt_rat_view(a)) && opt_fits(a),
            Result::Err(e) => solid_in_min(sterms_view(terms@), led@, 0, opt_rat_view(acc0))
                is Overflow && e == ReactError::Overflow,
        },
{
    let n = terms.len();
    let mut acc = acc0;
    let mut i: usize = 0;
    while i < n
        invariant
            n == terms@.len(),
            0 <= i <= n,
            led.wf(),
            solid_terms_wf(sterms_view(terms@)),
            solid_refs_ok(sterms_view(terms@), led@),
            opt_fits(acc),
            solid_in_min(sterms_view(terms@), led@, i as int, opt_rat_view(acc)) == solid_in_min(
                sterms_view(terms@),
                led@,
                0,
                opt_rat_view(acc0),
            ),
        decreases n - i,
    {
        let t = &terms[i];
        proof {
            assert(sterms_view(terms@)[i as int] == t@);
        }
        let st = match led.get(&t.name) {
            Option::Some(st) => st,
            Option::None => {
                proof {
                    assert(false);
                }
                return Result::Err(ReactError::Overflow);
            },
        };
        let qd: u64 = st.avail / t.count;
        if qd > (i64::MAX as u64) {
            return Result::Err(ReactError::Overflow);
        }
        let b = Rat::from_i64(qd as i64);
        acc = Option::Some(
            match acc {
                Option::Some(m) => if m.le(&b) {
                    m
                } else {
                    b
                },
                Option::None => b,
            },
        );
        i += 1;
    }
    Result::Ok(acc)
}

fn bounds_fluid_out(
    terms: &Vec<FluidTerm>,
    cat: &StringMap<Fluid>,
    led: &StringMap<FluidStore>,
    acc0: Option<Rat>,
) -> (r: Result<Option<Rat>, ReactError>)
    requires
        cat.wf(),
        led.wf(),
        fluid_terms_wf(fterms_view(terms@)),
        fluid_terms_cat_ok(fterms_view(terms@), cat@),
        fluid_refs_ok(fterms_view(terms@), led@),
        opt_fits(acc0),
    ensures
        match r {
            Result::Ok(a) => fluid_out_min(fterms_view(terms@), cat@, led@, 0, opt_rat_view(acc0))
                == Checked::Fits(opt_rat_view(a)) && opt_fits(a),
            Result::Err(e) => fluid_out_min(fterms_view(terms@), cat@, led@, 0, opt_rat_view(acc0))
                is Overflow && e == ReactError::Overflow,
        },
{
    let n = terms.len();
    let mut acc = acc0;
    let mut i: usize = 0;
    while i < n
        invariant
            n == terms@.len(),
            0 <= i <= n,
            cat.wf(),
            led.wf(),
            fluid_terms_wf(fterms_view(terms@)),
            fluid_terms_cat_ok(fterms_view(terms@), cat@),
            fluid_refs_ok(fterms_view(terms@), led@),
            opt_fits(acc),
            fluid_out_min(fterms_view(terms@), cat@, led@, i as int, opt_rat_view(acc))
                == fluid_out_min(fterms_view(terms@), cat@, led@, 0, opt_rat_view(acc0)),
        decreases n - i,
    {
        let t = &terms[i];
        proof {
            assert(fterms_view(terms@)[i as int] == t@);
        }
        let f = match cat.get(&t.name) {
            Option::Some(f) => f,
            Option::None => {
                proof {
                    assert(false);
                }
                return Result::Err(ReactError::Overflow);
            },
        };
        let g = match f.grams_from(&t.amount, t.unit) {
            Option::Some(g) => g,
            Option::None => {
                return Result::Err(ReactError::Overflow);
            },
        };
        if !g.is_zero() {
            let st = match led.get(&t.name) {
                Option::Some(st) => st,
                Option::None => {
                    proof {
                        assert(false);
                    }
                    return Result::Err(ReactError::Overflow);
                },
            };
            match st.space {
                Capacity::Unbounded => {},
                Capacity::Bounded(sp) => {
                    let b = match sp.checked_div(&g) {
                        Option::Some(b) => b,
                        Option::None => {
                            return Result::Err(ReactError::Overflow);
                        },
                    };
                    acc = Option::Some(
                        match acc {
                            Option::Some(m) => if m.le(&b) {
                                m
                            } else {
                                b
                            },
                            Option::None => b,
                        },
                    );
                },
            }
        }
        i += 1;
    }
    Result::Ok(acc)
}

fn bounds_solid_out(terms: &Vec<SolidTerm>, led: &StringMap<SolidStore>, acc0: Option<Rat>) -> (r:
    Result<Option<Rat>, ReactError>)
    requires
        led.wf(),
        solid_terms_wf(sterms_view(terms@)),
        solid_refs_ok(sterms_view(terms@), led@),
        opt_fits(acc0),
    ensures
        match r {
            Result::Ok(a) => solid_out_min(sterms_view(terms@), led@, 0, opt_rat_view(acc0))
                == Checked::Fits(opt_rat_view(a)) && opt_fits(a),
            Result::Err(e) => solid_out_min(sterms_view(terms@), led@, 0, opt_rat_view(acc0))
                is Overflow && e == ReactError::Overflow,
        },
{
    let n = terms.len();
    let mut acc = acc0;
    let mut i: usize = 0;
    while i < n
        invariant
            n == terms@.len(),
            0 <= i <= n,
            led.wf(),
            solid_terms_wf(sterms_view(terms@)),
            solid_refs_ok(sterms_view(terms@), led@),
            opt_fits(acc),
            solid_out_min(sterms_view(terms@), led@, i as int, opt_rat_view(acc)) == solid_out_min(
                sterms_view(terms@),
                led@,
                0,
                opt_rat_view(acc0),
            ),
        decreases n - i,
    {
        let t = &terms[i];
        proof {
            assert(sterms_view(terms@)[i as int] == t@);
        }
        let st = match led.get(&t.name) {
            Option::Some(st) => st,
            Option::None => {
                proof {
                    assert(false);
                }
                return Result::Err(ReactError::Overflow);
            },
        };
        match st.space {
            Capacity::Unbounded => {},
            Capacity::Bounded(sp) => {
                let qd: u64 = sp / t.count;
                if qd > (i64::MAX as u64) {
                    return Result::Err(ReactError::Overflow);
                }
                let b = Rat::from_i64(qd as i64);
                acc = Option::Some(
                    match acc {
                        Option::Some(m) => if m.le(&b) {
                            m
                        } else {
                            b
                        },
                        Option::None => b,
                    },
                );
            },
        }
        i += 1;
    }
    Result::Ok(acc)
}

fn bounds_power(loss: &Rat, pa: &Rat, ps: Capacity<Rat>, acc0: Option<Rat>) -> (r: Result<
    Option<Rat>,
    ReactError,
>)
    requires
        q_fits(loss@),
        opt_fits(acc0),
    ensures
        match r {
            Result::Ok(a) => power_min(loss@, pa@, ps@, opt_rat_view(acc0)) == Checked::Fits(
                opt_rat_view(a),
            ) && opt_fits(a),
            Result::Err(e) => power_min(loss@, pa@, ps@, opt_rat_view(acc0)) is Overflow && e
                == ReactError::Overflow,
        },
{
    if loss.is_pos() {
        let b = match pa.checked_div(loss) {
            Option::Some(b) => b,
            Option::None => {
                return Result::Err(ReactError::Overflow);
            },
        };
        Result::Ok(
            Option::Some(
                match acc0 {
                    Option::Some(m) => if m.le(&b) {
                        m
                    } else {
                        b
                    },
                    Option::None => b,
                },
            ),
        )
    } else if loss.is_neg() {
        match ps {
            Capacity::Unbounded => Result::Ok(acc0),
            Capacity::Bounded(sp) => {
                let nl = match loss.checked_neg() {
                    Option::Some(v) => v,
                    Option::None => {
                        proof {
                            assert(false);
                        }
                        return Result::Err(ReactError::Overflow);
                    },
                };
                let b = match sp.checked_div(&nl) {
                    Option::Some(b) => b,
                    Option::None => {
                        return Result::Err(ReactError::Overflow);
                    },
                };
                Result::Ok(
                    Option::Some(
                        match acc0 {
                            Option::Some(m) => if m.le(&b) {
                                m
                            } else {
                                b
                            },
                            Option::None => b,
                        },
                    ),
                )
            },
        }
    } else {
        Result::Ok(acc0)
    }
}

proof fn lemma_mul_nonneg(x: int, y: int)
    by (nonlinear_arith)
    requires
        0 <= x,
        0 <= y,
    ensures
        0 <= x * y,
{
}

fn apply_fluid_in_exec(
    terms: &Vec<FluidTerm>,
    cat: &StringMap<Fluid>,
    rq: &Rat,
    led: &mut StringMap<FluidStore>,
) -> (r: Result<(), ReactError>)
    requires
        cat.wf(),
        old(led).wf(),
        fluid_terms_wf(fterms_view(terms@)),
        fluid_terms_cat_ok(fterms_view(terms@), cat@),
        fluid_refs_ok(fterms_view(terms@), old(led)@),
    ensures
        final(led).wf(),
        final(led)@.dom() == old(led)@.dom(),
        match r {
            Result::Ok(_) => apply_fluid_in(fterms_view(terms@), cat@, rq@, old(led)@, 0)
                == Checked::Fits(final(led)@),
            Result::Err(e) => apply_fluid_in(fterms_view(terms@), cat@, rq@, old(led)@, 0)
                is Overflow && e == ReactError::Overflow,
        },
{
    let n = terms.len();
    let mut i: usize = 0;
    while i < n
        invariant
            n == terms@.len(),
            0 <= i <= n,
            cat.wf(),
            led.wf(),
            fluid_terms_wf(fterms_view(terms@)),
            fluid_terms_cat_ok(fterms_view(terms@), cat@),
            led@.dom() == old(led)@.dom(),
            fluid_refs_ok(fterms_view(terms@), led@),
            apply_fluid_in(fterms_view(terms@), cat@, rq@, led@, i as int) == apply_fluid_in(
                fterms_view(terms@),
                cat@,
                rq@,
                old(led)@,
                0,
            ),
        decreases n - i,
    {
        let t = &terms[i];
        proof {
            assert(fterms_view(terms@)[i as int] == t@);
        }
        let f = match cat.get(&t.name) {
            Option::Some(f) => f,
            Option::None => {
                proof {
                    assert(false);
                }
                return Result::Err(ReactError::Overflow);
            },
        };
        let g = match f.grams_from(&t.amount, t.unit) {
            Option::Some(g) => g,
            Option::None => {
                return Result::Err(ReactError::Overflow);
            },
        };
        let d = match rq.checked_mul(&g) {
            Option::Some(d) => d,
            Option::None => {
                return Result::Err(ReactError::Overflow);
            },
        };
        let st = match led.get(&t.name) {
            Option::Some(st) => st,
            Option::None => {
                proof {
                    assert(false);
                }
                return Result::Err(ReactError::Overflow);
            },
        };
        let av = match st.avail.checked_sub(&d) {
            Option::Some(v) => v,
            Option::None => {
                return Result::Err(ReactError::Overflow);
            },
        };
        let newst = match st.space {
            Capacity::Unbounded => FluidStore { avail: av, space: Capacity::Unbounded },
            Capacity::Bounded(sp) => {
                let sp2 = match sp.checked_add(&d) {
                    Option::Some(v) => v,
                    Option::None => {
                        return Result::Err(ReactError::Overflow);
                    },
                };
                FluidStore { avail: av, space: Capacity::Bounded(sp2) }
            },
        };
        proof {
            assert(led@.insert(t.name@, newst@).dom() =~= led@.dom());
        }
        led.set(&t.name, newst);
        i += 1;
    }
    Result::Ok(())
}

fn apply_fluid_out_exec(
    terms: &Vec<FluidTerm>,
    cat: &StringMap<Fluid>,
    rq: &Rat,
    led: &mut StringMap<FluidStore>,
) -> (r: Result<(), ReactError>)
    requires
        cat.wf(),
        old(led).wf(),
        fluid_terms_wf(fterms_view(terms@)),
        fluid_terms_cat_ok(fterms_view(terms@), cat@),
        fluid_refs_ok(fterms_view(terms@), old(led)@),
    ensures
        final(led).wf(),
        final(led)@.dom() == old(led)@.dom(),
        match r {
            Result::Ok(_) => apply_fluid_out(fterms_view(terms@), cat@, rq@, old(led)@, 0)
                == Checked::Fits(final(led)@),
            Result::Err(e) => apply_fluid_out(fterms_view(terms@), cat@, rq@, old(led)@, 0)
                is Overflow && e == ReactError::Overflow,
        },
{
    let n = terms.len();
    let mut i: usize = 0;
    while i < n
        invariant
            n == terms@.len(),
            0 <= i <= n,
            cat.wf(),
            led.wf(),
            fluid_terms_wf(fterms_view(terms@)),
            fluid_terms_cat_ok(fterms_view(terms@), cat@),
            led@.dom() == old(led)@.dom(),
            fluid_refs_ok(fterms_view(terms@), led@),
            apply_fluid_out(fterms_view(terms@), cat@, rq@, led@, i as int) == apply_fluid_out(
                fterms_view(terms@),
                cat@,
                rq@,
                old(led)@,
                0,
            ),
        decreases n - i,
    {
        let t = &terms[i];
        proof {
            assert(fterms_view(terms@)[i as int] == t@);
        }
        let f = match cat.get(&t.name) {
            Option::Some(f) => f,
            Option::None => {
                proof {
                    assert(false);
                }
                return Result::Err(ReactError::Overflow);
            },
        };
        let g = match f.grams_from(&t.amount, t.unit) {
            Option::Some(g) => g,
            Option::None => {
                return Result::Err(ReactError::Overflow);
            },
        };
        let d = match rq.checked_mul(&g) {
            Option::Some(d) => d,
            Option::None => {
                return Result::Err(ReactError::Overflow);
            },
        };
        let st = match led.get(&t.name) {
            Option::Some(st) => st,
            Option::None => {
                proof {
                    assert(false);
                }
                return Result::Err(ReactError::Overflow);
            },
        };
        let av = match st.avail.checked_add(&d) {
            Option::Some(v) => v,
            Option::None => {
                return Result::Err(ReactError::Overflow);
            },
        };
        let newst = match st.space {
            Capacity::Unbounded => FluidStore { avail: av, space: Capacity::Unbounded },
            Capacity::Bounded(sp) => {
                let sp2 = match sp.checked_sub(&d) {
                    Option::Some(v) => v,
                    Option::None => {
                        return Result::Err(ReactError::Overflow);
                    },
                };
                FluidStore { avail: av, space: Capacity::Bounded(sp2) }
            },
        };
        proof {
            assert(led@.insert(t.name@, newst@).dom() =~= led@.dom());
        }
        led.set(&t.name, newst);
        i += 1;
    }
    Result::Ok(())
}

fn apply_solid_in_exec(terms: &Vec<SolidTerm>, nd: u64, led: &mut StringMap<SolidStore>) -> (r:
    Result<(), ReactError>)
    requires
        old(led).wf(),
        solid_terms_wf(sterms_view(terms@)),
        solid_refs_ok(sterms_view(terms@), old(led)@),
    ensures
        final(led).wf(),
        final(led)@.dom() == old(led)@.dom(),
        match r {
            Result::Ok(_) => apply_solid_in(sterms_view(terms@), nd as int, old(led)@, 0)
                == Checked::Fits(final(led)@),
            Result::Err(e) => apply_solid_in(sterms_view(terms@), nd as int, old(led)@, 0)
                is Overflow && e == ReactError::Overflow,
        },
{
    let n = terms.len();
    let mut i: usize = 0;
    while i < n
        invariant
            n == terms@.len(),
            0 <= i <= n,
            led.wf(),
            solid_terms_wf(sterms_view(terms@)),
            led@.dom() == old(led)@.dom(),
            solid_refs_ok(sterms_view(terms@), led@),
            apply_solid_in(sterms_view(terms@), nd as int, led@, i as int) == apply_solid_in(
                sterms_view(terms@),
                nd as int,
                old(led)@,
                0,
            ),
        decreases n - i,
    {
        let t = &terms[i];
        proof {
            assert(sterms_view(terms@)[i as int] == t@);
            lemma_mul_nonneg(nd as int, t.count as int);
        }
        let d = match nd.checked_mul(t.count) {
            Option::Some(d) => d,
            Option::None => {
                return Result::Err(ReactError::Overflow);
            },
        };
        let st = match led.get(&t.name) {
            Option::Some(st) => st,
            Option::None => {
                proof {
                    assert(false);
                }
                return Result::Err(ReactError::Overflow);
            },
        };
        let av = match st.avail.checked_sub(d) {
            Option::Some(v) => v,
            Option::None => {
                return Result::Err(ReactError::Overflow);
            },
        };
        let newst = match st.space {
            Capacity::Unbounded => SolidStore { avail: av, space: Capacity::Unbounded },
            Capacity::Bounded(sp) => {
                let sp2 = match sp.checked_add(d) {
                    Option::Some(v) => v,
                    Option::None => {
                        return Result::Err(ReactError::Overflow);
                    },
                };
                SolidStore { avail: av, space: Capacity::Bounded(sp2) }
            },
        };
        proof {
            assert(led@.insert(t.name@, newst@).dom() =~= led@.dom());
        }
        led.set(&t.name, newst);
        i += 1;
    }
    Result::Ok(())
}

fn apply_solid_out_exec(terms: &Vec<SolidTerm>, nd: u64, led: &mut StringMap<SolidStore>) -> (r:
    Result<(), ReactError>)
    requires
        old(led).wf(),
        solid_terms_wf(sterms_view(terms@)),
        solid_refs_ok(sterms_view(terms@), old(led)@),
    ensures
        final(led).wf(),
        final(led)@.dom() == old(led)@.dom(),
        match r {
            Result::Ok(_) => apply_solid_out(sterms_view(terms@), nd as int, old(led)@, 0)
                == Checked::Fits(final(led)@),
            Result::Err(e) => apply_solid_out(sterms_view(terms@), nd as int, old(led)@, 0)
                is Overflow && e == ReactError::Overflow,
        },
{
    let n = terms.len();
    let mut i: usize = 0;
    while i < n
        invariant
            n == terms@.len(),
            0 <= i <= n,
            led.wf(),
            solid_terms_wf(sterms_view(terms@)),
            led@.dom() == old(led)@.dom(),
            solid_refs_ok(sterms_view(terms@), led@),
            apply_solid_out(sterms_view(terms@), nd as int, led@, i as int) == apply_solid_out(
                sterms_view(terms@),
                nd as int,
                old(led)@,
                0,
            ),
        decreases n - i,
    {
        let t = &terms[i];
        proof {
            assert(sterms_view(terms@)[i as int] == t@);
            lemma_mul_nonneg(nd as int, t.count as int);
        }
        let d = match nd.checked_mul(t.count) {
            Option::Some(d) => d,
            Option::None => {
                return Result::Err(ReactError::Overflow);
            },
        };
        let st = match led.get(&t.name) {
            Option::Some(st) => st,
            Option::None => {
                proof {
                    assert(false);
                }
                return Result::Err(ReactError::Overflow);
            },
        };
        let av = match st.avail.checked_add(d) {
            Option::Some(v) => v,
            Option::None => {
                return Result::Err(ReactError::Overflow);
            },
        };
        let newst = match st.space {
            Capacity::Unbounded => SolidStore { avail: av, space: Capacity::Unbounded },
            Capacity::Bounded(sp) => {
                let sp2 = match sp.checked_sub(d) {
                    Option::Some(v) => v,
                    Option::None => {
                        return Result::Err(ReactError::Overflow);
                    },
                };
                SolidStore { avail: av, space: Capacity::Bounded(sp2) }
            },
        };
        proof {
            assert(led@.insert(t.name@, newst@).dom() =~= led@.dom());
        }
        led.set(&t.name, newst);
        i += 1;
    }
    Result::Ok(())
}

impl Reactor {
    fn refs_ok_exec(&self, ctx: &ReactorContext) -> (b: bool)
        requires
            ctx.tables_wf(),
        ensures
            b == refs_present(self@, ctx@),
    {
        let n1 = self.fluid_inputs.len();
        let mut i: usize = 0;
        while i < n1
            invariant
                n1 == self.fluid_inputs@.len(),
                0 <= i <= n1,
                ctx.tables_wf(),
                forall|j: int|
                    0 <= j < i ==> ctx.fluid_store@.contains_key(
                        #[trigger] fterms_view(self.fluid_inputs@)[j].name,
                    ),
            decreases n1 - i,
        {
            let t = &self.fluid_inputs[i];
            proof {
                assert(fterms_view(self.fluid_inputs@)[i as int] == t@);
            }
            if ctx.fluid_store.get(&t.name).is_none() {
                proof {
                    assert(!ctx@.fluids.contains_key(self@.fluid_inputs[i as int].name));
                }
                return false;
            }
            i += 1;
        }
        let n2 = self.solid_inputs.len();
        let mut i: usize = 0;
        while i < n2
            invariant
                n2 == self.solid_inputs@.len(),
                0 <= i <= n2,
                ctx.tables_wf(),
                forall|j: int|
                    0 <= j < i ==> ctx.solid_store@.contains_key(
                        #[trigger] sterms_view(self.solid_inputs@)[j].name,
                    ),
                fluid_refs_ok(self@.fluid_inputs, ctx@.fluids),
            decreases n2 - i,
        {
            let t = &self.solid_inputs[i];
            proof {
                assert(sterms_view(self.solid_inputs@)[i as int] == t@);
            }
            if ctx.solid_store.get(&t.name).is_none() {
                proof {
                    assert(!ctx@.solids.contains_key(self@.solid_inputs[i as int].name));
                }
                return false;
            }
            i += 1;
        }
        let n3 = self.fluid_outputs.len();
        let mut i: usize = 0;
        while i < n3
            invariant
                n3 == self.fluid_outputs@.len(),
                0 <= i <= n3,
                ctx.tables_wf(),
                forall|j: int|
                    0 <= j < i ==> ctx.fluid_store@.contains_key(
                        #[trigger] fterms_view(self.fluid_outputs@)[j].name,
                    ),
                fluid_refs_ok(self@.fluid_inputs, ctx@.fluids),
                solid_refs_ok(self@.solid_inputs, ctx@.solids),
            decreases n3 - i,
        {
            let t = &self.fluid_outputs[i];
            proof {
                assert(fterms_view(self.fluid_outputs@)[i as int] == t@);
            }
            if ctx.fluid_store.get(&t.name).is_none() {
                proof {
                    assert(!ctx@.fluids.contains_key(self@.fluid_outputs[i as int].name));
                }
                return false;
            }
            i += 1;
        }
        let n4 = self.solid_outputs.len();
        let mut i: usize = 0;
        while i < n4
            invariant
                n4 == self.solid_outputs@.len(),
                0 <= i <= n4,
                ctx.tables_wf(),
                forall|j: int|
                    0 <= j < i ==> ctx.solid_store@.contains_key(
                        #[trigger] sterms_view(self.solid_outputs@)[j].name,
                    ),
                fluid_refs_ok(self@.fluid_inputs, ctx@.fluids),
                solid_refs_ok(self@.solid_inputs, ctx@.solids),
                fluid_refs_ok(self@.fluid_outputs, ctx@.fluids),
            decreases n4 - i,
        {
            let t = &self.solid_outputs[i];
            proof {
                assert(sterms_view(self.solid_outputs@)[i as int] == t@);
            }
            if ctx.solid_store.get(&t.name).is_none() {
                proof {
                    assert(!ctx@.solids.contains_key(self@.solid_outputs[i as int].name));
                }
                return false;
            }
            i += 1;
        }
        true
    }
}

impl Reactor {
    /// One reaction step: compute the binding reactivity and apply it.
    ///
    /// The outcome is pinned exactly: a recipe naming an unknown resource
    /// returns zero and leaves the ledger untouched; a recipe with no
    /// bounding constraint at all fails with `InfiniteReactivity`; an exact
    /// intermediate value that does not fit the machine representation
    /// fails with `Overflow`, the ledger untouched; otherwise the result is
    /// the minimum ratio over all resources (floored to a whole number when
    /// any solid takes part), and, when positive, the ledger moves to
    /// exactly the state `apply_all` describes.
    pub fn react(&self, fluids: &StringMap<Fluid>, ctx: &mut ReactorContext) -> (r: Result<
        Rat,
        ReactError,
    >)
        requires
            self.wf(),
            fluids.wf(),
            self.catalog_ok(fluids@),
            old(ctx).tables_wf(),
        ensures
            final(ctx).tables_wf(),
            !refs_present(self@, old(ctx)@) ==> (r matches Result::Ok(v) && v@ == q_from(0))
                && *final(ctx) == *old(ctx),
            refs_present(self@, old(ctx)@) ==> match reaction_min(self@, fluids@, old(ctx)@) {
                Checked::Overflow => (r matches Result::Err(e) && e == ReactError::Overflow)
                    && *final(ctx) == *old(ctx),
                Checked::Fits(ob) => match ob {
                    Option::None => (r matches Result::Err(e) && e
                        == ReactError::InfiniteReactivity) && *final(ctx) == *old(ctx),
                    Option::Some(m) => {
                        let m2 = if uses_discrete(self@) {
                            q_from(q_floor(m))
                        } else {
                            m
                        };
                        if q_le(m2, q_from(0)) {
                            (r matches Result::Ok(v) && v@ == q_from(0)) && *final(ctx) == *old(ctx)
                        } else {
                            match apply_all(self@, fluids@, m2, q_floor(m2), old(ctx)@) {
                                Checked::Overflow => (r matches Result::Err(e) && e
                                    == ReactError::Overflow) && *final(ctx) == *old(ctx),
                                Checked::Fits(c2) => (r matches Result::Ok(v) && v@ == m2)
                                    && final(ctx)@ == c2,
                            }
                        }
                    },
                },
            },
            r matches Result::Ok(v) ==> q_wf(v@) && q_fits(v@) && q_le(q_from(0), v@),
            r matches Result::Ok(v) ==> (uses_discrete(self@) ==> q_is_whole(v@)),
            r matches Result::Err(_) ==> *final(ctx) == *old(ctx),
            (r matches Result::Ok(v) && q_eq(v@, q_from(0)) && refs_present(self@, old(ctx)@))
                ==> (reaction_min(self@, fluids@, old(ctx)@) matches Checked::Fits(ob)
                && ob matches Option::Some(m) && q_lt(m, q_from(1))),
    {
        let zero = Rat::from_i64(0);
        if !self.refs_ok_exec(ctx) {
            return Result::Ok(zero);
        }
        let a1 = match bounds_fluid_in(&self.fluid_inputs, fluids, &ctx.fluid_store, Option::None) {
            Result::Ok(a) => a,
            Result::Err(e) => {
                return Result::Err(e);
            },
        };
        let a2 = match bounds_solid_in(&self.solid_inputs, &ctx.solid_store, a1) {
            Result::Ok(a) => a,
            Result::Err(e) => {
                return Result::Err(e);
            },
        };
        let a3 = match bounds_fluid_out(&self.fluid_outputs, fluids, &ctx.fluid_store, a2) {
            Result::Ok(a) => a,
            Result::Err(e) => {
                return Result::Err(e);
            },
        };
        let a4 = match bounds_solid_out(&self.solid_outputs, &ctx.solid_store, a3) {
            Result::Ok(a) => a,
            Result::Err(e) => {
                return Result::Err(e);
            },
        };
        let am = match bounds_power(&self.power_loss, &ctx.power_avail, ctx.power_space, a4) {
            Result::Ok(a) => a,
            Result::Err(e) => {
                return Result::Err(e);
            },
        };
        let m = match am {
            Option::Some(m) => m,
            Option::None => {
                return Result::Err(ReactError::InfiniteReactivity);
            },
        };
        proof {
            crate::rational::lemma_q_floor(m@);
        }
        let discrete = self.solid_inputs.len() > 0 || self.solid_outputs.len() > 0;
        if m.is_neg() {
            return Result::Ok(zero);
        }
        let rq: Rat;
        let nd: u64;
        if discrete {
            let nf = m.floor_nonneg();
            if nf == 0 {
                return Result::Ok(zero);
            }
            rq = Rat::from_i64(nf as i64);
            nd = nf;
        } else {
            if m.is_zero() {
                return Result::Ok(zero);
            }
            rq = m;
            nd = 0;
        }
        let mut fstore = ctx.fluid_store.duplicate();
        let mut sstore = ctx.solid_store.duplicate();
        match apply_fluid_in_exec(&self.fluid_inputs, fluids, &rq, &mut fstore) {
            Result::Ok(_) => {},
            Result::Err(e) => {
                return Result::Err(e);
            },
        }
        match apply_solid_in_exec(&self.solid_inputs, nd, &mut sstore) {
            Result::Ok(_) => {},
            Result::Err(e) => {
                return Result::Err(e);
            },
        }
        match apply_fluid_out_exec(&self.fluid_outputs, fluids, &rq, &mut fstore) {
            Result::Ok(_) => {},
            Result::Err(e) => {
                return Result::Err(e);
            },
        }
        match apply_solid_out_exec(&self.solid_outputs, nd, &mut sstore) {
            Result::Ok(_) => {},
            Result::Err(e) => {
                return Result::Err(e);
            },
        }
        let pd = match rq.checked_mul(&self.power_loss) {
            Option::Some(v) => v,
            Option::None => {
                return Result::Err(ReactError::Overflow);
            },
        };
        let pa2 = match ctx.power_avail.checked_sub(&pd) {
            Option::Some(v) => v,
            Option::None => {
                return Result::Err(ReactError::Overflow);
            },
        };
        let ps2 = match ctx.power_space {
            Capacity::Unbounded => Capacity::Unbounded,
            Capacity::Bounded(s) => match s.checked_add(&pd) {
                Option::Some(v) => Capacity::Bounded(v),
                Option::None => {
                    return Result::Err(ReactError::Overflow);
                },
            },
        };
        ctx.fluid_store = fstore;
        ctx.solid_store = sstore;
        ctx.power_avail = pa2;
        ctx.power_space = ps2;
        Result::Ok(rq)
    }
}

impl ReactorContext {
    /// One reaction step of `reactor` against this ledger.
    pub fn react(&mut self, reactor: &Reactor, fluids: &StringMap<Fluid>) -> (r: Result<
        Rat,
        ReactError,
    >)
        requires
            reactor.wf(),
            fluids.wf(),
            reactor.catalog_ok(fluids@),
            old(self).tables_wf(),
        ensures
            final(self).tables_wf(),
            !refs_present(reactor@, old(self)@) ==> (r matches Result::Ok(v) && v@ == q_from(0))
                && *final(self) == *old(self),
            refs_present(reactor@, old(self)@) ==> match reaction_min(
                reactor@,
                fluids@,
                old(self)@,
            ) {
                Checked::Overflow => (r matches Result::Err(e) && e == ReactError::Overflow)
                    && *final(self) == *old(self),
                Checked::Fits(ob) => match ob {
                    Option::None => (r matches Result::Err(e) && e
                        == ReactError::InfiniteReactivity) && *final(self) == *old(self),
                    Option::Some(m) => {
                        let m2 = if uses_discrete(reactor@) {
                            q_from(q_floor(m))
                        } else {
                            m
                        };
                        if q_le(m2, q_from(0)) {
                            (r matches Result::Ok(v) && v@ == q_from(0)) && *final(self) == *old(self)
                        } else {
                            match apply_all(reactor@, fluids@, m2, q_floor(m2), old(self)@) {
                                Checked::Overflow => (r matches Result::Err(e) && e
                                    == ReactError::Overflow) && *final(self) == *old(self),
                                Checked::Fits(c2) => (r matches Result::Ok(v) && v@ == m2)
                                    && final(self)@ == c2,
                            }
                        }
                    },
                },
            },
            r matches Result::Ok(v) ==> q_wf(v@) && q_fits(v@) && q_le(q_from(0), v@),
            r matches Result::Ok(v) ==> (uses_discrete(reactor@) ==> q_is_whole(v@)),
            r matches Result::Err(_) ==> *final(self) == *old(self),
    {
        reactor.react(fluids, self)
    }
}

/// A reactor's scale factor is a non-negative rational, or unlimited.
pub open spec fn size_wf(s: Capacity<Q>) -> bool {
    match s {
        Capacity::Bounded(v) => q_wf(v) && q_fits(v) && q_le(q_from(0), v),
        Capacity::Unbounded => true,
    }
}

/// Ledger bootstrap for fluid terms: nothing available yet, and storage for
/// `size` recipe-extents of each amount (unlimited when the size is).
pub open spec fn build_fluid(
    s: Seq<FluidTermV>,
    fl: Map<Seq<char>, FluidV>,
    size: Capacity<Q>,
    m: Map<Seq<char>, FluidStoreV>,
    i: int,
) -> Checked<Map<Seq<char>, FluidStoreV>>
    decreases s.len() - i,
{
    if i < 0 || i >= s.len() {
        Checked::Fits(m)
    } else {
        let t = s[i];
        match size {
            Capacity::Unbounded => build_fluid(
                s,
                fl,
                size,
                m.insert(t.name, FluidStoreV { avail: q_from(0), space: Capacity::Unbounded }),
                i + 1,
            ),
            Capacity::Bounded(sz) => {
                let amt = q_mul(sz, t.amount);
                if !q_fits(amt) {
                    Checked::Overflow
                } else {
                    let g = q_grams_from(fl[t.name], amt, t.unit);
                    if !q_fits(g) {
                        Checked::Overflow
                    } else {
                        build_fluid(
                            s,
                            fl,
                            size,
                            m.insert(
                                t.name,
                                FluidStoreV { avail: q_from(0), space: Capacity::Bounded(g) },
                            ),
                            i + 1,
                        )
                    }
                }
            },
        }
    }
}

/// Ledger bootstrap for solid terms: nothing available yet, and storage for
/// `floor(size)` recipe-extents of each count (unlimited when the size is).
pub open spec fn build_solid(
    s: Seq<SolidTermV>,
    size: Capacity<Q>,
    m: Map<Seq<char>, SolidStoreV>,
    i: int,
) -> Checked<Map<Seq<char>, SolidStoreV>>
    decreases s.len() - i,
{
    if i < 0 || i >= s.len() {
        Checked::Fits(m)
    } else {
        let t = s[i];
        match size {
            Capacity::Unbounded => build_solid(
                s,
                size,
                m.insert(t.name, SolidStoreV { avail: 0, space: Capacity::Unbounded }),
                i + 1,
            ),
            Capacity::Bounded(sz) => {
                let sp = q_floor(sz) * t.count;
                if !(0 <= sp <= u64::MAX) {
                    Checked::Overflow
                } else {
                    build_solid(
                        s,
                        size,
                        m.insert(t.name, SolidStoreV { avail: 0, space: Capacity::Bounded(sp) }),
                        i + 1,
                    )
                }
            },
        }
    }
}

/// The whole ledger a fresh reactor instance starts from: empty tanks,
/// storage sized from the instance scale, no power yet, and power storage
/// for `size * |power_loss|` joules.
pub open spec fn build_ledger(r: ReactorV, fl: Map<Seq<char>, FluidV>, size: Capacity<Q>)
    -> Checked<LedgerV> {
    match build_fluid(r.fluid_inputs, fl, size, Map::empty(), 0) {
        Checked::Overflow => Checked::Overflow,
        Checked::Fits(f1) => match build_solid(r.solid_inputs, size, Map::empty(), 0) {
            Checked::Overflow => Checked::Overflow,
            Checked::Fits(s1) => match build_fluid(r.fluid_outputs, fl, size, f1, 0) {
                Checked::Overflow => Checked::Overflow,
                Checked::Fits(f2) => match build_solid(r.solid_outputs, size, s1, 0) {
                    Checked::Overflow => Checked::Overflow,
                    Checked::Fits(s2) => match size {
                        Capacity::Unbounded => Checked::Fits(
                            LedgerV {
                                fluids: f2,
                                solids: s2,
                                power_avail: q_from(0),
                                power_space: Capacity::Unbounded,
                                size,
                            },
                        ),
                        Capacity::Bounded(sz) => {
                            let sp = q_mul(sz, q_abs(r.power_loss));
                            if !q_fits(sp) {
                                Checked::Overflow
                            } else {
                                Checked::Fits(
                                    LedgerV {
                                        fluids: f2,
                                        solids: s2,
                                        power_avail: q_from(0),
                                        power_space: Capacity::Bounded(sp),
                                        size,
                                    },
                                )
                            }
                        },
                    },
                },
            },
        },
    }
}

fn build_fluid_exec(
    terms: &Vec<FluidTerm>,
    cat: &StringMap<Fluid>,
    size: Capacity<Rat>,
    led: &mut StringMap<FluidStore>,
) -> (r: Result<(), ReactError>)
    requires
        cat.wf(),
        old(led).wf(),
        fluid_terms_wf(fterms_view(terms@)),
        fluid_terms_cat_ok(fterms_view(terms@), cat@),
        size_wf(size@),
    ensures
        final(led).wf(),
        match r {
            Result::Ok(_) => build_fluid(fterms_view(terms@), cat@, size@, old(led)@, 0)
                == Checked::Fits(final(led)@),
            Result::Err(_) => build_fluid(fterms_view(terms@), cat@, size@, old(led)@, 0)
                is Overflow,
        },
{
    let zero = Rat::from_i64(0);
    let n = terms.len();
    let mut i: usize = 0;
    while i < n
        invariant
            n == terms@.len(),
            0 <= i <= n,
            cat.wf(),
            led.wf(),
            fluid_terms_wf(fterms_view(terms@)),
            fluid_terms_cat_ok(fterms_view(terms@), cat@),
            size_wf(size@),
            zero@ == q_from(0),
            build_fluid(fterms_view(terms@), cat@, size@, led@, i as int) == build_fluid(
                fterms_view(terms@),
                cat@,
                size@,
                old(led)@,
                0,
            ),
        decreases n - i,
    {
        let t = &terms[i];
        proof {
            assert(fterms_view(terms@)[i as int] == t@);
        }
        match size {
            Capacity::Unbounded => {
                led.set(&t.name, FluidStore { avail: zero, space: Capacity::Unbounded });
            },
            Capacity::Bounded(sz) => {
                let amt = match sz.checked_mul(&t.amount) {
                    Option::Some(v) => v,
                    Option::None => {
                        return Result::Err(ReactError::Overflow);
                    },
                };
                let f = match cat.get(&t.name) {
                    Option::Some(f) => f,
                    Option::None => {
                        proof {
                            assert(false);
                        }
                        return Result::Err(ReactError::Overflow);
                    },
                };
                let g = match f.grams_from(&amt, t.unit) {
                    Option::Some(g) => g,
                    Option::None => {
                        return Result::Err(ReactError::Overflow);
                    },
                };
                led.set(&t.name, FluidStore { avail: zero, space: Capacity::Bounded(g) });
            },
        }
        i += 1;
    }
    Result::Ok(())
}

fn build_solid_exec(terms: &Vec<SolidTerm>, size: Capacity<Rat>, led: &mut StringMap<SolidStore>)
    -> (r: Result<(), ReactError>)
    requires
        old(led).wf(),
        solid_terms_wf(sterms_view(terms@)),
        size_wf(size@),
    ensures
        final(led).wf(),
        match r {
            Result::Ok(_) => build_solid(sterms_view(terms@), size@, old(led)@, 0)
                == Checked::Fits(final(led)@),
            Result::Err(_) => build_solid(sterms_view(terms@), size@, old(led)@, 0) is Overflow,
        },
{
    let n = terms.len();
    let mut i: usize = 0;
    while i < n
        invariant
            n == terms@.len(),
            0 <= i <= n,
            led.wf(),
            solid_terms_wf(sterms_view(terms@)),
            size_wf(size@),
            build_solid(sterms_view(terms@), size@, led@, i as int) == build_solid(
                sterms_view(terms@),
                size@,
                old(led)@,
                0,
            ),
        decreases n - i,
    {
        let t = &terms[i];
        proof {
            assert(sterms_view(terms@)[i as int] == t@);
        }
        match size {
            Capacity::Unbounded => {
                led.set(&t.name, SolidStore { avail: 0, space: Capacity::Unbounded });
            },
            Capacity::Bounded(sz) => {
                let fs = sz.floor_nonneg();
                proof {
                    lemma_mul_nonneg(fs as int, t.count as int);
                }
                let sp = match fs.checked_mul(t.count) {
                    Option::Some(v) => v,
                    Option::None => {
                        return Result::Err(ReactError::Overflow);
                    },
                };
                led.set(&t.name, SolidStore { avail: 0, space: Capacity::Bounded(sp) });
            },
        }
        i += 1;
    }
    Result::Ok(())
}

impl ReactorContext {
    /// A fresh ledger for one reactor instance of scale `size`: every
    /// referenced resource starts empty, with storage sized from the
    /// recipe; `None` exactly when an exact storage amount does not fit the
    /// machine representation.
    pub fn new(reactor: &Reactor, size: Capacity<Rat>, fluids: &StringMap<Fluid>) -> (r: Option<
        ReactorContext,
    >)
        requires
            reactor.wf(),
            fluids.wf(),
            reactor.catalog_ok(fluids@),
            size_wf(size@),
        ensures
            match build_ledger(reactor@, fluids@, size@) {
                Checked::Overflow => r is None,
                Checked::Fits(c) => r matches Option::Some(ctx) && ctx@ == c && ctx.tables_wf(),
            },
    {
        let mut fstore: StringMap<FluidStore> = StringMap::new();
        let mut sstore: StringMap<SolidStore> = StringMap::new();
        match build_fluid_exec(&reactor.fluid_inputs, fluids, size, &mut fstore) {
            Result::Ok(_) => {},
            Result::Err(_) => {
                return Option::None;
            },
        }
        match build_solid_exec(&reactor.solid_inputs, size, &mut sstore) {
            Result::Ok(_) => {},
            Result::Err(_) => {
                return Option::None;
            },
        }
        match build_fluid_exec(&reactor.fluid_outputs, fluids, size, &mut fstore) {
            Result::Ok(_) => {},
            Result::Err(_) => {
                return Option::None;
            },
        }
        match build_solid_exec(&reactor.solid_outputs, size, &mut sstore) {
            Result::Ok(_) => {},
            Result::Err(_) => {
                return Option::None;
            },
        }
        let pzero = Rat::from_i64(0);
        let ps = match size {
            Capacity::Unbounded => Capacity::Unbounded,
            Capacity::Bounded(sz) => {
                let al = if reactor.power_loss.is_neg() {
                    match reactor.power_loss.checked_neg() {
                        Option::Some(v) => v,
                        Option::None => {
                            proof {
                                assert(false);
                            }
                            return Option::None;
                        },
                    }
                } else {
                    reactor.power_loss
                };
                let sp = match sz.checked_mul(&al) {
                    Option::Some(v) => v,
                    Option::None => {
                        return Option::None;
                    },
                };
                Capacity::Bounded(sp)
            },
        };
        Option::Some(
            ReactorContext {
                fluid_store: fstore,
                solid_store: sstore,
                power_avail: pzero,
                power_space: ps,
                size,
            },
        )
    }
}

fn fluid_terms_check(terms: &Vec<FluidTerm>) -> (b: bool)
    ensures
        b == (fluid_terms_wf(fterms_view(terms@)) && fluid_names_distinct(fterms_view(terms@))),
{
    let n = terms.len();
    let mut i: usize = 0;
    while i < n
        invariant
            n == terms@.len(),
            0 <= i <= n,
            forall|j: int| 0 <= j < i ==> fluid_term_wf(#[trigger] fterms_view(terms@)[j]),
        decreases n - i,
    {
        let t = &terms[i];
        proof {
            assert(fterms_view(terms@)[i as int] == t@);
        }
        if !t.amount.fits() || t.amount.is_neg() {
            proof {
                assert(!fluid_term_wf(fterms_view(terms@)[i as int]));
            }
            return false;
        }
        i += 1;
    }
    let mut i: usize = 0;
    while i < n
        invariant
            n == terms@.len(),
            0 <= i <= n,
            fluid_terms_wf(fterms_view(terms@)),
            forall|a: int, c: int| #![auto]
                0 <= a < c < n && a < i ==> fterms_view(terms@)[a].name != fterms_view(
                    terms@,
                )[c].name,
        decreases n - i,
    {
        let mut j: usize = i + 1;
        while j < n
            invariant
                n == terms@.len(),
                0 <= i < j <= n,
                fluid_terms_wf(fterms_view(terms@)),
                forall|a: int, c: int| #![auto]
                    0 <= a < c < n && a < i ==> fterms_view(terms@)[a].name != fterms_view(
                        terms@,
                    )[c].name,
                forall|c: int| #![auto]
                    i < c < j ==> fterms_view(terms@)[i as int].name != fterms_view(
                        terms@,
                    )[c].name,
            decreases n - j,
        {
            if terms[i].name == terms[j].name {
                proof {
                    assert(fterms_view(terms@)[i as int].name == fterms_view(
                        terms@,
                    )[j as int].name);
                }
                return false;
            }
            j += 1;
        }
        i += 1;
    }
    true
}

fn solid_terms_check(terms: &Vec<SolidTerm>) -> (b: bool)
    ensures
        b == (solid_terms_wf(sterms_view(terms@)) && solid_names_distinct(sterms_view(terms@))),
{
    let n = terms.len();
    let mut i: usize = 0;
    while i < n
        invariant
            n == terms@.len(),
            0 <= i <= n,
            forall|j: int| 0 <= j < i ==> solid_term_wf(#[trigger] sterms_view(terms@)[j]),
        decreases n - i,
    {
        let t = &terms[i];
        proof {
            assert(sterms_view(terms@)[i as int] == t@);
        }
        if t.count == 0 {
            proof {
                assert(!solid_term_wf(sterms_view(terms@)[i as int]));
            }
            return false;
        }
        i += 1;
    }
    let mut i: usize = 0;
    while i < n
        invariant
            n == terms@.len(),
            0 <= i <= n,
            solid_terms_wf(sterms_view(terms@)),
            forall|a: int, c: int| #![auto]
                0 <= a < c < n && a < i ==> sterms_view(terms@)[a].name != sterms_view(
                    terms@,
                )[c].name,
        decreases n - i,
    {
        let mut j: usize = i + 1;
        while j < n
            invariant
                n == terms@.len(),
                0 <= i < j <= n,
                solid_terms_wf(sterms_view(terms@)),
                forall|a: int, c: int| #![auto]
                    0 <= a < c < n && a < i ==> sterms_view(terms@)[a].name != sterms_view(
                        terms@,
                    )[c].name,
                forall|c: int| #![auto]
                    i < c < j ==> sterms_view(terms@)[i as int].name != sterms_view(
                        terms@,
                    )[c].name,
            decreases n - j,
        {
            if terms[i].name == terms[j].name {
                proof {
                    assert(sterms_view(terms@)[i as int].name == sterms_view(
                        terms@,
                    )[j as int].name);
                }
                return false;
            }
            j += 1;
        }
        i += 1;
    }
    true
}

fn fluid_terms_catalog_check(terms: &Vec<FluidTerm>, fluids: &StringMap<Fluid>) -> (b: bool)
    requires
        fluids.wf(),
    ensures
        b == fluid_terms_cat_ok(fterms_view(terms@), fluids@),
{
    let n = terms.len();
    let mut i: usize = 0;
    while i < n
        invariant
            n == terms@.len(),
            0 <= i <= n,
            fluids.wf(),
            forall|j: int| #![auto]
                0 <= j < i ==> fluids@.contains_key(fterms_view(terms@)[j].name) && fluid_wf(
                    fluids@[fterms_view(terms@)[j].name],
                ),
        decreases n - i,
    {
        let t = &terms[i];
        proof {
            assert(fterms_view(terms@)[i as int] == t@);
        }
        match fluids.get(&t.name) {
            Option::None => {
                proof {
                    assert(!fluids@.contains_key(fterms_view(terms@)[i as int].name));
                }
                return false;
            },
            Option::Some(f) => {
                if !(f.density.fits() && f.mol_mass.fits() && f.density.is_pos()
                    && f.mol_mass.is_pos()) {
                    proof {
                        assert(!fluid_wf(fluids@[fterms_view(terms@)[i as int].name]));
                    }
                    return false;
                }
            },
        }
        i += 1;
    }
    true
}

impl Reactor {
    /// Decide `wf` at run time, so a caller outside the proof system can
    /// validate a freshly loaded recipe before reacting with it.
    pub fn check_wf(&self) -> (b: bool)
        ensures
            b == self.wf(),
    {
        fluid_terms_check(&self.fluid_inputs) && fluid_terms_check(&self.fluid_outputs)
            && solid_terms_check(&self.solid_inputs) && solid_terms_check(&self.solid_outputs)
            && self.power_loss.fits()
    }

    /// Decide `catalog_ok` at run time: every fluid the recipe names must
    /// resolve in the catalog to positive physical constants.  Together
    /// with [`Reactor::check_wf`] this lets a loader fail fast on a
    /// malformed definition instead of meeting it inside the engine.
    pub fn check_catalog(&self, fluids: &StringMap<Fluid>) -> (b: bool)
        requires
            fluids.wf(),
        ensures
            b == self.catalog_ok(fluids@),
    {
        fluid_terms_catalog_check(&self.fluid_inputs, fluids) && fluid_terms_catalog_check(
            &self.fluid_outputs,
            fluids,
        )
    }
}

/// A fluid ledger entry has well-formed rationals on both sides.
pub open spec fn fluid_store_q_wf(st: FluidStoreV) -> bool {
    &&& q_wf(st.avail)
    &&& match st.space {
        Capacity::Bounded(x) => q_wf(x),
        Capacity::Unbounded => true,
    }
}

pub open spec fn fluid_map_q_wf(m: Map<Seq<char>, FluidStoreV>) -> bool {
    forall|k: Seq<char>| m.contains_key(k) ==> fluid_store_q_wf(#[trigger] m[k])
}

/// One fluid entry's books balance between two ledger states: bounded
/// storage keeps `avail + space` the same rational, unlimited storage stays
/// unlimited.
pub open spec fn fluid_entry_conserved(a: FluidStoreV, b: FluidStoreV) -> bool {
    match a.space {
        Capacity::Bounded(x) => match b.space {
            Capacity::Bounded(y) => q_eq(q_add(a.avail, x), q_add(b.avail, y)),
            Capacity::Unbounded => false,
        },
        Capacity::Unbounded => b.space is Unbounded,
    }
}

/// One solid entry's books balance exactly, in whole units.
pub open spec fn solid_entry_conserved(a: SolidStoreV, b: SolidStoreV) -> bool {
    match a.space {
        Capacity::Bounded(x) => match b.space {
            Capacity::Bounded(y) => a.avail + x == b.avail + y,
            Capacity::Unbounded => false,
        },
        Capacity::Unbounded => b.space is Unbounded,
    }
}

proof fn lemma_fluid_entry_conserved_trans(a: FluidStoreV, b: FluidStoreV, c: FluidStoreV)
    requires
        fluid_store_q_wf(a),
        fluid_store_q_wf(b),
        fluid_store_q_wf(c),
        fluid_entry_conserved(a, b),
        fluid_entry_conserved(b, c),
    ensures
        fluid_entry_conserved(a, c),
{
    match a.space {
        Capacity::Bounded(x) => match b.space {
            Capacity::Bounded(y) => match c.space {
                Capacity::Bounded(z) => {
                    lemma_q_add_wf(a.avail, x);
                    lemma_q_add_wf(b.avail, y);
                    lemma_q_add_wf(c.avail, z);
                    lemma_q_eq_trans(q_add(a.avail, x), q_add(b.avail, y), q_add(c.avail, z));
                },
                Capacity::Unbounded => {},
            },
            Capacity::Unbounded => {},
        },
        Capacity::Unbounded => {},
    }
}

proof fn lemma_apply_fluid_conserves(
    s: Seq<FluidTermV>,
    fl: Map<Seq<char>, FluidV>,
    rq: Q,
    m: Map<Seq<char>, FluidStoreV>,
    i: int,
    out: bool,
)
    requires
        fluid_map_q_wf(m),
        fluid_refs_ok(s, m),
    ensures
        match (if out {
            apply_fluid_out(s, fl, rq, m, i)
        } else {
            apply_fluid_in(s, fl, rq, m, i)
        }) {
            Checked::Fits(m2) => fluid_map_q_wf(m2) && m2.dom() == m.dom() && (forall|
                k: Seq<char>,
            | #![auto]
                m.contains_key(k) ==> fluid_entry_conserved(m[k], m2[k])),
            Checked::Overflow => true,
        },
    decreases s.len() - i,
{
    let res = if out {
        apply_fluid_out(s, fl, rq, m, i)
    } else {
        apply_fluid_in(s, fl, rq, m, i)
    };
    if i < 0 || i >= s.len() {
        assert forall|k: Seq<char>| #![auto] m.contains_key(k) implies fluid_entry_conserved(
            m[k],
            m[k],
        ) by {}
    } else {
        let t = s[i];
        let g = q_grams_from(fl[t.name], t.amount, t.unit);
        if q_fits(g) {
            let d = q_mul(rq, g);
            if q_fits(d) {
                let st = m[t.name];
                let av = if out {
                    q_add(st.avail, d)
                } else {
                    q_sub(st.avail, d)
                };
                if q_fits(av) {
                    let sp2 = match st.space {
                        Capacity::Bounded(sp) => Capacity::Bounded(
                            if out {
                                q_sub(sp, d)
                            } else {
                                q_add(sp, d)
                            },
                        ),
                        Capacity::Unbounded => Capacity::Unbounded,
                    };
                    let fits2 = match sp2 {
                        Capacity::Bounded(x) => q_fits(x),
                        Capacity::Unbounded => true,
                    };
                    if fits2 {
                        let st2 = FluidStoreV { avail: av, space: sp2 };
                        let mi = m.insert(t.name, st2);
                        assert(m.contains_key(t.name));
                        assert(mi.dom() =~= m.dom());
                        assert(fluid_store_q_wf(st2));
                        assert forall|k: Seq<char>| mi.contains_key(k) implies fluid_store_q_wf(
                            #[trigger] mi[k],
                        ) by {
                            if k != t.name {
                                assert(m.contains_key(k));
                                assert(mi[k] == m[k]);
                            }
                        }
                        lemma_apply_fluid_conserves(s, fl, rq, mi, i + 1, out);
                        let res2 = if out {
                            apply_fluid_out(s, fl, rq, mi, i + 1)
                        } else {
                            apply_fluid_in(s, fl, rq, mi, i + 1)
                        };
                        assert(res == res2);
                        match res2 {
                            Checked::Fits(m2) => {
                                assert(fluid_entry_conserved(st, st2)) by {
                                    match st.space {
                                        Capacity::Bounded(sp) => {
                                            lemma_q_sum_shift(st.avail, sp, d);
                                        },
                                        Capacity::Unbounded => {},
                                    }
                                }
                                assert forall|k: Seq<char>| #![auto] m.contains_key(k) implies
                                    fluid_entry_conserved(m[k], m2[k]) by {
                                    if k == t.name {
                                        lemma_fluid_entry_conserved_trans(st, st2, m2[k]);
                                    } else {
                                        assert(mi[k] == m[k]);
                                    }
                                }
                            },
                            Checked::Overflow => {},
                        }
                    }
                }
            }
        }
    }
}

proof fn lemma_apply_solid_conserves(
    s: Seq<SolidTermV>,
    n: int,
    m: Map<Seq<char>, SolidStoreV>,
    i: int,
    out: bool,
)
    requires
        solid_refs_ok(s, m),
    ensures
        match (if out {
            apply_solid_out(s, n, m, i)
        } else {
            apply_solid_in(s, n, m, i)
        }) {
            Checked::Fits(m2) => m2.dom() == m.dom() && (forall|k: Seq<char>| #![auto]
                m.contains_key(k) ==> solid_entry_conserved(m[k], m2[k])),
            Checked::Overflow => true,
        },
    decreases s.len() - i,
{
    let res = if out {
        apply_solid_out(s, n, m, i)
    } else {
        apply_solid_in(s, n, m, i)
    };
    if i < 0 || i >= s.len() {
        assert forall|k: Seq<char>| #![auto] m.contains_key(k) implies solid_entry_conserved(
            m[k],
            m[k],
        ) by {}
    } else {
        let t = s[i];
        let d = n * t.count;
        if 0 <= d <= u64::MAX {
            let st = m[t.name];
            let av = if out {
                st.avail + d
            } else {
                st.avail - d
            };
            let av_ok = if out {
                av <= u64::MAX
            } else {
                av >= 0
            };
            if av_ok {
                let sp2 = match st.space {
                    Capacity::Bounded(sp) => Capacity::Bounded(
                        if out {
                            sp - d
                        } else {
                            sp + d
                        },
                    ),
                    Capacity::Unbounded => Capacity::Unbounded,
                };
                let sp_ok = match sp2 {
                    Capacity::Bounded(x) => if out {
                        x >= 0
                    } else {
                        x <= u64::MAX
                    },
                    Capacity::Unbounded => true,
                };
                if sp_ok {
                    let st2 = SolidStoreV { avail: av, space: sp2 };
                    let mi = m.insert(t.name, st2);
                    assert(m.contains_key(t.name));
                    assert(mi.dom() =~= m.dom());
                    lemma_apply_solid_conserves(s, n, mi, i + 1, out);
                    let res2 = if out {
                        apply_solid_out(s, n, mi, i + 1)
                    } else {
                        apply_solid_in(s, n, mi, i + 1)
                    };
                    assert(res == res2);
                    match res2 {
                        Checked::Fits(m2) => {
                            assert forall|k: Seq<char>| #![auto] m.contains_key(k) implies
                                solid_entry_conserved(m[k], m2[k]) by {
                                if k != t.name {
                                    assert(mi[k] == m[k]);
                                }
                            }
                        },
                        Checked::Overflow => {},
                    }
                }
            }
        }
    }
}

/// Conservation: a successful reaction step moves quantity between a
/// resource's availability and its free storage but never changes their
/// sum — exactly as rationals for every fluid and for the power books,
/// exactly as whole units for every solid — and touches no other key.
/// `react` pins its final ledger to `apply_all`, so this holds of every
/// reaction that returns a positive reactivity.
pub proof fn lemma_apply_all_conserves(
    r: ReactorV,
    fl: Map<Seq<char>, FluidV>,
    rq: Q,
    n: int,
    c: LedgerV,
)
    requires
        fluid_map_q_wf(c.fluids),
        q_wf(c.power_avail),
        match c.power_space {
            Capacity::Bounded(x) => q_wf(x),
            Capacity::Unbounded => true,
        },
        refs_present(r, c),
    ensures
        match apply_all(r, fl, rq, n, c) {
            Checked::Fits(c2) => {
                &&& c2.fluids.dom() == c.fluids.dom()
                &&& c2.solids.dom() == c.solids.dom()
                &&& (forall|k: Seq<char>| #![auto]
                    c.fluids.contains_key(k) ==> fluid_entry_conserved(c.fluids[k], c2.fluids[k]))
                &&& (forall|k: Seq<char>| #![auto]
                    c.solids.contains_key(k) ==> solid_entry_conserved(c.solids[k], c2.solids[k]))
                &&& match c.power_space {
                    Capacity::Bounded(x) => match c2.power_space {
                        Capacity::Bounded(y) => q_eq(
                            q_add(c.power_avail, x),
                            q_add(c2.power_avail, y),
                        ),
                        Capacity::Unbounded => false,
                    },
                    Capacity::Unbounded => c2.power_space is Unbounded,
                }
            },
            Checked::Overflow => true,
        },
{
    lemma_apply_fluid_conserves(r.fluid_inputs, fl, rq, c.fluids, 0, false);
    match apply_fluid_in(r.fluid_inputs, fl, rq, c.fluids, 0) {
        Checked::Overflow => {},
        Checked::Fits(f1) => {
            lemma_apply_solid_conserves(r.solid_inputs, n, c.solids, 0, false);
            match apply_solid_in(r.solid_inputs, n, c.solids, 0) {
                Checked::Overflow => {},
                Checked::Fits(s1) => {
                    assert(fluid_refs_ok(r.fluid_outputs, f1));
                    lemma_apply_fluid_conserves(r.fluid_outputs, fl, rq, f1, 0, true);
                    match apply_fluid_out(r.fluid_outputs, fl, rq, f1, 0) {
                        Checked::Overflow => {},
                        Checked::Fits(f2) => {
                            assert(solid_refs_ok(r.solid_outputs, s1));
                            lemma_apply_solid_conserves(r.solid_outputs, n, s1, 0, true);
                            match apply_solid_out(r.solid_outputs, n, s1, 0) {
                                Checked::Overflow => {},
                                Checked::Fits(s2) => {
                                    assert forall|k: Seq<char>| #![auto] c.fluids.contains_key(
                                        k,
                                    ) implies fluid_entry_conserved(c.fluids[k], f2[k]) by {
                                        lemma_fluid_entry_conserved_trans(
                                            c.fluids[k],
                                            f1[k],
                                            f2[k],
                                        );
                                    }
                                    let pd = q_mul(rq, r.power_loss);
                                    if q_fits(pd) {
                                        let pa2 = q_sub(c.power_avail, pd);
                                        if q_fits(pa2) {
                                            match c.power_space {
                                                Capacity::Unbounded => {},
                                                Capacity::Bounded(x) => {
                                                    lemma_q_sum_shift(c.power_avail, x, pd);
                                                },
                                            }
                                        }
                                    }
                                },
                            }
                        },
                    }
                },
            }
        },
    }
}

/// Whether the `j`-th fluid input imposes a bound (a zero gram need does
/// not), and that bound: `avail / need`.
pub open spec fn fluid_in_has_bound(s: Seq<FluidTermV>, fl: Map<Seq<char>, FluidV>, j: int)
    -> bool {
    !q_eq(q_grams_from(fl[s[j].name], s[j].amount, s[j].unit), q_from(0))
}

pub open spec fn fluid_in_bound(
    s: Seq<FluidTermV>,
    fl: Map<Seq<char>, FluidV>,
    led: Map<Seq<char>, FluidStoreV>,
    j: int,
) -> Q {
    q_div(led[s[j].name].avail, q_grams_from(fl[s[j].name], s[j].amount, s[j].unit))
}

/// Whether the `j`-th fluid output imposes a bound (it needs a positive
/// gram make and bounded storage), and that bound: `space / make`.
pub open spec fn fluid_out_has_bound(
    s: Seq<FluidTermV>,
    fl: Map<Seq<char>, FluidV>,
    led: Map<Seq<char>, FluidStoreV>,
    j: int,
) -> bool {
    &&& !q_eq(q_grams_from(fl[s[j].name], s[j].amount, s[j].unit), q_from(0))
    &&& led[s[j].name].space is Bounded
}

pub open spec fn fluid_out_bound(
    s: Seq<FluidTermV>,
    fl: Map<Seq<char>, FluidV>,
    led: Map<Seq<char>, FluidStoreV>,
    j: int,
) -> Q {
    match led[s[j].name].space {
        Capacity::Bounded(sp) => q_div(sp, q_grams_from(fl[s[j].name], s[j].amount, s[j].unit)),
        Capacity::Unbounded => q_from(0),
    }
}

/// The `j`-th solid input's bound: the whole-unit quotient `avail / count`.
pub open spec fn solid_in_bound(s: Seq<SolidTermV>, led: Map<Seq<char>, SolidStoreV>, j: int)
    -> Q {
    q_from(led[s[j].name].avail / s[j].count)
}

/// Whether the `j`-th solid output imposes a bound (bounded storage), and
/// that bound: the whole-unit quotient `space / count`.
pub open spec fn solid_out_has_bound(s: Seq<SolidTermV>, led: Map<Seq<char>, SolidStoreV>, j: int)
    -> bool {
    led[s[j].name].space is Bounded
}

pub open spec fn solid_out_bound(s: Seq<SolidTermV>, led: Map<Seq<char>, SolidStoreV>, j: int)
    -> Q {
    match led[s[j].name].space {
        Capacity::Bounded(sp) => q_from(sp / s[j].count),
        Capacity::Unbounded => q_from(0),
    }
}

/// Whether the power term imposes a bound, and that bound: consumption is
/// capped by the power available, production by the storage left.
pub open spec fn power_has_bound(loss: Q, ps: Capacity<Q>) -> bool {
    ||| q_lt(q_from(0), loss)
    ||| (q_lt(loss, q_from(0)) && ps is Bounded)
}

pub open spec fn power_bound(loss: Q, pa: Q, ps: Capacity<Q>) -> Q {
    if q_lt(q_from(0), loss) {
        q_div(pa, loss)
    } else {
        match ps {
            Capacity::Bounded(sp) => q_div(sp, q_neg(loss)),
            Capacity::Unbounded => q_from(0),
        }
    }
}

pub open spec fn opt_q_wf(acc: Option<Q>) -> bool {
    match acc {
        Option::Some(a) => q_wf(a),
        Option::None => true,
    }
}

proof fn lemma_fluid_in_min_bounds(
    s: Seq<FluidTermV>,
    fl: Map<Seq<char>, FluidV>,
    led: Map<Seq<char>, FluidStoreV>,
    i: int,
    acc: Option<Q>,
)
    requires
        0 <= i,
        opt_q_wf(acc),
    ensures
        match fluid_in_min(s, fl, led, i, acc) {
            Checked::Fits(res) => match res {
                Option::Some(mv) => {
                    &&& q_wf(mv)
                    &&& (match acc {
                        Option::Some(a) => q_le(mv, a),
                        Option::None => true,
                    })
                    &&& (forall|j: int| #![auto]
                        i <= j < s.len() && fluid_in_has_bound(s, fl, j) ==> q_le(
                            mv,
                            fluid_in_bound(s, fl, led, j),
                        ) && q_fits(fluid_in_bound(s, fl, led, j)))
                    &&& (acc == Option::Some(mv) || exists|j: int| #![auto]
                        i <= j < s.len() && fluid_in_has_bound(s, fl, j) && mv == fluid_in_bound(
                            s,
                            fl,
                            led,
                            j,
                        ))
                },
                Option::None => acc is None && (forall|j: int| #![auto]
                    i <= j < s.len() ==> !fluid_in_has_bound(s, fl, j)),
            },
            Checked::Overflow => true,
        },
    decreases s.len() - i,
{
    if i < 0 || i >= s.len() {
    } else {
        let t = s[i];
        let g = q_grams_from(fl[t.name], t.amount, t.unit);
        if q_fits(g) {
            if q_eq(g, q_from(0)) {
                lemma_fluid_in_min_bounds(s, fl, led, i + 1, acc);
            } else {
                let b = q_div(led[t.name].avail, g);
                if q_fits(b) {
                    let acc2 = opt_min(acc, b);
                    match acc {
                        Option::None => {},
                        Option::Some(a) => {
                            lemma_q_min_props(a, b);
                        },
                    }
                    lemma_fluid_in_min_bounds(s, fl, led, i + 1, acc2);
                    match fluid_in_min(s, fl, led, i + 1, acc2) {
                        Checked::Fits(res2) => match res2 {
                            Option::Some(mv) => {
                                match acc {
                                    Option::None => {
                                        assert(fluid_in_has_bound(s, fl, i) && b == fluid_in_bound(
                                            s,
                                            fl,
                                            led,
                                            i,
                                        ));
                                    },
                                    Option::Some(a) => {
                                        let mn = q_min(a, b);
                                        lemma_q_le_trans(mv, mn, a);
                                        lemma_q_le_trans(mv, mn, b);
                                        assert(fluid_in_has_bound(s, fl, i) && b == fluid_in_bound(
                                            s,
                                            fl,
                                            led,
                                            i,
                                        ));
                                    },
                                }
                            },
                            Option::None => {},
                        },
                        Checked::Overflow => {},
                    }
                }
            }
        }
    }
}

proof fn lemma_fluid_out_min_bounds(
    s: Seq<FluidTermV>,
    fl: Map<Seq<char>, FluidV>,
    led: Map<Seq<char>, FluidStoreV>,
    i: int,
    acc: Option<Q>,
)
    requires
        0 <= i,
        opt_q_wf(acc),
    ensures
        match fluid_out_min(s, fl, led, i, acc) {
            Checked::Fits(res) => match res {
                Option::Some(mv) => {
                    &&& q_wf(mv)
                    &&& (match acc {
                        Option::Some(a) => q_le(mv, a),
                        Option::None => true,
                    })
                    &&& (forall|j: int| #![auto]
                        i <= j < s.len() && fluid_out_has_bound(s, fl, led, j) ==> q_le(
                            mv,
                            fluid_out_bound(s, fl, led, j),
                        ) && q_fits(fluid_out_bound(s, fl, led, j)))
                    &&& (acc == Option::Some(mv) || exists|j: int| #![auto]
                        i <= j < s.len() && fluid_out_has_bound(s, fl, led, j) && mv
                            == fluid_out_bound(s, fl, led, j))
                },
                Option::None => acc is None && (forall|j: int| #![auto]
                    i <= j < s.len() ==> !fluid_out_has_bound(s, fl, led, j)),
            },
            Checked::Overflow => true,
        },
    decreases s.len() - i,
{
    if i < 0 || i >= s.len() {
    } else {
        let t = s[i];
        let g = q_grams_from(fl[t.name], t.amount, t.unit);
        if q_fits(g) {
            if q_eq(g, q_from(0)) {
                lemma_fluid_out_min_bounds(s, fl, led, i + 1, acc);
            } else {
                match led[t.name].space {
                    Capacity::Unbounded => {
                        lemma_fluid_out_min_bounds(s, fl, led, i + 1, acc);
                    },
                    Capacity::Bounded(sp) => {
                        let b = q_div(sp, g);
                        if q_fits(b) {
                            let acc2 = opt_min(acc, b);
                            match acc {
                                Option::None => {},
                                Option::Some(a) => {
                                    lemma_q_min_props(a, b);
                                },
                            }
                            lemma_fluid_out_min_bounds(s, fl, led, i + 1, acc2);
                            match fluid_out_min(s, fl, led, i + 1, acc2) {
                                Checked::Fits(res2) => match res2 {
                                    Option::Some(mv) => {
                                        match acc {
                                            Option::None => {
                                                assert(fluid_out_has_bound(s, fl, led, i) && b
                                                    == fluid_out_bound(s, fl, led, i));
                                            },
                                            Option::Some(a) => {
                                                let mn = q_min(a, b);
                                                lemma_q_le_trans(mv, mn, a);
                                                lemma_q_le_trans(mv, mn, b);
                                                assert(fluid_out_has_bound(s, fl, led, i) && b
                                                    == fluid_out_bound(s, fl, led, i));
                                            },
                                        }
                                    },
                                    Option::None => {},
                                },
                                Checked::Overflow => {},
                            }
                        }
                    },
                }
            }
        }
    }
}

proof fn lemma_solid_in_min_bounds(
    s: Seq<SolidTermV>,
    led: Map<Seq<char>, SolidStoreV>,
    i: int,
    acc: Option<Q>,
)
    requires
        0 <= i,
        opt_q_wf(acc),
    ensures
        match solid_in_min(s, led, i, acc) {
            Checked::Fits(res) => match res {
                Option::Some(mv) => {
                    &&& q_wf(mv)
                    &&& (match acc {
                        Option::Some(a) => q_le(mv, a),
                        Option::None => true,
                    })
                    &&& (forall|j: int| #![auto]
                        i <= j < s.len() ==> q_le(mv, solid_in_bound(s, led, j)) && q_fits(
                            solid_in_bound(s, led, j),
                        ))
                    &&& (acc == Option::Some(mv) || exists|j: int| #![auto]
                        i <= j < s.len() && mv == solid_in_bound(s, led, j))
                },
                Option::None => acc is None && s.len() <= i,
            },
            Checked::Overflow => true,
        },
    decreases s.len() - i,
{
    if i < 0 || i >= s.len() {
    } else {
        let t = s[i];
        let b = q_from(led[t.name].avail / t.count);
        if q_fits(b) {
            let acc2 = opt_min(acc, b);
            match acc {
                Option::None => {},
                Option::Some(a) => {
                    lemma_q_min_props(a, b);
                },
            }
            lemma_solid_in_min_bounds(s, led, i + 1, acc2);
            match solid_in_min(s, led, i + 1, acc2) {
                Checked::Fits(res2) => match res2 {
                    Option::Some(mv) => {
                        match acc {
                            Option::None => {
                                assert(b == solid_in_bound(s, led, i));
                            },
                            Option::Some(a) => {
                                let mn = q_min(a, b);
                                lemma_q_le_trans(mv, mn, a);
                                lemma_q_le_trans(mv, mn, b);
                                assert(b == solid_in_bound(s, led, i));
                            },
                        }
                    },
                    Option::None => {},
                },
                Checked::Overflow => {},
            }
        }
    }
}

proof fn lemma_solid_out_min_bounds(
    s: Seq<SolidTermV>,
    led: Map<Seq<char>, SolidStoreV>,
    i: int,
    acc: Option<Q>,
)
    requires
        0 <= i,
        opt_q_wf(acc),
    ensures
        match solid_out_min(s, led, i, acc) {
            Checked::Fits(res) => match res {
                Option::Some(mv) => {
                    &&& q_wf(mv)
                    &&& (match acc {
                        Option::Some(a) => q_le(mv, a),
                        Option::None => true,
                    })
                    &&& (forall|j: int| #![auto]
                        i <= j < s.len() && solid_out_has_bound(s, led, j) ==> q_le(
                            mv,
                            solid_out_bound(s, led, j),
                        ) && q_fits(solid_out_bound(s, led, j)))
                    &&& (acc == Option::Some(mv) || exists|j: int| #![auto]
                        i <= j < s.len() && solid_out_has_bound(s, led, j) && mv
                            == solid_out_bound(s, led, j))
                },
                Option::None => acc is None && (forall|j: int| #![auto]
                    i <= j < s.len() ==> !solid_out_has_bound(s, led, j)),
            },
            Checked::Overflow => true,
        },
    decreases s.len() - i,
{
    if i < 0 || i >= s.len() {
    } else {
        let t = s[i];
        match led[t.name].space {
            Capacity::Unbounded => {
                lemma_solid_out_min_bounds(s, led, i + 1, acc);
            },
            Capacity::Bounded(sp) => {
                let b = q_from(sp / t.count);
                if q_fits(b) {
                    let acc2 = opt_min(acc, b);
                    match acc {
                        Option::None => {},
                        Option::Some(a) => {
                            lemma_q_min_props(a, b);
                        },
                    }
                    lemma_solid_out_min_bounds(s, led, i + 1, acc2);
                    match solid_out_min(s, led, i + 1, acc2) {
                        Checked::Fits(res2) => match res2 {
                            Option::Some(mv) => {
                                match acc {
                                    Option::None => {
                                        assert(solid_out_has_bound(s, led, i) && b
                                            == solid_out_bound(s, led, i));
                                    },
                                    Option::Some(a) => {
                                        let mn = q_min(a, b);
                                        lemma_q_le_trans(mv, mn, a);
                                        lemma_q_le_trans(mv, mn, b);
                                        assert(solid_out_has_bound(s, led, i) && b
                                            == solid_out_bound(s, led, i));
                                    },
                                }
                            },
                            Option::None => {},
                        },
                        Checked::Overflow => {},
                    }
                }
            },
        }
    }
}

proof fn lemma_power_min_bounds(loss: Q, pa: Q, ps: Capacity<Q>, acc: Option<Q>)
    requires
        opt_q_wf(acc),
        q_wf(pa),
        q_wf(loss),
        match ps {
            Capacity::Bounded(x) => q_wf(x),
            Capacity::Unbounded => true,
        },
    ensures
        match power_min(loss, pa, ps, acc) {
            Checked::Fits(res) => match res {
                Option::Some(mv) => {
                    &&& q_wf(mv)
                    &&& (match acc {
                        Option::Some(a) => q_le(mv, a),
                        Option::None => true,
                    })
                    &&& (power_has_bound(loss, ps) ==> q_le(mv, power_bound(loss, pa, ps))
                        && q_fits(power_bound(loss, pa, ps)))
                    &&& (acc == Option::Some(mv) || (power_has_bound(loss, ps) && mv
                        == power_bound(loss, pa, ps)))
                },
                Option::None => acc is None && !power_has_bound(loss, ps),
            },
            Checked::Overflow => true,
        },
{
    if q_lt(q_from(0), loss) {
        let b = q_div(pa, loss);
        if q_fits(b) {
            match acc {
                Option::None => {},
                Option::Some(a) => {
                    lemma_q_min_props(a, b);
                },
            }
        }
    } else if q_lt(loss, q_from(0)) {
        match ps {
            Capacity::Unbounded => {},
            Capacity::Bounded(sp) => {
                let b = q_div(sp, q_neg(loss));
                if q_fits(b) {
                    match acc {
                        Option::None => {},
                        Option::Some(a) => {
                            lemma_q_min_props(a, b);
                        },
                    }
                }
            },
        }
    }
}

/// Minimality: the reactivity `reaction_min` finds is no greater than every
/// individual resource ratio — availability over need for each input,
/// storage over make for each output, and the power ratio — and it equals
/// one of them, the binding constraint.  `react` returns exactly this
/// minimum, floored when a solid takes part, so every successful reaction
/// is bounded by each resource and tight against one.
pub proof fn lemma_reaction_min_bounds(r: ReactorV, fl: Map<Seq<char>, FluidV>, c: LedgerV)
    requires
        q_wf(c.power_avail),
        q_wf(r.power_loss),
        match c.power_space {
            Capacity::Bounded(x) => q_wf(x),
            Capacity::Unbounded => true,
        },
    ensures
        match reaction_min(r, fl, c) {
            Checked::Fits(ob) => match ob {
                Option::Some(m) => {
                    &&& q_wf(m)
                    &&& (forall|j: int| #![auto]
                        0 <= j < r.fluid_inputs.len() && fluid_in_has_bound(r.fluid_inputs, fl, j)
                            ==> q_le(m, fluid_in_bound(r.fluid_inputs, fl, c.fluids, j)))
                    &&& (forall|j: int| #![auto]
                        0 <= j < r.solid_inputs.len() ==> q_le(
                            m,
                            solid_in_bound(r.solid_inputs, c.solids, j),
                        ))
                    &&& (forall|j: int| #![auto]
                        0 <= j < r.fluid_outputs.len() && fluid_out_has_bound(
                            r.fluid_outputs,
                            fl,
                            c.fluids,
                            j,
                        ) ==> q_le(m, fluid_out_bound(r.fluid_outputs, fl, c.fluids, j)))
                    &&& (forall|j: int| #![auto]
                        0 <= j < r.solid_outputs.len() && solid_out_has_bound(
                            r.solid_outputs,
                            c.solids,
                            j,
                        ) ==> q_le(m, solid_out_bound(r.solid_outputs, c.solids, j)))
                    &&& (power_has_bound(r.power_loss, c.power_space) ==> q_le(
                        m,
                        power_bound(r.power_loss, c.power_avail, c.power_space),
                    ))
                    &&& {
                        ||| (exists|j: int| #![auto]
                            0 <= j < r.fluid_inputs.len() && fluid_in_has_bound(
                                r.fluid_inputs,
                                fl,
                                j,
                            ) && m == fluid_in_bound(r.fluid_inputs, fl, c.fluids, j))
                        ||| (exists|j: int| #![auto]
                            0 <= j < r.solid_inputs.len() && m == solid_in_bound(
                                r.solid_inputs,
                                c.solids,
                                j,
                            ))
                        ||| (exists|j: int| #![auto]
                            0 <= j < r.fluid_outputs.len() && fluid_out_has_bound(
                                r.fluid_outputs,
                                fl,
                                c.fluids,
                                j,
                            ) && m == fluid_out_bound(r.fluid_outputs, fl, c.fluids, j))
                        ||| (exists|j: int| #![auto]
                            0 <= j < r.solid_outputs.len() && solid_out_has_bound(
                                r.solid_outputs,
                                c.solids,
                                j,
                            ) && m == solid_out_bound(r.solid_outputs, c.solids, j))
                        ||| (power_has_bound(r.power_loss, c.power_space) && m == power_bound(
                            r.power_loss,
                            c.power_avail,
                            c.power_space,
                        ))
                    }
                },
                Option::None => true,
            },
            Checked::Overflow => true,
        },
{
    let fi = r.fluid_inputs;
    let si = r.solid_inputs;
    let fo = r.fluid_outputs;
    let so = r.solid_outputs;
    lemma_fluid_in_min_bounds(fi, fl, c.fluids, 0, Option::<Q>::None);
    match fluid_in_min(fi, fl, c.fluids, 0, Option::<Q>::None) {
        Checked::Overflow => {},
        Checked::Fits(a1) => {
            lemma_solid_in_min_bounds(si, c.solids, 0, a1);
            match solid_in_min(si, c.solids, 0, a1) {
                Checked::Overflow => {},
                Checked::Fits(a2) => {
                    lemma_fluid_out_min_bounds(fo, fl, c.fluids, 0, a2);
                    match fluid_out_min(fo, fl, c.fluids, 0, a2) {
                        Checked::Overflow => {},
                        Checked::Fits(a3) => {
                            lemma_solid_out_min_bounds(so, c.solids, 0, a3);
                            match solid_out_min(so, c.solids, 0, a3) {
                                Checked::Overflow => {},
                                Checked::Fits(a4) => {
                                    lemma_power_min_bounds(
                                        r.power_loss,
                                        c.power_avail,
                                        c.power_space,
                                        a4,
                                    );
                                    match power_min(
                                        r.power_loss,
                                        c.power_avail,
                                        c.power_space,
                                        a4,
                                    ) {
                                        Checked::Overflow => {},
                                        Checked::Fits(res) => match res {
                                            Option::None => {},
                                            Option::Some(m) => {
                                                assert forall|j: int| #![auto]
                                                    0 <= j < fi.len() && fluid_in_has_bound(
                                                        fi,
                                                        fl,
                                                        j,
                                                    ) implies q_le(
                                                    m,
                                                    fluid_in_bound(fi, fl, c.fluids, j),
                                                ) by {
                                                    match a1 {
                                                        Option::None => {},
                                                        Option::Some(a1v) => match a2 {
                                                            Option::None => {
                                                                assert(false);
                                                            },
                                                            Option::Some(a2v) => match a3 {
                                                                Option::None => {
                                                                    assert(false);
                                                                },
                                                                Option::Some(a3v) => match a4 {
                                                                    Option::None => {
                                                                        assert(false);
                                                                    },
                                                                    Option::Some(a4v) => {
                                                                        lemma_q_le_trans(
                                                                            m,
                                                                            a4v,
                                                                            a3v,
                                                                        );
                                                                        lemma_q_le_trans(
                                                                            m,
                                                                            a3v,
                                                                            a2v,
                                                                        );
                                                                        lemma_q_le_trans(
                                                                            m,
                                                                            a2v,
                                                                            a1v,
                                                                        );
                                                                        lemma_q_le_trans(
                                                                            m,
                                                                            a1v,
                                                                            fluid_in_bound(
                                                                                fi,
                                                                                fl,
                                                                                c.fluids,
                                                                                j,
                                                                            ),
                                                                        );
                                                                    },
                                                                },
                                                            },
                                                        },
                                                    }
                                                }
                                                assert forall|j: int| #![auto]
                                                    0 <= j < si.len() implies q_le(
                                                    m,
                                                    solid_in_bound(si, c.solids, j),
                                                ) by {
                                                    match a2 {
                                                        Option::None => {},
                                                        Option::Some(a2v) => match a3 {
                                                            Option::None => {
                                                                assert(false);
                                                            },
                                                            Option::Some(a3v) => match a4 {
                                                                Option::None => {
                                                                    assert(false);
                                                                },
                                                                Option::Some(a4v) => {
                                                                    lemma_q_le_trans(m, a4v, a3v);
                                                                    lemma_q_le_trans(m, a3v, a2v);
                                                                    lemma_q_le_trans(
                                                                        m,
                                                                        a2v,
                                                                        solid_in_bound(
                                                                            si,
                                                                            c.solids,
                                                                            j,
                                                                        ),
                                                                    );
                                                                },
                                                            },
                                                        },
                                                    }
                                                }
                                                assert forall|j: int| #![auto]
                                                    0 <= j < fo.len() && fluid_out_has_bound(
                                                        fo,
                                                        fl,
                                                        c.fluids,
                                                        j,
                                                    ) implies q_le(
                                                    m,
                                                    fluid_out_bound(fo, fl, c.fluids, j),
                                                ) by {
                                                    match a3 {
                                                        Option::None => {},
                                                        Option::Some(a3v) => match a4 {
                                                            Option::None => {
                                                                assert(false);
                                                            },
                                                            Option::Some(a4v) => {
                                                                lemma_q_le_trans(m, a4v, a3v);
                                                                lemma_q_le_trans(
                                                                    m,
                                                                    a3v,
                                                                    fluid_out_bound(
                                                                        fo,
                                                                        fl,
                                                                        c.fluids,
                                                                        j,
                                                                    ),
                                                                );
                                                            },
                                                        },
                                                    }
                                                }
                                                assert forall|j: int| #![auto]
                                                    0 <= j < so.len() && solid_out_has_bound(
                                                        so,
                                                        c.solids,
                                                        j,
                                                    ) implies q_le(
                                                    m,
                                                    solid_out_bound(so, c.solids, j),
                                                ) by {
                                                    match a4 {
                                                        Option::None => {},
                                                        Option::Some(a4v) => {
                                                            lemma_q_le_trans(
                                                                m,
                                                                a4v,
                                                                solid_out_bound(so, c.solids, j),
                                                            );
                                                        },
                                                    }
                                                }
                                                // the minimum is attained: walk the stages
                                                // back from the power bound
                                                if power_has_bound(r.power_loss, c.power_space)
                                                    && m == power_bound(
                                                    r.power_loss,
                                                    c.power_avail,
                                                    c.power_space,
                                                ) {
                                                } else {
                                                    assert(a4 == Option::Some(m));
                                                    if exists|j: int| #![auto]
                                                        0 <= j < so.len() && solid_out_has_bound(
                                                            so,
                                                            c.solids,
                                                            j,
                                                        ) && m == solid_out_bound(
                                                            so,
                                                            c.solids,
                                                            j,
                                                        ) {
                                                    } else {
                                                        assert(a3 == Option::Some(m));
                                                        if exists|j: int| #![auto]
                                                            0 <= j < fo.len()
                                                                && fluid_out_has_bound(
                                                                fo,
                                                                fl,
                                                                c.fluids,
                                                                j,
                                                            ) && m == fluid_out_bound(
                                                                fo,
                                                                fl,
                                                                c.fluids,
                                                                j,
                                                            ) {
                                                        } else {
                                                            assert(a2 == Option::Some(m));
                                                            if exists|j: int| #![auto]
                                                                0 <= j < si.len() && m
                                                                    == solid_in_bound(
                                                                    si,
                                                                    c.solids,
                                                                    j,
                                                                ) {
                                                            } else {
                                                                assert(a1 == Option::Some(m));
                                                            }
                                                        }
                                                    }
                                                }
                                            },
                                        },
                                    }
                                },
                            }
                        },
                    }
                },
            }
        },
    }
}

/// Fixed point: when the binding constraint falls below one — exactly the
/// case in which `react` answers zero though every referenced resource is
/// present — some individual resource ratio is itself below one: that
/// resource's availability, storage or power budget cannot pay for one
/// more recipe extent.
pub proof fn lemma_zero_reaction_exhausted(r: ReactorV, fl: Map<Seq<char>, FluidV>, c: LedgerV)
    requires
        q_wf(c.power_avail),
        q_wf(r.power_loss),
        match c.power_space {
            Capacity::Bounded(x) => q_wf(x),
            Capacity::Unbounded => true,
        },
    ensures
        match reaction_min(r, fl, c) {
            Checked::Fits(ob) => match ob {
                Option::Some(m) => q_lt(m, q_from(1)) ==> {
                    ||| (exists|j: int| #![auto]
                        0 <= j < r.fluid_inputs.len() && fluid_in_has_bound(r.fluid_inputs, fl, j)
                            && q_lt(fluid_in_bound(r.fluid_inputs, fl, c.fluids, j), q_from(1)))
                    ||| (exists|j: int| #![auto]
                        0 <= j < r.solid_inputs.len() && q_lt(
                            solid_in_bound(r.solid_inputs, c.solids, j),
                            q_from(1),
                        ))
                    ||| (exists|j: int| #![auto]
                        0 <= j < r.fluid_outputs.len() && fluid_out_has_bound(
                            r.fluid_outputs,
                            fl,
                            c.fluids,
                            j,
                        ) && q_lt(fluid_out_bound(r.fluid_outputs, fl, c.fluids, j), q_from(1)))
                    ||| (exists|j: int| #![auto]
                        0 <= j < r.solid_outputs.len() && solid_out_has_bound(
                            r.solid_outputs,
                            c.solids,
                            j,
                        ) && q_lt(solid_out_bound(r.solid_outputs, c.solids, j), q_from(1)))
                    ||| (power_has_bound(r.power_loss, c.power_space) && q_lt(
                        power_bound(r.power_loss, c.power_avail, c.power_space),
                        q_from(1),
                    ))
                },
                Option::None => true,
            },
            Checked::Overflow => true,
        },
{
    lemma_reaction_min_bounds(r, fl, c);
}

} // verus!
