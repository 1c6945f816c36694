use marsbase::fluid::Fluid;
use marsbase::rational::Rat;
use marsbase::reactor::{
    Capacity, FluidStore, FluidTerm, ReactError, Reactor, ReactorContext, SolidStore, SolidTerm,
};
use marsbase::table::StringMap;
use marsbase::unit::Unit;

fn rat(n: i64, d: i64) -> Rat {
    Rat::new(n, d).unwrap()
}

fn simple_fluid(density: i64, mol_mass: i64) -> Fluid {
    Fluid { density: Rat::from_i64(density), mol_mass: Rat::from_i64(mol_mass) }
}

fn assert_rat_eq(a: &Rat, n: i64, d: i64) {
    assert!(a.eq_value(&rat(n, d)), "expected {}/{}, got {}/{}", n, d, a.numer(), a.denom());
}

fn empty_reactor() -> Reactor {
    Reactor {
        fluid_inputs: Vec::new(),
        fluid_outputs: Vec::new(),
        solid_inputs: Vec::new(),
        solid_outputs: Vec::new(),
        power_loss: Rat::from_i64(0),
    }
}

#[test]
fn rational_exact_ops() {
    let a = rat(1, 3);
    let b = rat(1, 6);
    let s = a.checked_add(&b).unwrap();
    assert_rat_eq(&s, 1, 2);
    let m = a.checked_mul(&b).unwrap();
    assert_rat_eq(&m, 1, 18);
    let q = a.checked_div(&b).unwrap();
    assert_rat_eq(&q, 2, 1);
    let d = a.checked_sub(&b).unwrap();
    assert_rat_eq(&d, 1, 6);
    assert!(b.lt(&a));
    assert!(b.le(&a));
    assert!(!a.le(&b));
    assert_eq!(rat(7, 2).floor_nonneg(), 3);
    assert_eq!(rat(6, 2).floor_nonneg(), 3);
}

#[test]
fn rational_overflow_reported() {
    let big = Rat::from_i64(i64::MAX);
    let one = Rat::from_i64(1);
    assert!(big.checked_add(&one).is_none());
    assert!(big.checked_mul(&big).is_none());
    assert!(one.checked_div(&Rat::from_i64(0)).is_none());
    assert!(Rat::new(1, 0).is_none());
    assert!(Rat::new(1, -2).is_none());
}

#[test]
fn reduction_keeps_the_value() {
    let a = rat(84, 36);
    let r = a.reduced();
    assert_eq!(r.numer(), 7);
    assert_eq!(r.denom(), 3);
    assert!(r.eq_value(&a));
    let n = rat(-84, 36).reduced();
    assert_eq!(n.numer(), -7);
    assert_eq!(n.denom(), 3);
    let z = rat(0, 5).reduced();
    assert_eq!(z.numer(), 0);
    assert_eq!(z.denom(), 1);
}

#[test]
fn unit_conversions() {
    let water = Fluid { density: Rat::from_i64(1000), mol_mass: Rat::from_i64(18) };
    let g = water.grams_from_litres(&rat(2, 1)).unwrap();
    assert_rat_eq(&g, 2000, 1);
    let l = water.litres_from_grams(&Rat::from_i64(500)).unwrap();
    assert_rat_eq(&l, 1, 2);
    let g2 = water.grams_from_mols(&rat(3, 1)).unwrap();
    assert_rat_eq(&g2, 54, 1);
    let m = water.mols_from_grams(&Rat::from_i64(9)).unwrap();
    assert_rat_eq(&m, 1, 2);
    let l2 = water.litres_from_mols(&Rat::from_i64(1000)).unwrap();
    assert_rat_eq(&l2, 18, 1);
    let m2 = water.mols_from_litres(&rat(18, 1000)).unwrap();
    assert_rat_eq(&m2, 1, 1);
    let same = water.grams_from(&rat(7, 3), Unit::Gram).unwrap();
    assert_rat_eq(&same, 7, 3);
}

#[test]
fn table_set_and_get() {
    let mut t: StringMap<SolidStore> = StringMap::new();
    let ore = String::from("ore");
    assert!(t.get(&ore).is_none());
    t.set(&ore, SolidStore { avail: 5, space: Capacity::Unbounded });
    t.set(&String::from("ice"), SolidStore { avail: 2, space: Capacity::Bounded(9) });
    let got = t.get(&ore).unwrap();
    assert_eq!(got.avail, 5);
    t.set(&ore, SolidStore { avail: 7, space: Capacity::Unbounded });
    assert_eq!(t.get(&ore).unwrap().avail, 7);
    assert_eq!(t.get(&String::from("ice")).unwrap().avail, 2);
}

/// A recipe with no inputs, no outputs and no power term has no bounding
/// constraint: the engine must fail loudly instead of reacting forever.
#[test]
fn empty_recipe_is_fatal() {
    let reactor = empty_reactor();
    let fluids: StringMap<Fluid> = StringMap::new();
    let mut ctx = ReactorContext::new(&reactor, Capacity::Unbounded, &fluids).unwrap();
    let r = ctx.react(&reactor, &fluids);
    assert!(matches!(r, Err(ReactError::InfiniteReactivity)));
}

/// A recipe that references a name absent from the ledger reacts by zero
/// and leaves every ledger entry untouched.
#[test]
fn missing_key_reacts_zero() {
    let mut fluids: StringMap<Fluid> = StringMap::new();
    fluids.set(&String::from("water"), simple_fluid(1000, 18));

    let mut stocked = empty_reactor();
    stocked.fluid_inputs.push(FluidTerm {
        name: String::from("water"),
        amount: Rat::from_i64(10),
        unit: Unit::Gram,
    });
    let mut ctx = ReactorContext::new(&stocked, Capacity::Bounded(Rat::from_i64(5)), &fluids)
        .unwrap();
    ctx.fluid_store.set(
        &String::from("water"),
        FluidStore { avail: Rat::from_i64(40), space: Capacity::Bounded(Rat::from_i64(10)) },
    );

    let mut wants_xenon = empty_reactor();
    wants_xenon.fluid_inputs.push(FluidTerm {
        name: String::from("water"),
        amount: Rat::from_i64(10),
        unit: Unit::Gram,
    });
    wants_xenon.fluid_inputs.push(FluidTerm {
        name: String::from("xenon"),
        amount: Rat::from_i64(1),
        unit: Unit::Gram,
    });
    fluids.set(&String::from("xenon"), simple_fluid(5, 131));

    let r = ctx.react(&wants_xenon, &fluids).unwrap();
    assert_rat_eq(&r, 0, 1);
    let water = ctx.fluid_store.get(&String::from("water")).unwrap();
    assert_rat_eq(&water.avail, 40, 1);
    match water.space {
        Capacity::Bounded(sp) => assert_rat_eq(&sp, 10, 1),
        Capacity::Unbounded => panic!("space should be bounded"),
    }
}

/// A solid input makes the reactivity discrete: one unit of dehydrated food
/// per extent, three per recipe, 100 units on hand, everything else
/// unlimited: the reactivity is the floor of 100 / 3.
#[test]
fn discrete_input_floors() {
    let mut fluids: StringMap<Fluid> = StringMap::new();
    fluids.set(&String::from("water"), simple_fluid(1000, 18));

    let mut reactor = empty_reactor();
    reactor.solid_inputs.push(SolidTerm { name: String::from("dehydrated food"), count: 3 });
    reactor.fluid_outputs.push(FluidTerm {
        name: String::from("water"),
        amount: Rat::from_i64(5),
        unit: Unit::Gram,
    });
    let mut ctx = ReactorContext::new(&reactor, Capacity::Unbounded, &fluids).unwrap();
    ctx.solid_store.set(
        &String::from("dehydrated food"),
        SolidStore { avail: 100, space: Capacity::Unbounded },
    );
    ctx.fluid_store.set(
        &String::from("water"),
        FluidStore { avail: Rat::from_i64(1_000_000), space: Capacity::Unbounded },
    );

    let r = ctx.react(&reactor, &fluids).unwrap();
    assert_rat_eq(&r, 33, 1);
    let food = ctx.solid_store.get(&String::from("dehydrated food")).unwrap();
    assert_eq!(food.avail, 100 - 99);
    let water = ctx.fluid_store.get(&String::from("water")).unwrap();
    assert_rat_eq(&water.avail, 1_000_000 + 33 * 5, 1);
}

fn sabatier_catalog() -> StringMap<Fluid> {
    let mut fluids: StringMap<Fluid> = StringMap::new();
    fluids.set(&String::from("carbon dioxide"), simple_fluid(1, 44));
    fluids.set(&String::from("hydrogen"), simple_fluid(1, 2));
    fluids.set(&String::from("methane"), simple_fluid(1, 16));
    fluids.set(&String::from("water"), simple_fluid(1, 18));
    fluids
}

fn sabatier_reactor() -> Reactor {
    let mut reactor = empty_reactor();
    reactor.fluid_inputs.push(FluidTerm {
        name: String::from("carbon dioxide"),
        amount: Rat::from_i64(1),
        unit: Unit::Mol,
    });
    reactor.fluid_inputs.push(FluidTerm {
        name: String::from("hydrogen"),
        amount: Rat::from_i64(4),
        unit: Unit::Mol,
    });
    reactor.fluid_outputs.push(FluidTerm {
        name: String::from("methane"),
        amount: Rat::from_i64(1),
        unit: Unit::Mol,
    });
    reactor.fluid_outputs.push(FluidTerm {
        name: String::from("water"),
        amount: Rat::from_i64(2),
        unit: Unit::Mol,
    });
    reactor
}

fn set_grams(ctx: &mut ReactorContext, name: &str, avail: i64, space: i64) {
    ctx.fluid_store.set(
        &String::from(name),
        FluidStore {
            avail: Rat::from_i64(avail),
            space: Capacity::Bounded(Rat::from_i64(space)),
        },
    );
}

fn grams(ctx: &ReactorContext, name: &str) -> (Rat, Rat) {
    let st = ctx.fluid_store.get(&String::from(name)).unwrap();
    match st.space {
        Capacity::Bounded(sp) => (st.avail, sp),
        Capacity::Unbounded => panic!("space should be bounded"),
    }
}

/// A fluid-only mole-ratio recipe: the reactivity is the minimum ratio
/// across all four resources, and the gram deltas match the mole-to-gram
/// conversion exactly.
#[test]
fn fluid_stoichiometry() {
    let fluids = sabatier_catalog();
    let reactor = sabatier_reactor();
    let mut ctx = ReactorContext::new(&reactor, Capacity::Bounded(Rat::from_i64(10)), &fluids)
        .unwrap();
    // avail = 1 mol CO2, 4 mol H2; space = 2 mol CO2, 8 mol H2,
    // 2 mol CH4, 4 mol H2O, all in grams of each fluid.
    set_grams(&mut ctx, "carbon dioxide", 44, 88);
    set_grams(&mut ctx, "hydrogen", 8, 16);
    set_grams(&mut ctx, "methane", 0, 32);
    set_grams(&mut ctx, "water", 0, 72);

    let r = ctx.react(&reactor, &fluids).unwrap();
    assert_rat_eq(&r, 1, 1);

    let (co2_a, co2_s) = grams(&ctx, "carbon dioxide");
    assert_rat_eq(&co2_a, 0, 1);
    assert_rat_eq(&co2_s, 132, 1);
    let (h2_a, h2_s) = grams(&ctx, "hydrogen");
    assert_rat_eq(&h2_a, 0, 1);
    assert_rat_eq(&h2_s, 24, 1);
    let (ch4_a, ch4_s) = grams(&ctx, "methane");
    assert_rat_eq(&ch4_a, 16, 1);
    assert_rat_eq(&ch4_s, 16, 1);
    let (h2o_a, h2o_s) = grams(&ctx, "water");
    assert_rat_eq(&h2o_a, 36, 1);
    assert_rat_eq(&h2o_s, 36, 1);

    // Conservation: avail + space is unchanged for every resource.
    let sum = co2_a.checked_add(&co2_s).unwrap();
    assert_rat_eq(&sum, 44 + 88, 1);
    let sum = h2_a.checked_add(&h2_s).unwrap();
    assert_rat_eq(&sum, 8 + 16, 1);
    let sum = ch4_a.checked_add(&ch4_s).unwrap();
    assert_rat_eq(&sum, 32, 1);
    let sum = h2o_a.checked_add(&h2o_s).unwrap();
    assert_rat_eq(&sum, 72, 1);
}

/// Repeating `react` reaches a fixed point where a referenced resource is
/// exhausted below one recipe-extent.
#[test]
fn fixed_point_exhausts_a_resource() {
    let mut fluids: StringMap<Fluid> = StringMap::new();
    fluids.set(&String::from("fuel"), simple_fluid(1, 1));

    let mut reactor = empty_reactor();
    reactor.fluid_inputs.push(FluidTerm {
        name: String::from("fuel"),
        amount: Rat::from_i64(2),
        unit: Unit::Gram,
    });
    reactor.solid_outputs.push(SolidTerm { name: String::from("slag"), count: 1 });
    let mut ctx = ReactorContext::new(&reactor, Capacity::Unbounded, &fluids).unwrap();
    ctx.fluid_store.set(
        &String::from("fuel"),
        FluidStore { avail: Rat::from_i64(7), space: Capacity::Unbounded },
    );

    let mut steps = 0;
    loop {
        let r = ctx.react(&reactor, &fluids).unwrap();
        if r.eq_value(&Rat::from_i64(0)) {
            break;
        }
        steps += 1;
        assert!(steps < 10, "reaction should reach a fixed point");
    }
    // 7 grams of fuel allow three whole extents; 1 gram is left, less than
    // the 2 grams one further extent would need.
    let fuel = ctx.fluid_store.get(&String::from("fuel")).unwrap();
    assert_rat_eq(&fuel.avail, 1, 1);
    let slag = ctx.solid_store.get(&String::from("slag")).unwrap();
    assert_eq!(slag.avail, 3);
}

/// Positive power loss is bounded by the power available; the ledger's
/// power books move by `reactivity * power_loss`.
#[test]
fn power_bounds_the_reaction() {
    let mut fluids: StringMap<Fluid> = StringMap::new();
    fluids.set(&String::from("water"), simple_fluid(1, 18));

    let mut reactor = empty_reactor();
    reactor.fluid_inputs.push(FluidTerm {
        name: String::from("water"),
        amount: Rat::from_i64(1),
        unit: Unit::Gram,
    });
    reactor.power_loss = Rat::from_i64(10);
    let mut ctx = ReactorContext::new(&reactor, Capacity::Bounded(Rat::from_i64(100)), &fluids)
        .unwrap();
    set_grams(&mut ctx, "water", 50, 50);
    ctx.power_avail = Rat::from_i64(30);

    let r = ctx.react(&reactor, &fluids).unwrap();
    // water allows 50 extents, power only 30 / 10 = 3.
    assert_rat_eq(&r, 3, 1);
    assert_rat_eq(&ctx.power_avail, 0, 1);
    match ctx.power_space {
        Capacity::Bounded(sp) => assert_rat_eq(&sp, 1000 + 30, 1),
        Capacity::Unbounded => panic!("power space should be bounded"),
    }
}

/// Construction sizes storage from the instance scale: `size * amount`
/// grams for fluids, `floor(size) * count` units for solids, and
/// `size * |power_loss|` joules of power storage.
#[test]
fn context_construction_sizes_storage() {
    let mut fluids: StringMap<Fluid> = StringMap::new();
    fluids.set(&String::from("water"), simple_fluid(1000, 18));

    let mut reactor = empty_reactor();
    reactor.fluid_inputs.push(FluidTerm {
        name: String::from("water"),
        amount: Rat::from_i64(3),
        unit: Unit::Litre,
    });
    reactor.solid_inputs.push(SolidTerm { name: String::from("ore"), count: 4 });
    reactor.power_loss = Rat::from_i64(-5);

    let ctx = ReactorContext::new(&reactor, Capacity::Bounded(rat(5, 2)), &fluids).unwrap();
    let water = ctx.fluid_store.get(&String::from("water")).unwrap();
    assert_rat_eq(&water.avail, 0, 1);
    match water.space {
        // 5/2 * 3 litres = 15/2 litres = 7500 grams
        Capacity::Bounded(sp) => assert_rat_eq(&sp, 7500, 1),
        Capacity::Unbounded => panic!("fluid space should be bounded"),
    }
    let ore = ctx.solid_store.get(&String::from("ore")).unwrap();
    assert_eq!(ore.avail, 0);
    match ore.space {
        // floor(5/2) * 4 = 8
        Capacity::Bounded(sp) => assert_eq!(sp, 8),
        Capacity::Unbounded => panic!("solid space should be bounded"),
    }
    assert_rat_eq(&ctx.power_avail, 0, 1);
    match ctx.power_space {
        // 5/2 * |-5| = 25/2
        Capacity::Bounded(sp) => assert_rat_eq(&sp, 25, 2),
        Capacity::Unbounded => panic!("power space should be bounded"),
    }
}

/// A producing reactor (negative power loss) is bounded by the power
/// storage left.
#[test]
fn power_production_bounded_by_space() {
    let fluids: StringMap<Fluid> = StringMap::new();
    let mut reactor = empty_reactor();
    reactor.solid_inputs.push(SolidTerm { name: String::from("fuel rod"), count: 1 });
    reactor.power_loss = Rat::from_i64(-4);
    let mut ctx = ReactorContext::new(&reactor, Capacity::Bounded(Rat::from_i64(10)), &fluids)
        .unwrap();
    ctx.solid_store.set(
        &String::from("fuel rod"),
        SolidStore { avail: 100, space: Capacity::Unbounded },
    );
    // power space is 10 * 4 = 40 joules: room for 10 extents.
    let r = ctx.react(&reactor, &fluids).unwrap();
    assert_rat_eq(&r, 10, 1);
    assert_rat_eq(&ctx.power_avail, 40, 1);
    match ctx.power_space {
        Capacity::Bounded(sp) => assert_rat_eq(&sp, 0, 1),
        Capacity::Unbounded => panic!("power space should be bounded"),
    }
}

/// The runtime validators decide exactly the engine's preconditions: a
/// well-formed recipe against a resolving catalog passes; a zero solid
/// count, a repeated name, or an unresolved fluid is rejected.
#[test]
fn validators_accept_and_reject() {
    let fluids = sabatier_catalog();
    let reactor = sabatier_reactor();
    assert!(reactor.check_wf());
    assert!(reactor.check_catalog(&fluids));

    let mut zero_count = empty_reactor();
    zero_count.solid_inputs.push(SolidTerm { name: String::from("ore"), count: 0 });
    assert!(!zero_count.check_wf());

    let mut dup = empty_reactor();
    dup.fluid_inputs.push(FluidTerm {
        name: String::from("water"),
        amount: Rat::from_i64(1),
        unit: Unit::Gram,
    });
    dup.fluid_inputs.push(FluidTerm {
        name: String::from("water"),
        amount: Rat::from_i64(2),
        unit: Unit::Gram,
    });
    assert!(!dup.check_wf());

    let mut unknown = empty_reactor();
    unknown.fluid_inputs.push(FluidTerm {
        name: String::from("xenon"),
        amount: Rat::from_i64(1),
        unit: Unit::Gram,
    });
    assert!(unknown.check_wf());
    assert!(!unknown.check_catalog(&fluids));
}

#[test]
fn latch_keeps_latest_value() {
    let (send, recv) = std::sync::mpsc::channel();
    send.send(1u32).unwrap();
    let mut latch = marsbase::latch::Latch::new(recv).unwrap();
    send.send(2u32).unwrap();
    send.send(3u32).unwrap();
    assert_eq!(*latch.get(), 3);
    assert_eq!(*latch.get(), 3);
    drop(send);
    assert_eq!(*latch.get(), 3);
}

#[test]
fn latch_on_closed_channel() {
    let (send, recv) = std::sync::mpsc::channel::<u32>();
    drop(send);
    assert!(marsbase::latch::Latch::new(recv).is_none());
}
