//! The load-bearing guarantees of the simulation, proved once and for
//! all states.

use vstd::prelude::*;

use crate::config::GalaxyConfig;
use crate::error::GameError;
use crate::resources::Resources;
use crate::system::{
    spec_advance, spec_build, spec_cycles, spec_events_wf, spec_first_due, spec_has_pending_build,
    spec_insert_event, spec_interval, spec_new_amount, spec_produce, spec_production_of,
    spec_score, spec_storage_of, spec_structure_exists, spec_structure_level, Event, Structure,
    StructureType, SystemState,
};

verus! {

use vstd::arithmetic::div_mod::lemma_div_is_ordered;
use vstd::std_specs::cmp::PartialOrdSpec;

/// Whether a run of calls at these ticks is accepted in its entirety
/// by the tick gate, starting from a galaxy clock at `cur`: every
/// mutating galaxy operation refuses a tick below the clock and sets
/// the clock to its tick otherwise.
pub open spec fn spec_gate_accepts(cur: usize, ticks: Seq<usize>) -> bool
    decreases ticks.len(),
{
    if ticks.len() == 0 {
        true
    } else {
        ticks[0] >= cur && spec_gate_accepts(ticks[0], ticks.drop_first())
    }
}

/// Tick monotonicity: a nondecreasing run of ticks, starting at or
/// after the galaxy's clock, is accepted call by call; any call with a
/// tick below the clock is refused with `OutOfOrderTick` and leaves the
/// state unchanged (that refusal is the `tick < old.tick` clause in the
/// contracts of the galaxy's operations).
pub proof fn lemma_tick_monotonicity(cur: usize, ticks: Seq<usize>)
    requires
        forall|i: int, j: int| 0 <= i < j < ticks.len() ==> ticks[i] <= ticks[j],
        ticks.len() > 0 ==> ticks[0] >= cur,
    ensures
        spec_gate_accepts(cur, ticks),
    decreases ticks.len(),
{
    if ticks.len() > 0 {
        let rest = ticks.drop_first();
        assert forall|i: int, j: int| 0 <= i < j < rest.len() implies rest[i] <= rest[j] by {
            assert(rest[i] == ticks[i + 1] && rest[j] == ticks[j + 1]);
        }
        if rest.len() > 0 {
            assert(rest[0] == ticks[1]);
        }
        lemma_tick_monotonicity(ticks[0], rest);
    }
}

/// Storage cap: however large the tick jump, an advance leaves every
/// resource component at or below the storage capacity the system has
/// after the advance — unconditionally, whether or not the component
/// is produced. A component without production gains nothing, but the
/// cap still binds it.
pub proof fn lemma_storage_cap(s: SystemState, cfg: GalaxyConfig, tick: usize)
    requires
        tick > s.current_tick,
    ensures
        ({
            let s1 = spec_advance(s, cfg, tick);
            let prod = spec_production_of(s1.structures, cfg);
            let stor = spec_storage_of(s1.structures, cfg);
            &&& s1.resources.metal <= stor.metal
            &&& s1.resources.crew <= stor.crew
            &&& s1.resources.water <= stor.water
            &&& prod.metal == 0 ==> s1.resources.metal == crate::resources::min_int(
                s.resources.metal as int,
                stor.metal as int,
            )
            &&& prod.crew == 0 ==> s1.resources.crew == crate::resources::min_int(
                s.resources.crew as int,
                stor.crew as int,
            )
            &&& prod.water == 0 ==> s1.resources.water == crate::resources::min_int(
                s.resources.water as int,
                stor.water as int,
            )
        }),
{
    let s1 = spec_advance(s, cfg, tick);
    let prod = spec_production_of(s1.structures, cfg);
    let stor = spec_storage_of(s1.structures, cfg);
    assert(s1.resources == spec_produce(s.resources, prod, stor, s.current_tick, tick));
    if prod.metal > 0 {
        lemma_div_is_ordered(
            s.current_tick as int,
            tick as int,
            spec_interval(prod.metal as nat) as int,
        );
    }
    if prod.crew > 0 {
        lemma_div_is_ordered(
            s.current_tick as int,
            tick as int,
            spec_interval(prod.crew as nat) as int,
        );
    }
    if prod.water > 0 {
        lemma_div_is_ordered(
            s.current_tick as int,
            tick as int,
            spec_interval(prod.water as nat) as int,
        );
    }
}

/// The advance formula in closed form, for production rates up to one
/// unit per tick: with the interval `i = 3600 / p`, a component moves
/// from `old` to exactly `min(old + (floor(b/i) - floor(a/i)), cap)`.
/// (For `p > 3600` the quotient `3600 / p` is zero and that formula is
/// undefined; the library then credits one unit per tick, as
/// [`spec_interval`] states.)
pub proof fn lemma_produce_formula(old: nat, p: nat, cap: nat, a: nat, b: nat)
    requires
        1 <= p <= 3600,
        a <= b,
    ensures
        spec_interval(p) == (3600 as nat) / p,
        spec_new_amount(old, p, cap, a, b) == crate::resources::min_int(
            old as int + (b as int / ((3600 as nat) / p) as int - a as int / ((3600 as nat)
                / p) as int),
            cap as int,
        ) as nat,
{
    vstd::arithmetic::div_mod::lemma_div_non_zero(3600, p as int);
}

/// Completed cycles telescope: the cycles gained from `a` to `m` and
/// from `m` to `b` sum to the cycles gained from `a` to `b`.
pub proof fn lemma_cycles_telescope(p: nat, a: nat, m: nat, b: nat)
    requires
        p >= 1,
        a <= m <= b,
    ensures
        spec_cycles(p, a, m) + spec_cycles(p, m, b) == spec_cycles(p, a, b),
{
}

/// Cycle-counting correctness: with no pending events and storage that
/// the gained cycles never reach, advancing from `a` to `m` and then
/// from `m` to `b` yields exactly the state of a single advance from
/// `a` to `b` — production is counted in whole cycles, so splitting an
/// advance neither over- nor under-counts.
pub proof fn lemma_advance_decompose(s: SystemState, cfg: GalaxyConfig, m: usize, b: usize)
    requires
        s.current_tick <= m <= b,
        s.events.len() == 0,
        ({
            let prod = spec_production_of(s.structures, cfg);
            let stor = spec_storage_of(s.structures, cfg);
            &&& (prod.metal > 0 ==> s.resources.metal + spec_cycles(
                prod.metal as nat,
                s.current_tick as nat,
                b as nat,
            ) <= stor.metal)
            &&& (prod.crew > 0 ==> s.resources.crew + spec_cycles(
                prod.crew as nat,
                s.current_tick as nat,
                b as nat,
            ) <= stor.crew)
            &&& (prod.water > 0 ==> s.resources.water + spec_cycles(
                prod.water as nat,
                s.current_tick as nat,
                b as nat,
            ) <= stor.water)
        }),
    ensures
        spec_advance(spec_advance(s, cfg, m), cfg, b) == spec_advance(s, cfg, b),
{
    let prod = spec_production_of(s.structures, cfg);
    let stor = spec_storage_of(s.structures, cfg);
    let a = s.current_tick;
    let s_m = spec_advance(s, cfg, m);
    assert(s_m.structures == s.structures && s_m.events == s.events);
    let s_mb = spec_advance(s_m, cfg, b);
    let s_b = spec_advance(s, cfg, b);
    assert(s_b.structures == s.structures && s_b.events == s.events);
    if prod.metal > 0 {
        lemma_div_is_ordered(a as int, m as int, spec_interval(prod.metal as nat) as int);
        lemma_div_is_ordered(m as int, b as int, spec_interval(prod.metal as nat) as int);
        lemma_cycles_telescope(prod.metal as nat, a as nat, m as nat, b as nat);
    }
    if prod.crew > 0 {
        lemma_div_is_ordered(a as int, m as int, spec_interval(prod.crew as nat) as int);
        lemma_div_is_ordered(m as int, b as int, spec_interval(prod.crew as nat) as int);
        lemma_cycles_telescope(prod.crew as nat, a as nat, m as nat, b as nat);
    }
    if prod.water > 0 {
        lemma_div_is_ordered(a as int, m as int, spec_interval(prod.water as nat) as int);
        lemma_div_is_ordered(m as int, b as int, spec_interval(prod.water as nat) as int);
        lemma_cycles_telescope(prod.water as nat, a as nat, m as nat, b as nat);
    }
    assert(s_mb.resources == s_b.resources);
    assert(s_mb == s_b);
}

/// The state reached by advancing through each tick of a sequence in
/// turn.
pub open spec fn spec_advance_through(
    s: SystemState,
    cfg: GalaxyConfig,
    ticks: Seq<usize>,
) -> SystemState
    decreases ticks.len(),
{
    if ticks.len() == 0 {
        s
    } else {
        spec_advance_through(spec_advance(s, cfg, ticks[0]), cfg, ticks.drop_first())
    }
}

/// Cycle-counting correctness, in full: with no pending events and
/// storage that the gained cycles never reach, advancing through any
/// nondecreasing chain of intermediate ticks — one tick at a time, or
/// any coarser split — and then to `b` yields exactly the state of a
/// single advance to `b`.
pub proof fn lemma_advance_stepwise(
    s: SystemState,
    cfg: GalaxyConfig,
    ticks: Seq<usize>,
    b: usize,
)
    requires
        s.events.len() == 0,
        forall|i: int, j: int| 0 <= i < j < ticks.len() ==> ticks[i] <= ticks[j],
        forall|i: int| 0 <= i < ticks.len() ==> ticks[i] <= b,
        ({
            let prod = spec_production_of(s.structures, cfg);
            let stor = spec_storage_of(s.structures, cfg);
            &&& s.current_tick <= b
            &&& (prod.metal > 0 ==> s.resources.metal + spec_cycles(
                prod.metal as nat,
                s.current_tick as nat,
                b as nat,
            ) <= stor.metal)
            &&& (prod.crew > 0 ==> s.resources.crew + spec_cycles(
                prod.crew as nat,
                s.current_tick as nat,
                b as nat,
            ) <= stor.crew)
            &&& (prod.water > 0 ==> s.resources.water + spec_cycles(
                prod.water as nat,
                s.current_tick as nat,
                b as nat,
            ) <= stor.water)
        }),
    ensures
        spec_advance(spec_advance_through(s, cfg, ticks), cfg, b) == spec_advance(s, cfg, b),
    decreases ticks.len(),
{
    if ticks.len() > 0 {
        let t0 = ticks[0];
        let rest = ticks.drop_first();
        assert forall|i: int, j: int| 0 <= i < j < rest.len() implies rest[i] <= rest[j] by {
            assert(rest[i] == ticks[i + 1] && rest[j] == ticks[j + 1]);
        }
        assert forall|i: int| 0 <= i < rest.len() implies rest[i] <= b by {
            assert(rest[i] == ticks[i + 1]);
        }
        if t0 <= s.current_tick {
            assert(spec_advance(s, cfg, t0) == s);
            lemma_advance_stepwise(s, cfg, rest, b);
        } else {
            let s1 = spec_advance(s, cfg, t0);
            let a = s.current_tick;
            let prod = spec_production_of(s.structures, cfg);
            let stor = spec_storage_of(s.structures, cfg);
            assert(s1.structures == s.structures && s1.events == s.events);
            assert(s1.current_tick == t0 && t0 <= b);
            // the partial gain does not reach the cap, and what is
            // still to come completes the whole gain
            if prod.metal > 0 {
                lemma_div_is_ordered(a as int, t0 as int, spec_interval(prod.metal as nat) as int);
                lemma_div_is_ordered(t0 as int, b as int, spec_interval(prod.metal as nat) as int);
                lemma_cycles_telescope(prod.metal as nat, a as nat, t0 as nat, b as nat);
            }
            if prod.crew > 0 {
                lemma_div_is_ordered(a as int, t0 as int, spec_interval(prod.crew as nat) as int);
                lemma_div_is_ordered(t0 as int, b as int, spec_interval(prod.crew as nat) as int);
                lemma_cycles_telescope(prod.crew as nat, a as nat, t0 as nat, b as nat);
            }
            if prod.water > 0 {
                lemma_div_is_ordered(a as int, t0 as int, spec_interval(prod.water as nat) as int);
                lemma_div_is_ordered(t0 as int, b as int, spec_interval(prod.water as nat) as int);
                lemma_cycles_telescope(prod.water as nat, a as nat, t0 as nat, b as nat);
            }
            lemma_advance_stepwise(s1, cfg, rest, b);
            lemma_advance_decompose(s, cfg, t0, b);
        }
    }
}

/// Single in-flight build, first half: after a successful build, any
/// second build requested before the completion tick of the pending
/// event fails with `AlreadyBuilding`, whatever structure it names.
pub proof fn lemma_single_inflight_build(
    s: SystemState,
    cfg: GalaxyConfig,
    t1: usize,
    st1: StructureType,
    t2: usize,
    st2: StructureType,
)
    requires
        spec_events_wf(s.structures, s.events),
        spec_build(s, cfg, t1, st1).1 is Ok,
        t1 <= t2,
        t2 < spec_build(s, cfg, t1, st1).1->Ok_0.completion,
    ensures
        spec_build(spec_build(s, cfg, t1, st1).0, cfg, t2, st2).1 == Result::<
            Event,
            GameError,
        >::Err(GameError::AlreadyBuilding),
{
    let b1 = spec_build(s, cfg, t1, st1);
    let s1 = spec_advance(s, cfg, t1);
    let ev = b1.1->Ok_0;
    assert(b1.0.events == spec_insert_event(s1.events, ev));
    assert(s1.events.len() == 0) by {
        if s1.events.len() > 0 {
            assert(spec_has_pending_build(s1.events)) by {
                crate::system::lemma_drain_wf(s.structures, s.events, t1);
                assert(s1.events[0].structure is Some);
            }
        }
    }
    assert(b1.0.events =~= seq![ev]);
    let s2 = spec_advance(b1.0, cfg, t2);
    assert(s2.events =~= seq![ev]) by {
        if t2 > b1.0.current_tick {
            assert(!spec_first_due(b1.0.events, t2));
        }
    }
    assert(s2.events[0].structure is Some);
    assert(spec_has_pending_build(s2.events));
}

/// Single in-flight build, second half: once the pending event's
/// completion tick is reached, the build slot is free again — a new
/// build is never refused for a pending build, and it succeeds
/// whenever the named structure exists and the advanced resources
/// afford its next level.
pub proof fn lemma_build_after_completion(
    s: SystemState,
    cfg: GalaxyConfig,
    t1: usize,
    st1: StructureType,
    t3: usize,
    st2: StructureType,
)
    requires
        spec_events_wf(s.structures, s.events),
        t1 >= s.current_tick,
        spec_build(s, cfg, t1, st1).1 is Ok,
        t3 >= spec_build(s, cfg, t1, st1).1->Ok_0.completion,
        t3 > t1,
    ensures
        spec_build(spec_build(s, cfg, t1, st1).0, cfg, t3, st2).1 != Result::<
            Event,
            GameError,
        >::Err(GameError::AlreadyBuilding),
        ({
            let s2 = spec_advance(spec_build(s, cfg, t1, st1).0, cfg, t3);
            let next = crate::resources::sat_add(
                spec_structure_level(s2.structures, st2) as int,
                1,
            ) as usize;
            spec_structure_exists(s2.structures, st2) && s2.resources.spec_affords(
                cfg.spec_structure_cost(st2, next as nat).resources,
            ) ==> spec_build(spec_build(s, cfg, t1, st1).0, cfg, t3, st2).1 is Ok
        }),
{
    let b1 = spec_build(s, cfg, t1, st1);
    let s1 = spec_advance(s, cfg, t1);
    let ev = b1.1->Ok_0;
    assert(s1.events.len() == 0) by {
        if s1.events.len() > 0 {
            assert(spec_has_pending_build(s1.events)) by {
                crate::system::lemma_drain_wf(s.structures, s.events, t1);
                assert(s1.events[0].structure is Some);
            }
        }
    }
    assert(b1.0.events =~= seq![ev]);
    assert(b1.0.current_tick == t1);
    let s2 = spec_advance(b1.0, cfg, t3);
    assert(spec_first_due(b1.0.events, t3));
    assert(b1.0.events.drop_first() =~= Seq::<Event>::empty());
    let applied = crate::system::spec_apply_event(b1.0.structures, ev);
    assert(crate::system::spec_drain(b1.0.structures, b1.0.events, t3) == crate::system::spec_drain(
        applied,
        b1.0.events.drop_first(),
        t3,
    ));
    assert(!spec_first_due(b1.0.events.drop_first(), t3));
    assert(s2.events.len() == 0);
    assert(!spec_has_pending_build(s2.events));
}

/// Reload fidelity: persisting a system means reading off its own
/// current tick, resources, structure levels and pending events, and
/// restoring means handing them back — flattening the structures to
/// (kind, level) pairs and back reproduces them exactly, so each
/// system keeps its individual tick rather than the galaxy's.
pub proof fn lemma_snapshot_round_trip(s: SystemState)
    ensures
        s.structures.map_values((|st: Structure| (st.name, st.level))).map_values(
            (|e: (StructureType, usize)| Structure { name: e.0, level: e.1 }),
        ) == s.structures,
        spec_events_wf(
            s.structures.map_values((|st: Structure| (st.name, st.level))).map_values(
                (|e: (StructureType, usize)| Structure { name: e.0, level: e.1 }),
            ),
            s.events,
        ) == spec_events_wf(s.structures, s.events),
{
    assert(s.structures.map_values((|st: Structure| (st.name, st.level))).map_values(
        (|e: (StructureType, usize)| Structure { name: e.0, level: e.1 }),
    ) =~= s.structures);
}

/// The affordability order really is the strict one: a holding equal
/// to the cost in two components and above it in the third does not
/// afford the cost, while a holding strictly above in all three, or
/// exactly equal in all three, does. It is exactly `>=` under the
/// partial order that [`Resources`] implements.
pub proof fn lemma_affordability_strictness(have: Resources, cost: Resources)
    ensures
        have.spec_affords(cost) <==> ((have.metal > cost.metal && have.crew > cost.crew
            && have.water > cost.water) || (have.metal == cost.metal && have.crew == cost.crew
            && have.water == cost.water)),
        have.spec_affords(cost) <==> (have.partial_cmp_spec(&cost) matches Option::Some(
            core::cmp::Ordering::Greater
            | core::cmp::Ordering::Equal,
        )),
{
}

} // verus!
