//! The per-system state machine.
//!
//! A [`System`] owns its resources, its structures and its pending
//! events, and advances itself lazily: every observation or mutation
//! carries the caller's tick, and the system first drains the events
//! that have come due and credits the whole production cycles that have
//! elapsed, before answering. Resource amounts are capped by the
//! system's storage, and additions saturate at `usize::MAX` so that no
//! arithmetic can overflow.

use vstd::prelude::*;

use crate::config::{GalaxyConfig, SystemConfig};
use crate::error::GameError;
use crate::resources::{min_int, sat_add, Cost, Resources};

verus! {

/// The kinds of structure a system can hold.
#[derive(Hash, Debug, Clone, Copy, PartialEq, Eq, Structural)]
pub enum StructureType {
    Colony,
    AsteroidMine,
    WaterHarvester,
    Hatchery,
    StorageDepot,
}

/// What happens when an event completes.
#[derive(Clone, Copy, Debug, PartialEq, Eq, Structural)]
pub enum EventCallback {
    Build,
}

/// A pending event in a system.
#[derive(Clone, Copy, Debug, PartialEq, Eq, Structural)]
pub struct Event {
    /// The tick at which the event completes.
    pub completion: usize,
    /// What completing the event does.
    pub action: EventCallback,
    /// The structure the event refers to.
    pub structure: Option<StructureType>,
}

pub type EventInfo = Event;

/// A structure in a system: its kind and its current level.
#[derive(Clone, Copy, Debug, PartialEq, Eq, Structural)]
pub struct Structure {
    pub name: StructureType,
    pub level: usize,
}

/// A system in the galaxy.
#[derive(Debug, Clone)]
pub struct System {
    /// Current tick this system state represents
    current_tick: usize,
    /// List of events that are happening in the system
    events: Vec<Event>,
    /// Current resources available in the system.
    resources: Resources,
    /// List of structures in the system.
    structures: Vec<Structure>,
}

/// The mathematical state of a system.
pub struct SystemState {
    pub current_tick: usize,
    pub resources: Resources,
    pub structures: Seq<Structure>,
    pub events: Seq<Event>,
}

impl View for System {
    type V = SystemState;

    closed spec fn view(&self) -> SystemState {
        SystemState {
            current_tick: self.current_tick,
            resources: self.resources,
            structures: self.structures@,
            events: self.events@,
        }
    }
}

/// The index of the first structure of kind `kind`, if any.
pub open spec fn spec_structure_index(structures: Seq<Structure>, kind: StructureType) -> Option<int>
    decreases structures.len(),
{
    if structures.len() == 0 {
        Option::None
    } else if structures[0].name == kind {
        Option::Some(0int)
    } else {
        match spec_structure_index(structures.drop_first(), kind) {
            Option::Some(i) => Option::Some(i + 1),
            Option::None => Option::None,
        }
    }
}

/// Whether a structure of kind `kind` exists.
pub open spec fn spec_structure_exists(structures: Seq<Structure>, kind: StructureType) -> bool {
    spec_structure_index(structures, kind) is Some
}

/// The level of the first structure of kind `kind`; 0 when absent.
pub open spec fn spec_structure_level(structures: Seq<Structure>, kind: StructureType) -> usize {
    match spec_structure_index(structures, kind) {
        Option::Some(i) => structures[i].level,
        Option::None => 0,
    }
}

/// A structure index is always in range and names its kind.
pub proof fn lemma_structure_index_in_range(structures: Seq<Structure>, kind: StructureType)
    ensures
        match spec_structure_index(structures, kind) {
            Option::Some(i) => 0 <= i < structures.len() && structures[i].name == kind,
            Option::None => forall|i: int| 0 <= i < structures.len() ==> structures[i].name != kind,
        },
    decreases structures.len(),
{
    if structures.len() > 0 && structures[0].name != kind {
        let rest = structures.drop_first();
        lemma_structure_index_in_range(rest, kind);
        let idx = spec_structure_index(rest, kind);
        if idx is Some {
            assert(structures[idx->Some_0 + 1] == rest[idx->Some_0]);
        } else {
            assert forall|i: int| 0 <= i < structures.len() implies structures[i].name != kind by {
                if i > 0 {
                    assert(rest[i - 1] == structures[i]);
                }
            }
        }
    }
}

/// Events sorted by completion tick.
pub open spec fn spec_events_sorted(events: Seq<Event>) -> bool {
    forall|i: int, j: int|
        0 <= i < j < events.len() ==> #[trigger] events[i].completion <= #[trigger] events[j].completion
}

/// A system state is well-formed when its pending events are sorted by
/// completion tick, every event names a structure that the system
/// actually holds, and at most one pending event is a build (a system
/// can only build one structure at a time).
pub open spec fn spec_events_wf(structures: Seq<Structure>, events: Seq<Event>) -> bool {
    &&& spec_events_sorted(events)
    &&& forall|i: int|
        0 <= i < events.len() ==> match (#[trigger] events[i]).structure {
            Option::Some(st) => spec_structure_exists(structures, st),
            Option::None => false,
        }
    &&& forall|i: int, j: int|
        0 <= i < j < events.len() ==> !((#[trigger] events[i]).structure is Some
            && (#[trigger] events[j]).structure is Some)
}

impl SystemState {
    /// Well-formedness of a system state.
    pub open spec fn wf(self) -> bool {
        spec_events_wf(self.structures, self.events)
    }
}

/// Insert an event into a sorted event list: after every event whose
/// completion tick is not later, before all later ones.
pub open spec fn spec_insert_event(events: Seq<Event>, e: Event) -> Seq<Event>
    decreases events.len(),
{
    if events.len() == 0 {
        seq![e]
    } else if events[0].completion <= e.completion {
        seq![events[0]] + spec_insert_event(events.drop_first(), e)
    } else {
        seq![e] + events
    }
}

/// Inserting into a sorted event list keeps it sorted, grows it by one,
/// and adds exactly the inserted event.
pub proof fn lemma_insert_event(events: Seq<Event>, e: Event)
    requires
        spec_events_sorted(events),
    ensures
        spec_events_sorted(spec_insert_event(events, e)),
        spec_insert_event(events, e).len() == events.len() + 1,
        forall|k: int|
            0 <= k < spec_insert_event(events, e).len() ==> (#[trigger] spec_insert_event(
                events,
                e,
            )[k] == e || events.contains(spec_insert_event(events, e)[k])),
        spec_insert_event(events, e).contains(e),
    decreases events.len(),
{
    let r = spec_insert_event(events, e);
    if events.len() == 0 {
        assert(r == seq![e]);
        assert(r[0] == e);
    } else if events[0].completion <= e.completion {
        let rest = events.drop_first();
        assert(spec_events_sorted(rest));
        lemma_insert_event(rest, e);
        let rr = spec_insert_event(rest, e);
        assert(r == seq![events[0]] + rr);
        assert forall|k: int| 0 <= k < r.len() implies (#[trigger] r[k] == e || events.contains(
            r[k],
        )) by {
            if k == 0 {
                assert(events[0] == r[0]);
                assert(events.contains(r[0]));
            } else {
                assert(r[k] == rr[k - 1]);
                if rr[k - 1] != e {
                    assert(rest.contains(rr[k - 1]));
                    let m = choose|m: int| 0 <= m < rest.len() && rest[m] == rr[k - 1];
                    assert(events[m + 1] == rest[m]);
                    assert(events.contains(rr[k - 1]));
                }
            }
        }
        assert forall|i: int, j: int| 0 <= i < j < r.len() implies #[trigger] r[i].completion
            <= #[trigger] r[j].completion by {
            if i == 0 {
                if r[j] == e {
                    assert(r[i].completion <= e.completion);
                } else {
                    assert(rr[j - 1] == r[j]);
                    if rr[j - 1] != e {
                        assert(rest.contains(rr[j - 1]));
                        let m = choose|m: int| 0 <= m < rest.len() && rest[m] == rr[j - 1];
                        assert(events[0].completion <= events[m + 1].completion);
                    }
                }
            } else {
                assert(rr[i - 1].completion <= rr[j - 1].completion);
            }
        }
        assert(rr.contains(e));
        let m = choose|m: int| 0 <= m < rr.len() && rr[m] == e;
        assert(r[m + 1] == e);
        assert(r.contains(e));
    } else {
        assert(r == seq![e] + events);
        assert(r[0] == e);
        assert forall|k: int| 0 <= k < r.len() implies (#[trigger] r[k] == e || events.contains(
            r[k],
        )) by {
            if k > 0 {
                assert(r[k] == events[k - 1]);
                assert(events.contains(events[k - 1]));
            }
        }
        assert forall|i: int, j: int| 0 <= i < j < r.len() implies #[trigger] r[i].completion
            <= #[trigger] r[j].completion by {
            if i == 0 {
                assert(r[j] == events[j - 1]);
                if j - 1 > 0 {
                    assert(events[0].completion <= events[j - 1].completion);
                }
                assert(e.completion <= events[j - 1].completion);
            } else {
                assert(r[i] == events[i - 1] && r[j] == events[j - 1]);
            }
        }
    }
}

/// The state of a freshly created system: the configured starting
/// resources and structure levels, no pending events.
pub open spec fn spec_new_system(tick: usize, sc: SystemConfig) -> SystemState {
    SystemState {
        current_tick: tick,
        resources: sc.resources,
        structures: sc.structures@.map_values(
            (|e: (StructureType, crate::config::StructureConfig)| Structure {
                name: e.0,
                level: e.1.starting_level,
            }),
        ),
        events: Seq::empty(),
    }
}

impl System {
    /// Create a new system.
    ///
    /// This takes a SystemConfig because there may be multiple system
    /// types in future.
    pub fn new(tick: usize, system_config: &SystemConfig, _galaxy_config: &GalaxyConfig) -> (r:
        System)
        ensures
            r@ == spec_new_system(tick, *system_config),
            r@.current_tick == tick,
            r@.resources == system_config.resources,
            r@.events == Seq::<Event>::empty(),
            r@.structures == system_config.structures@.map_values(
                (|e: (StructureType, crate::config::StructureConfig)| Structure {
                    name: e.0,
                    level: e.1.starting_level,
                }),
            ),
            r@.wf(),
    {
        let mut structures: Vec<Structure> = Vec::new();
        let mut i: usize = 0;
        let entries = &system_config.structures;
        while i < entries.len()
            invariant
                i <= entries.len(),
                structures@ == entries@.subrange(0, i as int).map_values(
                    (|e: (StructureType, crate::config::StructureConfig)| Structure {
                        name: e.0,
                        level: e.1.starting_level,
                    }),
                ),
            decreases entries.len() - i,
        {
            let e = &entries[i];
            structures.push(Structure { name: e.0, level: e.1.starting_level });
            proof {
                assert(entries@.subrange(0, i + 1) =~= entries@.subrange(0, i as int).push(
                    entries@[i as int],
                ));
                assert(entries@.subrange(0, i + 1).map_values(
                    (|e: (StructureType, crate::config::StructureConfig)| Structure {
                        name: e.0,
                        level: e.1.starting_level,
                    }),
                ) =~= entries@.subrange(0, i as int).map_values(
                    (|e: (StructureType, crate::config::StructureConfig)| Structure {
                        name: e.0,
                        level: e.1.starting_level,
                    }),
                ).push(Structure { name: entries@[i as int].0, level: entries@[i as int].1.starting_level }));
            }
            i = i + 1;
        }
        proof {
            assert(entries@.subrange(0, entries@.len() as int) =~= entries@);
        }
        System { current_tick: tick, events: Vec::new(), resources: system_config.resources, structures }
    }

    /// Create a system from previously persisted state.
    ///
    /// The caller restores exactly what was saved: the system's own
    /// current tick, its resources, its structures and its pending
    /// events. The events must satisfy the system invariant (sorted,
    /// each naming a structure that exists, at most one build pending);
    /// persisted state that was written by this library always does.
    pub fn from_database(
        current_tick: usize,
        resources: Resources,
        structures: Vec<(StructureType, usize)>,
        events: Vec<Event>,
    ) -> (r: System)
        requires
            spec_events_wf(
                structures@.map_values(
                    (|e: (StructureType, usize)| Structure { name: e.0, level: e.1 }),
                ),
                events@,
            ),
        ensures
            r@.current_tick == current_tick,
            r@.resources == resources,
            r@.events == events@,
            r@.structures == structures@.map_values(
                (|e: (StructureType, usize)| Structure { name: e.0, level: e.1 }),
            ),
            r@.wf(),
    {
        let mut converted: Vec<Structure> = Vec::new();
        let mut i: usize = 0;
        while i < structures.len()
            invariant
                i <= structures.len(),
                converted@ == structures@.subrange(0, i as int).map_values(
                    (|e: (StructureType, usize)| Structure { name: e.0, level: e.1 }),
                ),
            decreases structures.len() - i,
        {
            let e = &structures[i];
            converted.push(Structure { name: e.0, level: e.1 });
            proof {
                assert(structures@.subrange(0, i + 1) =~= structures@.subrange(0, i as int).push(
                    structures@[i as int],
                ));
                assert(structures@.subrange(0, i + 1).map_values(
                    (|e: (StructureType, usize)| Structure { name: e.0, level: e.1 }),
                ) =~= structures@.subrange(0, i as int).map_values(
                    (|e: (StructureType, usize)| Structure { name: e.0, level: e.1 }),
                ).push(Structure { name: structures@[i as int].0, level: structures@[i as int].1 }));
            }
            i = i + 1;
        }
        proof {
            assert(structures@.subrange(0, structures@.len() as int) =~= structures@);
        }
        System { current_tick, events, resources, structures: converted }
    }

    /// Get system resources (for persistence).
    pub fn get_resources(&self) -> (r: Resources)
        ensures
            r == self@.resources,
    {
        self.resources
    }

    /// Get current tick (for persistence).
    pub fn get_current_tick(&self) -> (r: usize)
        ensures
            r == self@.current_tick,
    {
        self.current_tick
    }

    /// Get system structures as a list of (type, level) pairs (for
    /// persistence).
    pub fn get_structures(&self) -> (r: Vec<(StructureType, usize)>)
        ensures
            r@ == self@.structures.map_values((|s: Structure| (s.name, s.level))),
    {
        let mut out: Vec<(StructureType, usize)> = Vec::new();
        let mut i: usize = 0;
        while i < self.structures.len()
            invariant
                i <= self.structures.len(),
                out@ == self.structures@.subrange(0, i as int).map_values(
                    (|s: Structure| (s.name, s.level)),
                ),
            decreases self.structures.len() - i,
        {
            let s = &self.structures[i];
            out.push((s.name, s.level));
            proof {
                assert(self.structures@.subrange(0, i + 1) =~= self.structures@.subrange(
                    0,
                    i as int,
                ).push(self.structures@[i as int]));
                assert(self.structures@.subrange(0, i + 1).map_values(
                    (|s: Structure| (s.name, s.level)),
                ) =~= self.structures@.subrange(0, i as int).map_values(
                    (|s: Structure| (s.name, s.level)),
                ).push((self.structures@[i as int].name, self.structures@[i as int].level)));
            }
            i = i + 1;
        }
        proof {
            assert(self.structures@.subrange(0, self.structures@.len() as int) =~= self.structures@);
        }
        out
    }

    /// Get system events (for persistence).
    pub fn get_events(&self) -> (r: &Vec<Event>)
        ensures
            r@ == self@.events,
    {
        &self.events
    }

    /// Get the index of the structure by type.
    ///
    /// The structure may not exist, so it returns an Option.
    fn structure(&self, structure: StructureType) -> (r: Option<usize>)
        ensures
            match r {
                Option::Some(i) => spec_structure_index(self@.structures, structure)
                    == Option::Some(i as int),
                Option::None => spec_structure_index(self@.structures, structure) is None,
            },
    {
        let mut i: usize = 0;
        proof {
            lemma_structure_index_skip(self.structures@, structure, 0);
        }
        while i < self.structures.len()
            invariant
                i <= self.structures.len(),
                forall|j: int| 0 <= j < i ==> (#[trigger] self.structures@[j]).name != structure,
                spec_structure_index(self@.structures, structure) == match spec_structure_index(
                    self@.structures.skip(i as int),
                    structure,
                ) {
                    Option::Some(k) => Option::Some(k + i),
                    Option::None => Option::None::<int>,
                },
            decreases self.structures.len() - i,
        {
            if self.structures[i].name == structure {
                return Option::Some(i);
            }
            proof {
                assert(self.structures@.skip(i as int).drop_first() =~= self.structures@.skip(
                    i + 1,
                ));
            }
            i = i + 1;
        }
        Option::None
    }

    /// Get the level of a structure.
    fn structure_level(&self, structure: StructureType) -> (r: usize)
        ensures
            r == spec_structure_level(self@.structures, structure),
    {
        proof {
            lemma_structure_index_in_range(self@.structures, structure);
        }
        if let Option::Some(index) = self.structure(structure) {
            self.structures[index].level
        } else {
            0
        }
    }

    /// Check if there is an event that needs to be processed.
    pub fn event_to_process(&mut self, tick: usize) -> (r: bool)
        ensures
            *final(self) == *old(self),
            r == spec_first_due(old(self)@.events, tick),
    {
        if let Option::Some(event) = self.events.first() {
            event.completion <= tick
        } else {
            false
        }
    }

    /// Register a new event.
    ///
    /// The event is kept sorted by its completion time; an event that
    /// ties with pending ones completes after them.
    pub fn register_event(&mut self, event: Event)
        ensures
            final(self)@.events == spec_insert_event(old(self)@.events, event),
            final(self)@.current_tick == old(self)@.current_tick,
            final(self)@.resources == old(self)@.resources,
            final(self)@.structures == old(self)@.structures,
    {
        let ghost orig = self.events@;
        let mut idx: usize = 0;
        while idx < self.events.len() && self.events[idx].completion <= event.completion
            invariant
                idx <= self.events.len(),
                self.events@ == orig,
                forall|j: int| 0 <= j < idx ==> (#[trigger] orig[j]).completion <= event.completion,
            decreases self.events.len() - idx,
        {
            idx = idx + 1;
        }
        self.events.insert(idx, event);
        proof {
            lemma_insert_event_at(orig, event, idx as int);
        }
    }
}

/// Whether the first pending event is due at `tick`.
pub open spec fn spec_first_due(events: Seq<Event>, tick: usize) -> bool {
    events.len() > 0 && events[0].completion <= tick
}

/// Apply one completed event to the structures: a finished build raises
/// the named structure's level by exactly one (the level saturates at
/// `usize::MAX`, which no reachable state attains). An event that names
/// no structure, or one the system does not hold, changes nothing; a
/// well-formed system never carries such an event.
pub open spec fn spec_apply_event(structures: Seq<Structure>, e: Event) -> Seq<Structure> {
    match e.structure {
        Option::Some(st) => match spec_structure_index(structures, st) {
            Option::Some(i) => structures.update(
                i,
                Structure { name: st, level: sat_add(structures[i].level as int, 1) as usize },
            ),
            Option::None => structures,
        },
        Option::None => structures,
    }
}

/// Drain every pending event that is due at `tick`, in completion
/// order, applying each to the structures; later events stay pending.
pub open spec fn spec_drain(structures: Seq<Structure>, events: Seq<Event>, tick: usize) -> (
    Seq<Structure>,
    Seq<Event>,
)
    decreases events.len(),
{
    if spec_first_due(events, tick) {
        spec_drain(spec_apply_event(structures, events[0]), events.drop_first(), tick)
    } else {
        (structures, events)
    }
}

/// Applying an event never changes which structures exist, nor their
/// order: only one level can rise.
pub proof fn lemma_apply_event_names(structures: Seq<Structure>, e: Event)
    ensures
        spec_apply_event(structures, e).len() == structures.len(),
        forall|k: int|
            0 <= k < structures.len() ==> (#[trigger] spec_apply_event(structures, e)[k]).name
                == structures[k].name,
{
    if e.structure is Some {
        lemma_structure_index_in_range(structures, e.structure->Some_0);
    }
}

/// Two structure lists with the same kinds at the same places index
/// every kind identically.
pub proof fn lemma_index_same_names(s1: Seq<Structure>, s2: Seq<Structure>, kind: StructureType)
    requires
        s1.len() == s2.len(),
        forall|k: int| 0 <= k < s1.len() ==> (#[trigger] s1[k]).name == s2[k].name,
    ensures
        spec_structure_index(s1, kind) == spec_structure_index(s2, kind),
    decreases s1.len(),
{
    if s1.len() > 0 {
        assert(s1[0].name == s2[0].name);
        let r1 = s1.drop_first();
        let r2 = s2.drop_first();
        assert forall|k: int| 0 <= k < r1.len() implies (#[trigger] r1[k]).name == r2[k].name by {
            assert(r1[k] == s1[k + 1] && r2[k] == s2[k + 1]);
        }
        lemma_index_same_names(r1, r2, kind);
    }
}

/// Draining one due event preserves well-formedness of what remains.
pub proof fn lemma_apply_event_wf(structures: Seq<Structure>, events: Seq<Event>)
    requires
        spec_events_wf(structures, events),
        events.len() > 0,
    ensures
        spec_events_wf(spec_apply_event(structures, events[0]), events.drop_first()),
{
    let s2 = spec_apply_event(structures, events[0]);
    let rest = events.drop_first();
    lemma_apply_event_names(structures, events[0]);
    assert forall|i: int| 0 <= i < rest.len() implies match (#[trigger] rest[i]).structure {
        Option::Some(st) => spec_structure_exists(s2, st),
        Option::None => false,
    } by {
        assert(rest[i] == events[i + 1]);
        let st = events[i + 1].structure->Some_0;
        lemma_index_same_names(structures, s2, st);
    }
    assert forall|i: int, j: int| 0 <= i < j < rest.len() implies !((#[trigger] rest[i]).structure
        is Some && (#[trigger] rest[j]).structure is Some) by {
        assert(rest[i] == events[i + 1] && rest[j] == events[j + 1]);
    }
    assert forall|i: int, j: int| 0 <= i < j < rest.len() implies #[trigger] rest[i].completion
        <= #[trigger] rest[j].completion by {
        assert(rest[i] == events[i + 1] && rest[j] == events[j + 1]);
    }
}

/// Well-formedness survives a whole drain.
pub proof fn lemma_drain_wf(structures: Seq<Structure>, events: Seq<Event>, tick: usize)
    requires
        spec_events_wf(structures, events),
    ensures
        spec_events_wf(
            spec_drain(structures, events, tick).0,
            spec_drain(structures, events, tick).1,
        ),
    decreases events.len(),
{
    if spec_first_due(events, tick) {
        lemma_apply_event_wf(structures, events);
        lemma_drain_wf(spec_apply_event(structures, events[0]), events.drop_first(), tick);
    }
}

/// The saturating sum of the production of the first `n` structures.
pub open spec fn spec_sum_production(
    structures: Seq<Structure>,
    cfg: GalaxyConfig,
    n: int,
) -> Resources
    recommends
        0 <= n <= structures.len(),
    decreases n,
{
    if n <= 0 {
        Resources { metal: 0, crew: 0, water: 0 }
    } else {
        spec_sum_production(structures, cfg, n - 1).spec_add(
            cfg.spec_structure_production(structures[n - 1].name, structures[n - 1].level as nat),
        )
    }
}

/// The production of a whole system: the saturating sum, structure by
/// structure, of each structure's production at its level.
pub open spec fn spec_production_of(structures: Seq<Structure>, cfg: GalaxyConfig) -> Resources {
    spec_sum_production(structures, cfg, structures.len() as int)
}

/// The saturating sum of the storage of the first `n` structures.
pub open spec fn spec_sum_storage(
    structures: Seq<Structure>,
    cfg: GalaxyConfig,
    n: int,
) -> Resources
    recommends
        0 <= n <= structures.len(),
    decreases n,
{
    if n <= 0 {
        Resources { metal: 0, crew: 0, water: 0 }
    } else {
        spec_sum_storage(structures, cfg, n - 1).spec_add(
            cfg.spec_structure_storage(structures[n - 1].name, structures[n - 1].level as nat),
        )
    }
}

/// The storage capacity of a whole system: the saturating sum of each
/// structure's storage at its level.
pub open spec fn spec_storage_of(structures: Seq<Structure>, cfg: GalaxyConfig) -> Resources {
    spec_sum_storage(structures, cfg, structures.len() as int)
}

/// The production interval of a rate: a resource produced `p` times per
/// 3600 ticks yields one unit every `3600 / p` ticks. A rate above 3600
/// yields one unit every tick.
pub open spec fn spec_interval(p: nat) -> nat
    recommends
        p >= 1,
{
    if (3600 as nat) / p == 0 {
        1
    } else {
        (3600 as nat) / p
    }
}

/// How many whole production cycles of rate `p` complete after tick `a`
/// and by tick `b`.
pub open spec fn spec_cycles(p: nat, a: nat, b: nat) -> int
    recommends
        p >= 1,
        a <= b,
{
    b as int / spec_interval(p) as int - a as int / spec_interval(p) as int
}

/// One resource amount after advancing from tick `a` to tick `b`: a
/// resource with production gains its completed cycles; every
/// component, produced or not, is clamped to its storage capacity, so
/// an advance always restores the storage invariant.
pub open spec fn spec_new_amount(old: nat, p: nat, cap: nat, a: nat, b: nat) -> nat
    recommends
        a <= b,
{
    if p == 0 {
        min_int(old as int, cap as int) as nat
    } else {
        min_int(old as int + spec_cycles(p, a, b), cap as int) as nat
    }
}

/// All three resource amounts after advancing from tick `a` to `b`.
pub open spec fn spec_produce(
    res: Resources,
    prod: Resources,
    stor: Resources,
    a: usize,
    b: usize,
) -> Resources
    recommends
        a <= b,
{
    Resources {
        metal: spec_new_amount(res.metal as nat, prod.metal as nat, stor.metal as nat, a as nat, b as nat) as usize,
        crew: spec_new_amount(res.crew as nat, prod.crew as nat, stor.crew as nat, a as nat, b as nat) as usize,
        water: spec_new_amount(res.water as nat, prod.water as nat, stor.water as nat, a as nat, b as nat) as usize,
    }
}

/// The whole state of a system after it advances to `tick`: no change
/// when `tick` is not later than the system's own; otherwise every due
/// event is drained in order, each resource gains its completed
/// production cycles, and every component is clamped to the storage
/// capacity of the updated structures.
pub open spec fn spec_advance(s: SystemState, cfg: GalaxyConfig, tick: usize) -> SystemState {
    if tick <= s.current_tick {
        s
    } else {
        let drained = spec_drain(s.structures, s.events, tick);
        let prod = spec_production_of(drained.0, cfg);
        let stor = spec_storage_of(drained.0, cfg);
        SystemState {
            current_tick: tick,
            resources: spec_produce(s.resources, prod, stor, s.current_tick, tick),
            structures: drained.0,
            events: drained.1,
        }
    }
}

impl System {
    /// Process all events that are expected to happen by `tick`.
    pub fn process_events(&mut self, tick: usize, _galaxy_config: &GalaxyConfig)
        requires
            old(self)@.wf(),
        ensures
            final(self)@.structures == spec_drain(old(self)@.structures, old(self)@.events, tick).0,
            final(self)@.events == spec_drain(old(self)@.structures, old(self)@.events, tick).1,
            final(self)@.resources == old(self)@.resources,
            final(self)@.current_tick == old(self)@.current_tick,
            final(self)@.wf(),
    {
        let ghost orig = self@;
        while self.event_to_process(tick)
            invariant
                self@.wf(),
                self@.resources == orig.resources,
                self@.current_tick == orig.current_tick,
                spec_drain(orig.structures, orig.events, tick) == spec_drain(
                    self@.structures,
                    self@.events,
                    tick,
                ),
            decreases self@.events.len(),
        {
            let ghost pre = self@;
            let event = self.events.remove(0);
            proof {
                assert(pre.events[0] == event);
                assert(self.events@ =~= pre.events.drop_first());
                lemma_apply_event_wf(pre.structures, pre.events);
            }
            match event.structure {
                Option::Some(st) => {
                    match self.structure(st) {
                        Option::Some(index) => {
                            proof {
                                lemma_structure_index_in_range(self.structures@, st);
                            }
                            let level = self.structures[index].level;
                            let new_level = if level < usize::MAX {
                                level + 1
                            } else {
                                level
                            };
                            let slot = &mut self.structures[index];
                            *slot = Structure { name: st, level: new_level };
                            proof {
                                assert(self.structures@ =~= spec_apply_event(
                                    pre.structures,
                                    event,
                                ));
                            }
                        },
                        Option::None => {
                            proof {
                                // a well-formed system never queues an
                                // event for a structure it does not hold
                                assert(false);
                            }
                        },
                    }
                },
                Option::None => {
                    proof {
                        // a well-formed system never queues an event
                        // without a structure
                        assert(false);
                    }
                },
            }
        }
    }
}

impl System {
    /// Get the production of the system, per 3600 ticks.
    pub fn get_production(&mut self, _tick: usize, galaxy_config: &GalaxyConfig) -> (r: Resources)
        requires
            galaxy_config.wf(),
        ensures
            *final(self) == *old(self),
            r == spec_production_of(old(self)@.structures, *galaxy_config),
    {
        let mut production = Resources { metal: 0, crew: 0, water: 0 };
        let mut i: usize = 0;
        while i < self.structures.len()
            invariant
                i <= self.structures.len(),
                galaxy_config.wf(),
                production == spec_sum_production(self.structures@, *galaxy_config, i as int),
            decreases self.structures.len() - i,
        {
            let s = &self.structures[i];
            let production_config = galaxy_config.get_structure_production(s.name, s.level);
            production = production.saturating_add(production_config);
            i = i + 1;
        }
        production
    }

    /// Get the available resource storage in the system.
    fn get_storage(&mut self, _tick: usize, galaxy_config: &GalaxyConfig) -> (r: Resources)
        requires
            galaxy_config.wf(),
        ensures
            *final(self) == *old(self),
            r == spec_storage_of(old(self)@.structures, *galaxy_config),
    {
        let mut storage = Resources { metal: 0, crew: 0, water: 0 };
        let mut i: usize = 0;
        while i < self.structures.len()
            invariant
                i <= self.structures.len(),
                galaxy_config.wf(),
                storage == spec_sum_storage(self.structures@, *galaxy_config, i as int),
            decreases self.structures.len() - i,
        {
            let s = &self.structures[i];
            let storage_config = galaxy_config.get_structure_storage(s.name, s.level);
            storage = storage.saturating_add(storage_config);
            i = i + 1;
        }
        storage
    }

    /// Advance one resource amount from tick `a` to tick `b`.
    fn produce_amount(old_amount: usize, p: usize, cap: usize, a: usize, b: usize) -> (r: usize)
        requires
            a <= b,
        ensures
            r == spec_new_amount(old_amount as nat, p as nat, cap as nat, a as nat, b as nat),
    {
        if p == 0 {
            // no production: nothing is gained, but the storage cap
            // still holds
            return if old_amount > cap {
                cap
            } else {
                old_amount
            };
        }
        let d = 3600 / p;
        let interval = if d == 0 {
            1
        } else {
            d
        };
        let start_cycle = a / interval;
        let end_cycle = b / interval;
        proof {
            vstd::arithmetic::div_mod::lemma_div_is_ordered(a as int, b as int, interval as int);
        }
        let cycles = end_cycle - start_cycle;
        let grown = crate::resources::sat_add_usize(old_amount, cycles);
        if grown > cap {
            cap
        } else {
            grown
        }
    }

    /// Update the system state to a given tick, draining due events and
    /// calculating resource production.
    pub fn update_to_tick(&mut self, new_tick: usize, galaxy_config: &GalaxyConfig)
        requires
            old(self)@.wf(),
            galaxy_config.wf(),
        ensures
            final(self)@ == spec_advance(old(self)@, *galaxy_config, new_tick),
            final(self)@.wf(),
    {
        if new_tick <= self.current_tick {
            return;  // No time has passed or going backwards
        }
        let ghost orig = self@;

        // Process any events that should complete before the new tick
        self.process_events(new_tick, galaxy_config);

        // Calculate resource production for each structure
        let production = self.get_production(new_tick, galaxy_config);
        let storage = self.get_storage(new_tick, galaxy_config);

        // Credit the whole production cycles completed for each
        // resource independently, under the storage cap
        let a = self.current_tick;
        self.resources = Resources {
            metal: Self::produce_amount(self.resources.metal, production.metal, storage.metal, a, new_tick),
            crew: Self::produce_amount(self.resources.crew, production.crew, storage.crew, a, new_tick),
            water: Self::produce_amount(self.resources.water, production.water, storage.water, a, new_tick),
        };
        self.current_tick = new_tick;
        proof {
            assert(self@ == spec_advance(orig, *galaxy_config, new_tick));
        }
    }
}

/// The triangular number of a level, capped at `usize::MAX`: a
/// structure at level `l` contributes `1 + 2 + ... + l` to the score.
pub open spec fn spec_triangle(l: nat) -> nat {
    min_int((l * (l + 1) / 2) as int, usize::MAX as int) as nat
}

/// The saturating sum of the triangular scores of the first `n`
/// structures.
pub open spec fn spec_sum_score(structures: Seq<Structure>, n: int) -> nat
    recommends
        0 <= n <= structures.len(),
    decreases n,
{
    if n <= 0 {
        0
    } else {
        sat_add(
            spec_sum_score(structures, n - 1) as int,
            spec_triangle(structures[n - 1].level as nat) as int,
        ) as nat
    }
}

/// The score of a system: the sum over its structures of the
/// triangular number of their level.
pub open spec fn spec_score(structures: Seq<Structure>) -> nat {
    spec_sum_score(structures, structures.len() as int)
}

/// The triangular number of a level, capped at `usize::MAX`.
fn triangle(l: usize) -> (r: usize)
    ensures
        r == spec_triangle(l as nat),
{
    proof {
        assert(usize::MAX <= u64::MAX);
        assert((l as u128) * (l as u128) + (l as u128) <= u128::MAX) by (nonlinear_arith)
            requires
                l as u128 <= u64::MAX as u128,
        ;
        assert((l as int) * ((l as int) + 1) == (l as int) * (l as int) + (l as int)) by (nonlinear_arith);
    }
    let x: u128 = (l as u128) * (l as u128) + (l as u128);
    let t: u128 = x / 2;
    if t > usize::MAX as u128 {
        usize::MAX
    } else {
        t as usize
    }
}

/// Whether any pending event is a build.
pub open spec fn spec_has_pending_build(events: Seq<Event>) -> bool {
    exists|i: int| 0 <= i < events.len() && (#[trigger] events[i]).structure is Some
}

/// The state and result of a build request at `tick`: the system first
/// advances to `tick`; the request is refused while another build is
/// pending, for a structure the system does not hold, and when the
/// resources do not afford the cost of the next level; otherwise the
/// cost is deducted and a build-completion event is queued after the
/// cost's duration.
pub open spec fn spec_build(
    s: SystemState,
    cfg: GalaxyConfig,
    tick: usize,
    structure: StructureType,
) -> (SystemState, Result<Event, GameError>) {
    let s1 = spec_advance(s, cfg, tick);
    if spec_has_pending_build(s1.events) {
        (s1, Result::Err(GameError::AlreadyBuilding))
    } else if !spec_structure_exists(s1.structures, structure) {
        (s1, Result::Err(GameError::StructureNotFound))
    } else {
        let next_level = sat_add(spec_structure_level(s1.structures, structure) as int, 1) as usize;
        let cost = cfg.spec_structure_cost(structure, next_level as nat);
        if s1.resources.spec_affords(cost.resources) {
            let ev = Event {
                completion: sat_add(tick as int, cost.ticks as int) as usize,
                action: EventCallback::Build,
                structure: Option::Some(structure),
            };
            (
                SystemState {
                    current_tick: s1.current_tick,
                    resources: s1.resources.spec_sub(cost.resources),
                    structures: s1.structures,
                    events: spec_insert_event(s1.events, ev),
                },
                Result::Ok(ev),
            )
        } else {
            (s1, Result::Err(GameError::InsufficientResources))
        }
    }
}

impl System {
    /// Get the current metal amount at `tick`, advancing the system.
    pub fn metal(&mut self, tick: usize, galaxy_config: &GalaxyConfig) -> (r: usize)
        requires
            old(self)@.wf(),
            galaxy_config.wf(),
        ensures
            final(self)@ == spec_advance(old(self)@, *galaxy_config, tick),
            final(self)@.wf(),
            r == final(self)@.resources.metal,
    {
        self.update_to_tick(tick, galaxy_config);
        self.resources.metal
    }

    /// Get the current water amount at `tick`, advancing the system.
    pub fn water(&mut self, tick: usize, galaxy_config: &GalaxyConfig) -> (r: usize)
        requires
            old(self)@.wf(),
            galaxy_config.wf(),
        ensures
            final(self)@ == spec_advance(old(self)@, *galaxy_config, tick),
            final(self)@.wf(),
            r == final(self)@.resources.water,
    {
        self.update_to_tick(tick, galaxy_config);
        self.resources.water
    }

    /// Get the current crew count at `tick`, advancing the system.
    pub fn crew(&mut self, tick: usize, galaxy_config: &GalaxyConfig) -> (r: usize)
        requires
            old(self)@.wf(),
            galaxy_config.wf(),
        ensures
            final(self)@ == spec_advance(old(self)@, *galaxy_config, tick),
            final(self)@.wf(),
            r == final(self)@.resources.crew,
    {
        self.update_to_tick(tick, galaxy_config);
        self.resources.crew
    }

    /// Get the current resources of the system at `tick`, advancing it.
    pub fn resources(&mut self, tick: usize, galaxy_config: &GalaxyConfig) -> (r: Resources)
        requires
            old(self)@.wf(),
            galaxy_config.wf(),
        ensures
            final(self)@ == spec_advance(old(self)@, *galaxy_config, tick),
            final(self)@.wf(),
            r == final(self)@.resources,
    {
        self.update_to_tick(tick, galaxy_config);
        self.resources
    }

    /// Get the score of a system at `tick`, advancing it.
    ///
    /// The score is the summation of every level of every structure in
    /// the system: a structure with a level of 4 contributes
    /// 1+2+3+4=10 to the score.
    pub fn score(&mut self, tick: usize, galaxy_config: &GalaxyConfig) -> (r: usize)
        requires
            old(self)@.wf(),
            galaxy_config.wf(),
        ensures
            final(self)@ == spec_advance(old(self)@, *galaxy_config, tick),
            final(self)@.wf(),
            r == spec_score(final(self)@.structures),
    {
        self.update_to_tick(tick, galaxy_config);
        let mut total: usize = 0;
        let mut i: usize = 0;
        while i < self.structures.len()
            invariant
                i <= self.structures.len(),
                total == spec_sum_score(self.structures@, i as int),
            decreases self.structures.len() - i,
        {
            let t = triangle(self.structures[i].level);
            total = crate::resources::sat_add_usize(total, t);
            i = i + 1;
        }
        total
    }

    /// Build a structure.
    ///
    /// The system first advances to `tick`. Only one structure can be
    /// built at a time; the structure must exist on the system; and the
    /// cost of its next level must be afforded by the system's
    /// resources (strictly greater in all three components, or exactly
    /// equal). On success the cost is deducted and the completion event
    /// is returned and queued.
    pub fn build(&mut self, tick: usize, galaxy_config: &GalaxyConfig, structure: StructureType) -> (r:
        Result<Event, GameError>)
        requires
            old(self)@.wf(),
            galaxy_config.wf(),
        ensures
            final(self)@ == spec_build(old(self)@, *galaxy_config, tick, structure).0,
            r == spec_build(old(self)@, *galaxy_config, tick, structure).1,
            final(self)@.wf(),
    {
        self.update_to_tick(tick, galaxy_config);
        // Check if we're already building a structure, we can only
        // build one at a time
        let mut i: usize = 0;
        let mut pending: bool = false;
        while i < self.events.len()
            invariant
                i <= self.events.len(),
                pending == exists|j: int|
                    0 <= j < i && (#[trigger] self.events@[j]).structure is Some,
            decreases self.events.len() - i,
        {
            if self.events[i].structure.is_some() {
                pending = true;
            }
            i = i + 1;
        }
        if pending {
            return Result::Err(GameError::AlreadyBuilding);
        }
        if self.structure(structure).is_some() {
            // Verify if the structure can be built
            let level = self.structure_level(structure);
            let next_level = crate::resources::sat_add_usize(level, 1);
            let cost = galaxy_config.get_structure_cost(structure, next_level);
            if self.resources.affords(&cost.resources) {
                proof {
                    crate::resources::lemma_affords_covers(self.resources, cost.resources);
                }
                // Deduct the cost
                self.resources = self.resources.minus(cost.resources);
                // Add a callback for the build completion
                let event = Event {
                    completion: crate::resources::sat_add_usize(tick, cost.ticks),
                    action: EventCallback::Build,
                    structure: Option::Some(structure),
                };
                let ghost before = self@;
                proof {
                    // no pending build and all pending events are
                    // builds: the event list is empty
                    if before.events.len() > 0 {
                        assert(before.events[0].structure is Some);
                    }
                    assert(before.events.len() == 0);
                }
                self.register_event(event);
                proof {
                    assert(self@.events =~= seq![event]);
                }
                Result::Ok(event)
            } else {
                // Not enough resources
                Result::Err(GameError::InsufficientResources)
            }
        } else {
            Result::Err(GameError::StructureNotFound)
        }
    }
}

/// A summary of a whole system.
#[derive(Clone, Debug, PartialEq)]
pub struct SystemInfo {
    /// Computed score of the system
    pub score: usize,
    /// Resources in the system.
    pub resources: Resources,
    /// Production of the system.
    ///
    /// Given in units per hour (3600 ticks).
    pub production: Resources,
    /// Structure levels
    pub structures: Vec<(StructureType, usize)>,
    /// Events in flight
    pub events: Vec<Event>,
}

/// Info for a specific structure.
///
/// Lots of details are optional, as they don't all apply to all
/// structures.
#[derive(Clone, Debug, PartialEq)]
pub struct StructureInfo {
    /// Level of the structure.
    pub level: usize,
    /// Production of the structure, if any.
    pub production: Option<Resources>,
    /// Things that this structure can build, if any.
    pub builds: Option<Vec<(StructureType, Cost)>>,
}

/// Info to use in return values.
///
/// Stores SystemInfo and StructureInfo.
#[derive(Clone, Debug)]
pub enum Details {
    System(SystemInfo),
    Structure(StructureInfo),
}

impl System {
    /// Updates pending events based on the current system state.
    ///
    /// Only build events exist, and their completion times are fixed by
    /// the cost that was paid, so there is nothing to reschedule.
    pub fn update_events(&mut self, _tick: usize, _galaxy_config: &GalaxyConfig)
        ensures
            *final(self) == *old(self),
    {
    }

    /// A copy of this system whose state is known to be the same.
    pub fn duplicate(&self) -> (r: System)
        ensures
            r@ == self@,
    {
        let mut structures: Vec<Structure> = Vec::new();
        let mut i: usize = 0;
        while i < self.structures.len()
            invariant
                i <= self.structures.len(),
                structures@ == self.structures@.subrange(0, i as int),
            decreases self.structures.len() - i,
        {
            structures.push(self.structures[i]);
            proof {
                assert(self.structures@.subrange(0, i + 1) =~= self.structures@.subrange(
                    0,
                    i as int,
                ).push(self.structures@[i as int]));
            }
            i = i + 1;
        }
        proof {
            assert(self.structures@.subrange(0, self.structures@.len() as int) =~= self.structures@);
        }
        System {
            current_tick: self.current_tick,
            events: self.clone_events(),
            resources: self.resources,
            structures,
        }
    }

    /// A copy of the pending events.
    fn clone_events(&self) -> (r: Vec<Event>)
        ensures
            r@ == self@.events,
    {
        let mut out: Vec<Event> = Vec::new();
        let mut i: usize = 0;
        while i < self.events.len()
            invariant
                i <= self.events.len(),
                out@ == self.events@.subrange(0, i as int),
            decreases self.events.len() - i,
        {
            out.push(self.events[i]);
            proof {
                assert(self.events@.subrange(0, i + 1) =~= self.events@.subrange(0, i as int).push(
                    self.events@[i as int],
                ));
            }
            i = i + 1;
        }
        proof {
            assert(self.events@.subrange(0, self.events@.len() as int) =~= self.events@);
        }
        out
    }

    /// Get the details of the system at `tick`, advancing it.
    ///
    /// With a structure given, its level and production are reported;
    /// for the colony, also the cost of every structure's next level.
    /// Without one, the whole system is summarised.
    pub fn get_details(
        &mut self,
        tick: usize,
        galaxy_config: &GalaxyConfig,
        structure: Option<StructureType>,
    ) -> (r: Result<Details, GameError>)
        requires
            old(self)@.wf(),
            galaxy_config.wf(),
        ensures
            final(self)@ == spec_advance(old(self)@, *galaxy_config, tick),
            final(self)@.wf(),
            ({
                let s1 = spec_advance(old(self)@, *galaxy_config, tick);
                match (structure, r) {
                    (Option::Some(st), Result::Ok(Details::Structure(info))) => {
                        &&& info.level == spec_structure_level(s1.structures, st)
                        &&& info.production == Option::Some(
                            galaxy_config.spec_structure_production(
                                st,
                                spec_structure_level(s1.structures, st) as nat,
                            ),
                        )
                        &&& match info.builds {
                            Option::Some(b) => st == StructureType::Colony && b@
                                == s1.structures.map_values(
                                (|s: Structure| (
                                    s.name,
                                    galaxy_config.spec_structure_cost(
                                        s.name,
                                        sat_add(s.level as int, 1) as nat,
                                    ),
                                )),
                            ),
                            Option::None => st != StructureType::Colony,
                        }
                    },
                    (Option::None, Result::Ok(Details::System(info))) => {
                        &&& info.score == spec_score(s1.structures)
                        &&& info.resources == s1.resources
                        &&& info.production == spec_production_of(s1.structures, *galaxy_config)
                        &&& info.structures@ == s1.structures.map_values(
                            (|s: Structure| (s.name, s.level)),
                        )
                        &&& info.events@ == s1.events
                    },
                    _ => false,
                }
            }),
    {
        self.update_to_tick(tick, galaxy_config);
        if let Option::Some(st) = structure {
            let level = self.structure_level(st);
            let production_config = galaxy_config.get_structure_production(st, level);
            let mut details = StructureInfo {
                level,
                production: Option::Some(production_config),
                builds: Option::None,
            };
            if st == StructureType::Colony {
                let mut builds: Vec<(StructureType, Cost)> = Vec::new();
                let mut i: usize = 0;
                while i < self.structures.len()
                    invariant
                        i <= self.structures.len(),
                        galaxy_config.wf(),
                        builds@ == self.structures@.subrange(0, i as int).map_values(
                            (|s: Structure| (
                                s.name,
                                galaxy_config.spec_structure_cost(
                                    s.name,
                                    sat_add(s.level as int, 1) as nat,
                                ),
                            )),
                        ),
                    decreases self.structures.len() - i,
                {
                    let s = &self.structures[i];
                    let next_level = crate::resources::sat_add_usize(s.level, 1);
                    let cost = galaxy_config.get_structure_cost(s.name, next_level);
                    builds.push((s.name, cost));
                    proof {
                        assert(self.structures@.subrange(0, i + 1) =~= self.structures@.subrange(
                            0,
                            i as int,
                        ).push(self.structures@[i as int]));
                        assert(self.structures@.subrange(0, i + 1).map_values(
                            (|s: Structure| (
                                s.name,
                                galaxy_config.spec_structure_cost(
                                    s.name,
                                    sat_add(s.level as int, 1) as nat,
                                ),
                            )),
                        ) =~= self.structures@.subrange(0, i as int).map_values(
                            (|s: Structure| (
                                s.name,
                                galaxy_config.spec_structure_cost(
                                    s.name,
                                    sat_add(s.level as int, 1) as nat,
                                ),
                            )),
                        ).push(
                            (
                                self.structures@[i as int].name,
                                galaxy_config.spec_structure_cost(
                                    self.structures@[i as int].name,
                                    sat_add(self.structures@[i as int].level as int, 1) as nat,
                                ),
                            ),
                        ));
                    }
                    i = i + 1;
                }
                proof {
                    assert(self.structures@.subrange(0, self.structures@.len() as int)
                        =~= self.structures@);
                }
                details.builds = Option::Some(builds);
            }
            Result::Ok(Details::Structure(details))
        } else {
            let score = self.score(tick, galaxy_config);
            let production = self.get_production(tick, galaxy_config);
            let structures = self.get_structures();
            let events = self.clone_events();
            Result::Ok(
                Details::System(
                    SystemInfo { score, resources: self.resources, production, structures, events },
                ),
            )
        }
    }
}

/// Shifting the start of the search shifts the found index.
proof fn lemma_structure_index_skip(structures: Seq<Structure>, kind: StructureType, i: int)
    requires
        0 <= i <= structures.len(),
        forall|j: int| 0 <= j < i ==> (#[trigger] structures[j]).name != kind,
    ensures
        spec_structure_index(structures, kind) == match spec_structure_index(
            structures.skip(i),
            kind,
        ) {
            Option::Some(k) => Option::Some(k + i),
            Option::None => Option::None::<int>,
        },
    decreases i,
{
    if i == 0 {
        assert(structures.skip(0) =~= structures);
    } else {
        lemma_structure_index_skip(structures, kind, i - 1);
        assert(structures.skip(i - 1).drop_first() =~= structures.skip(i));
        assert(structures.skip(i - 1)[0] == structures[i - 1]);
    }
}

/// Inserting at the position found by a linear scan of a sorted list
/// produces exactly the sorted insertion.
proof fn lemma_insert_event_at(events: Seq<Event>, e: Event, idx: int)
    requires
        0 <= idx <= events.len(),
        forall|j: int| 0 <= j < idx ==> (#[trigger] events[j]).completion <= e.completion,
        idx < events.len() ==> events[idx].completion > e.completion,
    ensures
        events.insert(idx, e) == spec_insert_event(events, e),
    decreases idx,
{
    if events.len() == 0 {
        assert(events.insert(0, e) =~= seq![e]);
    } else if idx == 0 {
        assert(events[0].completion > e.completion);
        assert(events.insert(0, e) =~= seq![e] + events);
    } else {
        assert(events[0].completion <= e.completion);
        let rest = events.drop_first();
        assert(forall|j: int| 0 <= j < idx - 1 ==> (#[trigger] rest[j]).completion <= e.completion);
        assert(idx - 1 < rest.len() ==> rest[idx - 1].completion > e.completion);
        lemma_insert_event_at(rest, e, idx - 1);
        assert(events.insert(idx, e) =~= seq![events[0]] + rest.insert(idx - 1, e));
        assert(spec_insert_event(events, e) == seq![events[0]] + spec_insert_event(rest, e));
    }
}

} // verus!
