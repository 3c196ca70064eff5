//! A galaxy: a collection of systems keyed by coordinate, gated by a
//! monotonic clock.
//!
//! All mutation flows through the galaxy, which first checks that the
//! caller's tick does not go backwards, then delegates to the addressed
//! system, and finally records which coordinates changed so that the
//! persistence layer knows what to write out.

use vstd::prelude::*;

use crate::config::GalaxyConfig;
use crate::error::GameError;
use crate::system::{
    spec_advance, spec_build, spec_new_system, Details, Event, StructureType, System, SystemState,
};

verus! {

/// Coords for systems.
#[derive(Debug, Clone, Copy, PartialEq, Eq, Hash, Structural)]
pub struct Coords {
    pub x: usize,
    pub y: usize,
}

impl From<(usize, usize)> for Coords {
    fn from(coords: (usize, usize)) -> (r: Coords)
        ensures
            r == (Coords { x: coords.0, y: coords.1 }),
    {
        Coords { x: coords.0, y: coords.1 }
    }
}

impl vstd::std_specs::convert::FromSpecImpl<(usize, usize)> for Coords {
    open spec fn obeys_from_spec() -> bool {
        true
    }

    open spec fn from_spec(coords: (usize, usize)) -> Coords {
        Coords { x: coords.0, y: coords.1 }
    }
}

/// The mathematical state of a galaxy.
pub struct GalaxyState {
    pub config: GalaxyConfig,
    pub systems: Seq<(Coords, System)>,
    pub tick: usize,
    pub dirty: Seq<Coords>,
    pub needs_persist: bool,
}

/// The index of the system at `coords`, if any.
pub open spec fn spec_sys_index(systems: Seq<(Coords, System)>, coords: Coords) -> Option<int>
    decreases systems.len(),
{
    if systems.len() == 0 {
        Option::None
    } else if systems[0].0 == coords {
        Option::Some(0int)
    } else {
        match spec_sys_index(systems.drop_first(), coords) {
            Option::Some(i) => Option::Some(i + 1),
            Option::None => Option::None,
        }
    }
}

/// Whether a system exists at `coords`.
pub open spec fn spec_has_system(systems: Seq<(Coords, System)>, coords: Coords) -> bool {
    spec_sys_index(systems, coords) is Some
}

/// A found index is in range, names its coordinate, and exists exactly
/// when some entry carries the coordinate.
pub proof fn lemma_sys_index_in_range(systems: Seq<(Coords, System)>, coords: Coords)
    ensures
        match spec_sys_index(systems, coords) {
            Option::Some(i) => 0 <= i < systems.len() && systems[i].0 == coords,
            Option::None => forall|i: int| 0 <= i < systems.len() ==> systems[i].0 != coords,
        },
    decreases systems.len(),
{
    if systems.len() > 0 && systems[0].0 != coords {
        let rest = systems.drop_first();
        lemma_sys_index_in_range(rest, coords);
        let idx = spec_sys_index(rest, coords);
        if idx is Some {
            assert(systems[idx->Some_0 + 1] == rest[idx->Some_0]);
        } else {
            assert forall|i: int| 0 <= i < systems.len() implies systems[i].0 != coords by {
                if i > 0 {
                    assert(rest[i - 1] == systems[i]);
                }
            }
        }
    }
}

/// Mark a coordinate dirty: a set-style insertion.
pub open spec fn spec_mark_dirty(dirty: Seq<Coords>, coords: Coords) -> Seq<Coords> {
    if dirty.contains(coords) {
        dirty
    } else {
        dirty.push(coords)
    }
}

/// No coordinate appears twice among the dirty marks.
pub open spec fn spec_dirty_unique(dirty: Seq<Coords>) -> bool {
    forall|i: int, j: int|
        0 <= i < j < dirty.len() ==> (#[trigger] dirty[i]) != (#[trigger] dirty[j])
}

/// A galaxy: its configuration, its systems, the galaxy-wide clock,
/// and the bookkeeping of which systems still need to be persisted.
#[derive(Debug, Clone)]
pub struct Galaxy {
    /// Cached configuration for the galaxy
    config: GalaxyConfig,
    /// All the systems in the galaxy
    systems: Vec<(Coords, System)>,
    /// The most recent tick
    ///
    /// This is used to ensure that events can only arrive in order
    tick: usize,
    /// Track which systems have changed and need persistence
    dirty_systems: Vec<Coords>,
    /// Flag indicating if the galaxy needs to be persisted
    needs_persist: bool,
}

impl View for Galaxy {
    type V = GalaxyState;

    closed spec fn view(&self) -> GalaxyState {
        GalaxyState {
            config: self.config,
            systems: self.systems@,
            tick: self.tick,
            dirty: self.dirty_systems@,
            needs_persist: self.needs_persist,
        }
    }
}

impl GalaxyState {
    /// Well-formedness of a galaxy: a usable configuration, at most one
    /// system per coordinate, well-formed systems, and no coordinate
    /// marked dirty twice.
    pub open spec fn wf(self) -> bool {
        &&& self.config.wf()
        &&& forall|i: int, j: int|
            0 <= i < j < self.systems.len() ==> (#[trigger] self.systems[i]).0 != (
            #[trigger] self.systems[j]).0
        &&& forall|i: int| 0 <= i < self.systems.len() ==> (#[trigger] self.systems[i]).1@.wf()
        &&& spec_dirty_unique(self.dirty)
    }
}

/// Relies on `rand::thread_rng` and `rand::Rng::gen_range`: a randomly
/// drawn coordinate; nothing is promised beyond the inclusive bounds.
#[verifier::external_body]
fn random_coord(max_x: usize, max_y: usize) -> (r: (usize, usize))
    ensures
        r.0 <= max_x,
        r.1 <= max_y,
{
    let mut rng = rand::thread_rng();
    (rand::Rng::gen_range(&mut rng, 0..=max_x), rand::Rng::gen_range(&mut rng, 0..=max_y))
}

impl Galaxy {
    /// The index of the system at `coords`, if any.
    fn sys_index(&self, coords: Coords) -> (r: Option<usize>)
        ensures
            match r {
                Option::Some(i) => spec_sys_index(self@.systems, coords) == Option::Some(i as int),
                Option::None => spec_sys_index(self@.systems, coords) is None,
            },
    {
        proof {
            lemma_sys_index_skip(self.systems@, coords, 0);
        }
        let mut i: usize = 0;
        while i < self.systems.len()
            invariant
                i <= self.systems.len(),
                forall|j: int| 0 <= j < i ==> (#[trigger] self.systems@[j]).0 != coords,
                spec_sys_index(self@.systems, coords) == match spec_sys_index(
                    self@.systems.skip(i as int),
                    coords,
                ) {
                    Option::Some(k) => Option::Some(k + i),
                    Option::None => Option::None::<int>,
                },
            decreases self.systems.len() - i,
        {
            if self.systems[i].0 == coords {
                return Option::Some(i);
            }
            proof {
                assert(self.systems@.skip(i as int).drop_first() =~= self.systems@.skip(i + 1));
            }
            i = i + 1;
        }
        Option::None
    }

    /// Create a new Galaxy.
    ///
    /// Uses a custom configuration struct to set up all the details.
    /// Systems are placed at random coordinates; a drawn coordinate
    /// that is already taken is skipped, so the galaxy may hold fewer
    /// systems than the configured count — but never none, since the
    /// first draw always lands on an empty grid.
    pub fn new(config: GalaxyConfig, initial_tick: usize) -> (r: Galaxy)
        requires
            config.wf(),
        ensures
            r@.config == config,
            r@.tick == initial_tick,
            r@.dirty == Seq::<Coords>::empty(),
            !r@.needs_persist,
            r@.wf(),
            r@.systems.len() <= config.system_count,
            config.system_count > 0 ==> r@.systems.len() >= 1,
            forall|i: int|
                0 <= i < r@.systems.len() ==> (#[trigger] r@.systems[i]).0.x <= config.size.x
                    && r@.systems[i].0.y <= config.size.y,
            forall|i: int|
                0 <= i < r@.systems.len() ==> (#[trigger] r@.systems[i]).1@ == spec_new_system(
                    initial_tick,
                    config.systems,
                ),
    {
        let mut galaxy = Galaxy {
            config,
            systems: Vec::new(),
            tick: initial_tick,
            dirty_systems: Vec::new(),
            needs_persist: false,
        };
        let mut n: usize = 0;
        while n < galaxy.config.system_count
            invariant
                galaxy@.config == config,
                galaxy@.config.wf(),
                galaxy@.tick == initial_tick,
                galaxy@.dirty == Seq::<Coords>::empty(),
                !galaxy@.needs_persist,
                galaxy@.wf(),
                galaxy@.systems.len() <= n <= galaxy.config.system_count,
                n > 0 ==> galaxy@.systems.len() >= 1,
                forall|i: int|
                    0 <= i < galaxy@.systems.len() ==> (#[trigger] galaxy@.systems[i]).0.x
                        <= galaxy@.config.size.x && galaxy@.systems[i].0.y <= galaxy@.config.size.y,
                forall|i: int|
                    0 <= i < galaxy@.systems.len() ==> (#[trigger] galaxy@.systems[i]).1@
                        == spec_new_system(initial_tick, galaxy@.config.systems),
            decreases galaxy.config.system_count - n,
        {
            // Create a new system at a random location in the 2d space
            let (x, y) = random_coord(galaxy.config.size.x, galaxy.config.size.y);
            let coords = Coords { x, y };
            if galaxy.sys_index(coords).is_none() {
                let ghost before = galaxy@.systems;
                let system = System::new(initial_tick, &galaxy.config.systems, &galaxy.config);
                galaxy.systems.push((coords, system));
                proof {
                    lemma_sys_index_in_range(before, coords);
                    assert forall|i: int, j: int|
                        0 <= i < j < galaxy@.systems.len() implies (#[trigger] galaxy@.systems[i]).0
                        != (#[trigger] galaxy@.systems[j]).0 by {
                        if j == galaxy@.systems.len() - 1 {
                            assert(galaxy@.systems[i] == before[i]);
                        } else {
                            assert(galaxy@.systems[i] == before[i] && galaxy@.systems[j]
                                == before[j]);
                        }
                    }
                }
            } else {
                proof {
                    // a draw can only collide with a system already
                    // placed, so the galaxy is never left empty
                    lemma_sys_index_in_range(galaxy@.systems, coords);
                    assert(galaxy@.systems.len() >= 1);
                }
            }
            n = n + 1;
        }
        galaxy
    }

    /// Get a pointer to the Config.
    pub fn get_config(&self) -> (r: &GalaxyConfig)
        ensures
            *r == self@.config,
    {
        &self.config
    }

    /// Retrieve the full list of systems.
    pub fn systems(&self) -> (r: &Vec<(Coords, System)>)
        ensures
            r@ == self@.systems,
    {
        &self.systems
    }

    /// Mutable access to the systems, for reloading and maintenance.
    ///
    /// The caller is responsible for keeping the population valid: one
    /// system per coordinate, each well-formed.
    pub fn systems_mut(&mut self) -> (r: &mut Vec<(Coords, System)>)
        ensures
            (*r)@ == old(self)@.systems,
            final(self)@.systems == final(r)@,
            final(self)@.config == old(self)@.config,
            final(self)@.tick == old(self)@.tick,
            final(self)@.dirty == old(self)@.dirty,
            final(self)@.needs_persist == old(self)@.needs_persist,
    {
        &mut self.systems
    }

    /// Update the current tick, and verify we are not going back in
    /// time.
    pub(crate) fn update_tick(&mut self, tick: usize) -> (r: Result<(), GameError>)
        ensures
            final(self)@.config == old(self)@.config,
            final(self)@.systems == old(self)@.systems,
            final(self)@.dirty == old(self)@.dirty,
            final(self)@.needs_persist == old(self)@.needs_persist,
            match r {
                Result::Ok(()) => tick >= old(self)@.tick && final(self)@.tick == tick,
                Result::Err(e) => e == GameError::OutOfOrderTick && tick < old(self)@.tick
                    && final(self)@ == old(self)@,
            },
    {
        if tick < self.tick {
            return Result::Err(GameError::OutOfOrderTick);
        }
        self.tick = tick;
        Result::Ok(())
    }

    /// Mark a system as needing persistence.
    pub fn mark_system_dirty(&mut self, coords: Coords)
        ensures
            final(self)@.config == old(self)@.config,
            final(self)@.systems == old(self)@.systems,
            final(self)@.tick == old(self)@.tick,
            final(self)@.dirty == spec_mark_dirty(old(self)@.dirty, coords),
            final(self)@.needs_persist,
            old(self)@.wf() ==> final(self)@.wf(),
            spec_dirty_unique(old(self)@.dirty) ==> spec_dirty_unique(final(self)@.dirty),
    {
        let mut i: usize = 0;
        let mut found: bool = false;
        while i < self.dirty_systems.len()
            invariant
                i <= self.dirty_systems.len(),
                found == exists|j: int| 0 <= j < i && (#[trigger] self.dirty_systems@[j]) == coords,
            decreases self.dirty_systems.len() - i,
        {
            if self.dirty_systems[i] == coords {
                found = true;
            }
            i = i + 1;
        }
        proof {
            assert(found == self.dirty_systems@.contains(coords));
        }
        if !found {
            let ghost before = self.dirty_systems@;
            self.dirty_systems.push(coords);
            proof {
                if spec_dirty_unique(old(self)@.dirty) {
                    assert(before == old(self)@.dirty);
                    assert forall|a: int, b: int|
                        0 <= a < b < self.dirty_systems@.len() implies (
                    #[trigger] self.dirty_systems@[a]) != (#[trigger] self.dirty_systems@[b]) by {
                        if b == self.dirty_systems@.len() - 1 {
                            assert(self.dirty_systems@[a] == before[a]);
                            assert(before[a] != coords) by {
                                if before[a] == coords {
                                    assert(before.contains(coords));
                                }
                            }
                        } else {
                            assert(self.dirty_systems@[a] == before[a] && self.dirty_systems@[b]
                                == before[b]);
                        }
                    }
                }
            }
        }
        self.needs_persist = true;
    }

    /// The coordinates that changed since the last persistence.
    pub fn get_dirty_systems(&self) -> (r: &Vec<Coords>)
        ensures
            r@ == self@.dirty,
    {
        &self.dirty_systems
    }

    /// Whether anything changed since the last persistence.
    pub fn needs_persist(&self) -> (r: bool)
        ensures
            r == self@.needs_persist,
    {
        self.needs_persist
    }

    /// Forget all dirty marks, after a successful save.
    pub fn clear_dirty_flag(&mut self)
        ensures
            final(self)@.config == old(self)@.config,
            final(self)@.systems == old(self)@.systems,
            final(self)@.tick == old(self)@.tick,
            final(self)@.dirty == Seq::<Coords>::empty(),
            !final(self)@.needs_persist,
            old(self)@.wf() ==> final(self)@.wf(),
    {
        self.dirty_systems.clear();
        self.needs_persist = false;
    }

    /// Get the current tick.
    pub fn get_tick(&self) -> (r: usize)
        ensures
            r == self@.tick,
    {
        self.tick
    }
}

/// Mark every system's coordinate dirty, in order.
pub open spec fn spec_mark_all(dirty: Seq<Coords>, systems: Seq<(Coords, System)>, n: int) -> Seq<
    Coords,
>
    recommends
        0 <= n <= systems.len(),
    decreases n,
{
    if n <= 0 {
        dirty
    } else {
        spec_mark_dirty(spec_mark_all(dirty, systems, n - 1), systems[n - 1].0)
    }
}

impl Galaxy {
    /// Retrieve the details of a system, possibly scoped to a specific
    /// structure.
    ///
    /// The caller's tick must not go backwards; reading advances the
    /// addressed system to that tick, so a read can drain events and
    /// change resources, and the coordinate is marked dirty whenever
    /// the galaxy's clock moved or the read itself advanced the
    /// system (a system can lag its galaxy's clock, after a reload).
    pub fn get_details(
        &mut self,
        tick: usize,
        coords: Coords,
        structure: Option<StructureType>,
    ) -> (r: Result<Details, GameError>)
        requires
            old(self)@.wf(),
            spec_has_system(old(self)@.systems, coords),
        ensures
            final(self)@.wf(),
            final(self)@.config == old(self)@.config,
            tick < old(self)@.tick ==> r == Result::<Details, GameError>::Err(
                GameError::OutOfOrderTick,
            ) && final(self)@ == old(self)@,
            tick >= old(self)@.tick ==> ({
                let i = spec_sys_index(old(self)@.systems, coords)->Some_0;
                let s1 = spec_advance(old(self)@.systems[i].1@, old(self)@.config, tick);
                &&& final(self)@.tick == tick
                &&& final(self)@.systems.len() == old(self)@.systems.len()
                &&& forall|j: int|
                    0 <= j < old(self)@.systems.len() && j != i ==> final(self)@.systems[j] == old(self)@.systems[j]
                &&& final(self)@.systems[i].0 == coords
                &&& final(self)@.systems[i].1@ == s1
                &&& ((tick > old(self)@.tick || tick > old(self)@.systems[i].1@.current_tick)
                    ==> final(self)@.dirty == spec_mark_dirty(old(self)@.dirty, coords)
                        && final(self)@.needs_persist)
                &&& ((tick <= old(self)@.tick && tick <= old(self)@.systems[i].1@.current_tick)
                    ==> final(self)@.dirty == old(self)@.dirty && final(self)@.needs_persist
                    == old(self)@.needs_persist)
                &&& match (structure, r) {
                    (Option::Some(st), Result::Ok(Details::Structure(info))) => {
                        &&& info.level == crate::system::spec_structure_level(s1.structures, st)
                        &&& info.production == Option::Some(
                            old(self)@.config.spec_structure_production(
                                st,
                                crate::system::spec_structure_level(s1.structures, st) as nat,
                            ),
                        )
                        &&& match info.builds {
                            Option::Some(b) => st == StructureType::Colony && b@
                                == s1.structures.map_values(
                                (|s: crate::system::Structure| (
                                    s.name,
                                    old(self)@.config.spec_structure_cost(
                                        s.name,
                                        crate::resources::sat_add(s.level as int, 1) as nat,
                                    ),
                                )),
                            ),
                            Option::None => st != StructureType::Colony,
                        }
                    },
                    (Option::None, Result::Ok(Details::System(info))) => {
                        &&& info.score == crate::system::spec_score(s1.structures)
                        &&& info.resources == s1.resources
                        &&& info.production == crate::system::spec_production_of(
                            s1.structures,
                            old(self)@.config,
                        )
                        &&& info.structures@ == s1.structures.map_values(
                            (|s: crate::system::Structure| (s.name, s.level)),
                        )
                        &&& info.events@ == s1.events
                    },
                    _ => false,
                }
            }),
    {
        let old_tick = self.tick;
        match self.update_tick(tick) {
            Result::Err(e) => {
                return Result::Err(e);
            },
            Result::Ok(()) => {},
        }
        let index = match self.sys_index(coords) {
            Option::Some(i) => i,
            Option::None => {
                proof {
                    assert(false);
                }
                return Result::Err(GameError::GalaxyNotFound);
            },
        };
        proof {
            lemma_sys_index_in_range(self@.systems, coords);
        }
        let ghost pre = self@;
        let (c, mut sys) = self.systems.remove(index);
        let sys_old_tick = sys.get_current_tick();
        let result = sys.get_details(tick, &self.config, structure);
        self.systems.insert(index, (c, sys));
        proof {
            assert forall|j: int| 0 <= j < pre.systems.len() && j != index implies self@.systems[j]
                == pre.systems[j] by {}
            assert forall|a: int, b: int|
                0 <= a < b < self@.systems.len() implies (#[trigger] self@.systems[a]).0 != (
            #[trigger] self@.systems[b]).0 by {
                assert(pre.systems[a].0 == self@.systems[a].0);
                assert(pre.systems[b].0 == self@.systems[b].0);
            }
        }
        // Mark dirty if the clock moved, or if the read advanced the
        // addressed system (event processing and production as a side
        // effect of the read)
        if self.tick != old_tick || tick > sys_old_tick {
            self.mark_system_dirty(coords);
        }
        result
    }

    /// Build a structure in a system.
    ///
    /// The caller's tick must not go backwards; the addressed system is
    /// advanced to it and the build is attempted there. The coordinate
    /// is marked dirty on a successful build, and also whenever the
    /// galaxy's clock moved or the advance itself changed the system —
    /// a refused build can still have drained events on the way.
    pub fn build(&mut self, tick: usize, coords: Coords, structure: StructureType) -> (r: Result<
        Event,
        GameError,
    >)
        requires
            old(self)@.wf(),
            spec_has_system(old(self)@.systems, coords),
        ensures
            final(self)@.wf(),
            final(self)@.config == old(self)@.config,
            tick < old(self)@.tick ==> r == Result::<Event, GameError>::Err(
                GameError::OutOfOrderTick,
            ) && final(self)@ == old(self)@,
            tick >= old(self)@.tick ==> ({
                let i = spec_sys_index(old(self)@.systems, coords)->Some_0;
                let b = spec_build(old(self)@.systems[i].1@, old(self)@.config, tick, structure);
                &&& final(self)@.tick == tick
                &&& final(self)@.systems.len() == old(self)@.systems.len()
                &&& forall|j: int|
                    0 <= j < old(self)@.systems.len() && j != i ==> final(self)@.systems[j] == old(self)@.systems[j]
                &&& final(self)@.systems[i].0 == coords
                &&& final(self)@.systems[i].1@ == b.0
                &&& r == b.1
                &&& ((r is Ok || tick > old(self)@.tick
                    || tick > old(self)@.systems[i].1@.current_tick)
                    ==> final(self)@.dirty == spec_mark_dirty(old(self)@.dirty, coords)
                        && final(self)@.needs_persist)
                &&& ((r is Err && tick <= old(self)@.tick
                    && tick <= old(self)@.systems[i].1@.current_tick)
                    ==> final(self)@.dirty == old(self)@.dirty
                        && final(self)@.needs_persist == old(self)@.needs_persist)
            }),
    {
        let old_tick = self.tick;
        match self.update_tick(tick) {
            Result::Err(e) => {
                return Result::Err(e);
            },
            Result::Ok(()) => {},
        }
        let index = match self.sys_index(coords) {
            Option::Some(i) => i,
            Option::None => {
                proof {
                    assert(false);
                }
                return Result::Err(GameError::GalaxyNotFound);
            },
        };
        proof {
            lemma_sys_index_in_range(self@.systems, coords);
        }
        let ghost pre = self@;
        let (c, mut sys) = self.systems.remove(index);
        let sys_old_tick = sys.get_current_tick();
        let result = sys.build(tick, &self.config, structure);
        self.systems.insert(index, (c, sys));
        proof {
            assert forall|j: int| 0 <= j < pre.systems.len() && j != index implies self@.systems[j]
                == pre.systems[j] by {}
            assert forall|a: int, b: int|
                0 <= a < b < self@.systems.len() implies (#[trigger] self@.systems[a]).0 != (
            #[trigger] self@.systems[b]).0 by {
                assert(pre.systems[a].0 == self@.systems[a].0);
                assert(pre.systems[b].0 == self@.systems[b].0);
            }
        }
        // Mark for persistence on a successful build, and also when
        // the clock moved or the advance changed the system
        if result.is_ok() || self.tick != old_tick || tick > sys_old_tick {
            self.mark_system_dirty(coords);
        }
        result
    }

    /// Mark every system in the galaxy as needing persistence.
    pub fn mark_all_dirty(&mut self)
        ensures
            final(self)@.config == old(self)@.config,
            final(self)@.systems == old(self)@.systems,
            final(self)@.tick == old(self)@.tick,
            final(self)@.dirty == spec_mark_all(
                old(self)@.dirty,
                old(self)@.systems,
                old(self)@.systems.len() as int,
            ),
            final(self)@.needs_persist,
            old(self)@.wf() ==> final(self)@.wf(),
    {
        let ghost orig = self@;
        let mut j: usize = 0;
        while j < self.systems.len()
            invariant
                j <= self.systems.len(),
                self@.config == orig.config,
                self@.systems == orig.systems,
                self@.tick == orig.tick,
                self@.dirty == spec_mark_all(orig.dirty, orig.systems, j as int),
                j > 0 ==> self@.needs_persist,
                orig.wf() ==> self@.wf(),
                self@.needs_persist == orig.needs_persist || self@.needs_persist,
            decreases self.systems.len() - j,
        {
            let c = self.systems[j].0;
            self.mark_system_dirty(c);
            j = j + 1;
        }
        self.needs_persist = true;
    }

    /// Replace the systems (used when loading persisted state).
    ///
    /// The replacement must be a valid galaxy population: one system
    /// per coordinate, each well-formed.
    pub fn replace_systems(&mut self, systems: Vec<(Coords, System)>)
        requires
            old(self)@.wf(),
            forall|i: int, j: int|
                0 <= i < j < systems@.len() ==> (#[trigger] systems@[i]).0 != (
                #[trigger] systems@[j]).0,
            forall|i: int| 0 <= i < systems@.len() ==> (#[trigger] systems@[i]).1@.wf(),
        ensures
            final(self)@.config == old(self)@.config,
            final(self)@.tick == old(self)@.tick,
            final(self)@.systems == systems@,
            final(self)@.dirty == Seq::<Coords>::empty(),
            !final(self)@.needs_persist,
            final(self)@.wf(),
    {
        self.systems = systems;
        self.clear_dirty_flag();
    }

    /// Create a new system at a random free location.
    ///
    /// Up to 1000 random coordinates are tried; `None` when every try
    /// was already taken.
    pub fn create_user_system(&mut self, tick: usize) -> (r: Option<Coords>)
        requires
            old(self)@.wf(),
        ensures
            final(self)@.wf(),
            final(self)@.config == old(self)@.config,
            final(self)@.tick == old(self)@.tick,
            match r {
                Option::Some(coords) => {
                    &&& !spec_has_system(old(self)@.systems, coords)
                    &&& coords.x <= old(self)@.config.size.x
                    &&& coords.y <= old(self)@.config.size.y
                    &&& final(self)@.systems == old(self)@.systems.push(
                        (
                            coords,
                            final(self)@.systems.last().1,
                        ),
                    )
                    &&& final(self)@.systems.last().1@ == spec_new_system(
                        tick,
                        old(self)@.config.systems,
                    )
                    &&& final(self)@.dirty == spec_mark_dirty(old(self)@.dirty, coords)
                    &&& final(self)@.needs_persist
                },
                Option::None => final(self)@ == old(self)@,
            },
    {
        let max_attempts: usize = 1000;
        let mut attempt: usize = 0;
        while attempt < max_attempts
            invariant
                self@ == old(self)@,
                old(self)@.wf(),
            decreases max_attempts - attempt,
        {
            let (x, y) = random_coord(self.config.size.x, self.config.size.y);
            let coords = Coords { x, y };
            if self.sys_index(coords).is_none() {
                // Found an empty location, create a new system
                let ghost before = self@.systems;
                let system = System::new(tick, &self.config.systems, &self.config);
                self.systems.push((coords, system));
                proof {
                    lemma_sys_index_in_range(before, coords);
                    assert forall|a: int, b: int|
                        0 <= a < b < self@.systems.len() implies (#[trigger] self@.systems[a]).0
                        != (#[trigger] self@.systems[b]).0 by {
                        if b == self@.systems.len() - 1 {
                            assert(self@.systems[a] == before[a]);
                        } else {
                            assert(self@.systems[a] == before[a] && self@.systems[b] == before[b]);
                        }
                    }
                    assert forall|k: int| 0 <= k < self@.systems.len() implies (
                    #[trigger] self@.systems[k]).1@.wf() by {
                        if k < self@.systems.len() - 1 {
                            assert(self@.systems[k] == before[k]);
                        }
                    }
                    assert(self@.config == old(self)@.config && self@.dirty == old(self)@.dirty);
                    assert(self@.wf());
                }
                self.mark_system_dirty(coords);
                return Option::Some(coords);
            }
            attempt = attempt + 1;
        }
        Option::None  // No available location found
    }

    /// Whether a user owning `user_owned_coords` can access the system
    /// at `coords`.
    pub fn can_user_access_system(&self, coords: Coords, user_owned_coords: &Vec<Coords>) -> (r:
        bool)
        ensures
            r == user_owned_coords@.contains(coords),
    {
        let mut i: usize = 0;
        let mut found: bool = false;
        while i < user_owned_coords.len()
            invariant
                i <= user_owned_coords.len(),
                found == exists|j: int|
                    0 <= j < i && (#[trigger] user_owned_coords@[j]) == coords,
            decreases user_owned_coords.len() - i,
        {
            if user_owned_coords[i] == coords {
                found = true;
            }
            i = i + 1;
        }
        found
    }
}

/// One line of a galaxy's stats: the system's coordinates, its score
/// and its metal, all at the state the system reaches at `tick`.
pub open spec fn spec_stats_line(
    entry: (Coords, System),
    cfg: GalaxyConfig,
    tick: usize,
) -> Seq<char> {
    let s1 = spec_advance(entry.1@, cfg, tick);
    "System at ("@ + crate::text::spec_dec(entry.0.x as nat) + ", "@ + crate::text::spec_dec(
        entry.0.y as nat,
    ) + ") has score "@ + crate::text::spec_dec(crate::system::spec_score(s1.structures))
        + " and metal "@ + crate::text::spec_dec(s1.resources.metal as nat) + "\n"@
}

/// The stats text of the first `n` systems.
pub open spec fn spec_stats_lines(
    systems: Seq<(Coords, System)>,
    cfg: GalaxyConfig,
    tick: usize,
    n: int,
) -> Seq<char>
    recommends
        0 <= n <= systems.len(),
    decreases n,
{
    if n <= 0 {
        Seq::empty()
    } else {
        spec_stats_lines(systems, cfg, tick, n - 1) + spec_stats_line(systems[n - 1], cfg, tick)
    }
}

/// The whole stats text of a galaxy at `tick`.
pub open spec fn spec_stats_text(
    config: GalaxyConfig,
    systems: Seq<(Coords, System)>,
    tick: usize,
) -> Seq<char> {
    "System count: "@ + crate::text::spec_dec(config.system_count as nat) + "\n"@
        + spec_stats_lines(systems, config, tick, systems.len() as int)
}

/// Mark, in order, every coordinate among the first `n` whose system
/// still lags `tick` — the systems a pass at `tick` will mutate.
pub open spec fn spec_mark_advanced(
    dirty: Seq<Coords>,
    systems: Seq<(Coords, System)>,
    tick: usize,
    n: int,
) -> Seq<Coords>
    recommends
        0 <= n <= systems.len(),
    decreases n,
{
    if n <= 0 {
        dirty
    } else {
        let prev = spec_mark_advanced(dirty, systems, tick, n - 1);
        if systems[n - 1].1@.current_tick < tick {
            spec_mark_dirty(prev, systems[n - 1].0)
        } else {
            prev
        }
    }
}

/// When no system lags `tick`, nothing is marked.
proof fn lemma_mark_advanced_none(
    dirty: Seq<Coords>,
    systems: Seq<(Coords, System)>,
    tick: usize,
    n: int,
)
    requires
        0 <= n <= systems.len(),
        forall|j: int|
            0 <= j < systems.len() ==> (#[trigger] systems[j]).1@.current_tick >= tick,
    ensures
        spec_mark_advanced(dirty, systems, tick, n) == dirty,
    decreases n,
{
    if n > 0 {
        lemma_mark_advanced_none(dirty, systems, tick, n - 1);
    }
}

impl Galaxy {
    /// Return basic stats about the Galaxy.
    ///
    /// The caller's tick must not go backwards. Every system is
    /// advanced to it to be reported, so stats-taking drains events and
    /// credits production; every coordinate whose system the pass
    /// mutated is marked dirty, and when the clock moved, all of them
    /// are.
    pub fn stats(&mut self, tick: usize) -> (r: Result<String, GameError>)
        requires
            old(self)@.wf(),
        ensures
            final(self)@.wf(),
            final(self)@.config == old(self)@.config,
            tick < old(self)@.tick ==> r == Result::<String, GameError>::Err(
                GameError::OutOfOrderTick,
            ) && final(self)@ == old(self)@,
            tick >= old(self)@.tick ==> ({
                &&& final(self)@.tick == tick
                &&& final(self)@.systems.len() == old(self)@.systems.len()
                &&& forall|j: int|
                    0 <= j < old(self)@.systems.len() ==> (#[trigger] final(self)@.systems[j]).0
                        == old(self)@.systems[j].0 && final(self)@.systems[j].1@ == spec_advance(
                        old(self)@.systems[j].1@,
                        old(self)@.config,
                        tick,
                    )
                &&& r matches Result::Ok(text) && text@ == spec_stats_text(
                    old(self)@.config,
                    old(self)@.systems,
                    tick,
                )
                &&& (tick > old(self)@.tick ==> final(self)@.dirty == spec_mark_all(
                    spec_mark_advanced(
                        old(self)@.dirty,
                        old(self)@.systems,
                        tick,
                        old(self)@.systems.len() as int,
                    ),
                    old(self)@.systems,
                    old(self)@.systems.len() as int,
                ) && final(self)@.needs_persist)
                &&& (tick == old(self)@.tick ==> final(self)@.dirty == spec_mark_advanced(
                    old(self)@.dirty,
                    old(self)@.systems,
                    tick,
                    old(self)@.systems.len() as int,
                ))
                &&& ((tick == old(self)@.tick && (exists|j: int|
                    0 <= j < old(self)@.systems.len() && (#[trigger] old(self)@.systems[j]).1@.current_tick
                        < tick)) ==> final(self)@.needs_persist)
                &&& ((tick == old(self)@.tick && (forall|j: int|
                    0 <= j < old(self)@.systems.len() ==> (#[trigger] old(self)@.systems[j]).1@.current_tick
                        >= tick)) ==> final(self)@.dirty == old(self)@.dirty
                        && final(self)@.needs_persist == old(self)@.needs_persist)
            }),
    {
        let old_tick = self.tick;
        match self.update_tick(tick) {
            Result::Err(e) => {
                return Result::Err(e);
            },
            Result::Ok(()) => {},
        }
        let ghost orig = self@;
        let mut stats = String::from_str("System count: ");
        let t = crate::text::usize_to_string(self.config.system_count);
        stats.append(t.as_str());
        stats.append("\n");
        let mut j: usize = 0;
        while j < self.systems.len()
            invariant
                j <= self.systems.len(),
                orig.wf(),
                self@.config == orig.config,
                self@.tick == orig.tick,
                self@.dirty == spec_mark_advanced(orig.dirty, orig.systems, tick, j as int),
                spec_dirty_unique(self@.dirty),
                self@.needs_persist == (orig.needs_persist || exists|k: int|
                    0 <= k < j && (#[trigger] orig.systems[k]).1@.current_tick < tick),
                self@.systems.len() == orig.systems.len(),
                orig.tick <= tick,
                forall|k: int|
                    j <= k < orig.systems.len() ==> #[trigger] self@.systems[k] == orig.systems[k],
                forall|k: int|
                    0 <= k < j ==> (#[trigger] self@.systems[k]).0 == orig.systems[k].0
                        && self@.systems[k].1@ == spec_advance(
                        orig.systems[k].1@,
                        orig.config,
                        tick,
                    ) && self@.systems[k].1@.wf(),
                stats@ == "System count: "@ + crate::text::spec_dec(
                    orig.config.system_count as nat,
                ) + "\n"@ + spec_stats_lines(orig.systems, orig.config, tick, j as int),
            decreases self.systems.len() - j,
        {
            let (c, mut sys) = self.systems.remove(j);
            let ghost entry = orig.systems[j as int];
            let sys_old_tick = sys.get_current_tick();
            let score = sys.score(tick, &self.config);
            let metal = sys.metal(tick, &self.config);
            self.systems.insert(j, (c, sys));
            proof {
                assert forall|k: int|
                    (j as int) + 1 <= k < orig.systems.len() implies #[trigger] self@.systems[k]
                    == orig.systems[k] by {}
            }
            // Mark the coordinate when the pass mutated its system
            if tick > sys_old_tick {
                self.mark_system_dirty(c);
            }
            let line = stats_line(c, score, metal);
            proof {
                assert(line@ =~= spec_stats_line(entry, orig.config, tick));
            }
            stats.append(line.as_str());
            proof {
                assert(self@.dirty == spec_mark_advanced(
                    orig.dirty,
                    orig.systems,
                    tick,
                    j + 1,
                ));
                assert(stats@ =~= "System count: "@ + crate::text::spec_dec(
                    orig.config.system_count as nat,
                ) + "\n"@ + spec_stats_lines(orig.systems, orig.config, tick, j + 1));
            }
            j = j + 1;
        }
        proof {
            assert forall|a: int, b: int|
                0 <= a < b < self@.systems.len() implies (#[trigger] self@.systems[a]).0 != (
            #[trigger] self@.systems[b]).0 by {
                assert(self@.systems[a].0 == orig.systems[a].0);
                assert(self@.systems[b].0 == orig.systems[b].0);
            }
            assert(self@.wf());
            if tick == orig.tick && (forall|k: int|
                0 <= k < orig.systems.len() ==> (#[trigger] orig.systems[k]).1@.current_tick
                    >= tick) {
                lemma_mark_advanced_none(
                    orig.dirty,
                    orig.systems,
                    tick,
                    orig.systems.len() as int,
                );
            }
        }
        // Mark all systems dirty if the clock moved
        if self.tick != old_tick {
            let ghost mid = self@;
            self.mark_all_dirty();
            proof {
                lemma_mark_all_same_keys(mid.dirty, mid.systems, orig.systems, mid.systems.len() as int);
            }
        }
        Result::Ok(stats)
    }
}

/// One rendered stats line from already-computed figures.
fn stats_line(c: Coords, score: usize, metal: usize) -> (r: String)
    ensures
        r@ == "System at ("@ + crate::text::spec_dec(c.x as nat) + ", "@ + crate::text::spec_dec(
            c.y as nat,
        ) + ") has score "@ + crate::text::spec_dec(score as nat) + " and metal "@
            + crate::text::spec_dec(metal as nat) + "\n"@,
{
    let mut line = String::from_str("System at (");
    let t = crate::text::usize_to_string(c.x);
    line.append(t.as_str());
    line.append(", ");
    let t = crate::text::usize_to_string(c.y);
    line.append(t.as_str());
    line.append(") has score ");
    let t = crate::text::usize_to_string(score);
    line.append(t.as_str());
    line.append(" and metal ");
    let t = crate::text::usize_to_string(metal);
    line.append(t.as_str());
    line.append("\n");
    proof {
        assert(line@ =~= "System at ("@ + crate::text::spec_dec(c.x as nat) + ", "@
            + crate::text::spec_dec(c.y as nat) + ") has score "@ + crate::text::spec_dec(
            score as nat,
        ) + " and metal "@ + crate::text::spec_dec(metal as nat) + "\n"@);
    }
    line
}

/// Marking every coordinate dirty depends only on the coordinates, not
/// on the systems behind them.
proof fn lemma_mark_all_same_keys(
    dirty: Seq<Coords>,
    s1: Seq<(Coords, System)>,
    s2: Seq<(Coords, System)>,
    n: int,
)
    requires
        s1.len() == s2.len(),
        0 <= n <= s1.len(),
        forall|k: int| 0 <= k < s1.len() ==> (#[trigger] s1[k]).0 == s2[k].0,
    ensures
        spec_mark_all(dirty, s1, n) == spec_mark_all(dirty, s2, n),
    decreases n,
{
    if n > 0 {
        lemma_mark_all_same_keys(dirty, s1, s2, n - 1);
    }
}

/// Shifting the start of the search shifts the found index.
proof fn lemma_sys_index_skip(systems: Seq<(Coords, System)>, coords: Coords, i: int)
    requires
        0 <= i <= systems.len(),
        forall|j: int| 0 <= j < i ==> (#[trigger] systems[j]).0 != coords,
    ensures
        spec_sys_index(systems, coords) == match spec_sys_index(systems.skip(i), coords) {
            Option::Some(k) => Option::Some(k + i),
            Option::None => Option::None::<int>,
        },
    decreases i,
{
    if i == 0 {
        assert(systems.skip(0) =~= systems);
    } else {
        lemma_sys_index_skip(systems, coords, i - 1);
        assert(systems.skip(i - 1).drop_first() =~= systems.skip(i));
        assert(systems.skip(i - 1)[0] == systems[i - 1]);
    }
}

} // verus!
