//! Configuration of a galaxy.
//!
//! These types carry everything used externally to configure a galaxy:
//! how many systems it holds, its size, and the per-structure curves for
//! production, storage and cost. A curve value at level `L` is the base
//! value scaled by the structure's multiplier applied `L - 1` times; the
//! multiplier is a rational `num / den`, each scaling rounds to the
//! nearest integer, and values are capped at `usize::MAX` so that the
//! curve is total.

use vstd::prelude::*;

use crate::resources::{min_int, Cost, Resources};
use crate::system::StructureType;

verus! {

/// A rational growth factor `num / den` for per-level scaling.
#[derive(Clone, Copy, Debug, PartialEq, Eq, Structural)]
pub struct Multiplier {
    pub num: usize,
    pub den: usize,
}

impl Multiplier {
    /// A multiplier is usable when its denominator is positive.
    pub open spec fn wf(self) -> bool {
        self.den >= 1
    }

    /// The identity multiplier: no growth from level to level.
    pub fn one() -> (r: Multiplier)
        ensures
            r == (Multiplier { num: 1, den: 1 }),
    {
        Multiplier { num: 1, den: 1 }
    }
}

/// One scaling step of a curve value: multiply by `num / den`, rounding
/// to the nearest integer, capped at `usize::MAX`.
pub open spec fn curve_step(v: nat, num: nat, den: nat) -> nat
    recommends
        den >= 1,
{
    min_int((v * num + den / 2) as int / den as int, usize::MAX as int) as nat
}

/// The value of a curve with base value `base` and multiplier
/// `num / den` at `level`: zero at level 0, the base at level 1, and one
/// scaling step per level above that.
pub open spec fn curve(base: nat, num: nat, den: nat, level: nat) -> nat
    recommends
        den >= 1,
    decreases level,
{
    if level == 0 {
        0
    } else if level == 1 {
        base
    } else {
        curve_step(curve(base, num, den, (level - 1) as nat), num, den)
    }
}

/// Curve values never exceed `usize::MAX`: the base is a machine word
/// and every later step is capped.
pub proof fn lemma_curve_le_max(base: nat, num: nat, den: nat, level: nat)
    requires
        base <= usize::MAX,
        den >= 1,
    ensures
        curve(base, num, den, level) <= usize::MAX,
    decreases level,
{
    if level > 1 {
        lemma_curve_le_max(base, num, den, (level - 1) as nat);
        let prev = curve(base, num, den, (level - 1) as nat);
        assert((prev * num + den / 2) as int / den as int >= 0);
        assert(curve(base, num, den, level) == curve_step(prev, num, den));
    }
}

/// One exec scaling step, exactly matching [`curve_step`].
fn mult_step(v: usize, m: Multiplier) -> (r: usize)
    requires
        m.wf(),
    ensures
        r as nat == curve_step(v as nat, m.num as nat, m.den as nat),
{
    proof {
        assert(usize::MAX <= u64::MAX);
        assert((v as u128) * (m.num as u128) + (m.den as u128) / 2 <= u128::MAX) by (nonlinear_arith)
            requires
                v as u128 <= u64::MAX as u128,
                m.num as u128 <= u64::MAX as u128,
                m.den as u128 <= u64::MAX as u128,
        ;
    }
    let x: u128 = (v as u128) * (m.num as u128) + (m.den as u128) / 2;
    let q: u128 = x / (m.den as u128);
    if q > usize::MAX as u128 {
        usize::MAX
    } else {
        q as usize
    }
}

/// The value of a structure's curve at a level.
///
/// This is the pure function behind every production, storage and cost
/// figure: `base` scaled by `m` once per level above the first.
pub fn level_value(base: usize, m: Multiplier, level: usize) -> (r: usize)
    requires
        m.wf(),
    ensures
        r as nat == curve(base as nat, m.num as nat, m.den as nat, level as nat),
{
    if level == 0 {
        return 0;
    }
    let mut v: usize = base;
    let mut i: usize = 1;
    while i < level
        invariant
            1 <= i <= level,
            m.wf(),
            v as nat == curve(base as nat, m.num as nat, m.den as nat, i as nat),
        decreases level - i,
    {
        v = mult_step(v, m);
        i = i + 1;
    }
    v
}

/// Production Configuration.
///
/// These are all in production per hour (3600 ticks).
#[derive(Clone, Copy, Debug, PartialEq, Eq, Structural)]
pub struct ProductionConfig {
    /// Used as a multiplier for the production.
    pub multiplier: Option<Multiplier>,
    /// Metal produced by lvl 1
    pub metal: usize,
    /// Crew produced by lvl 1
    pub crew: usize,
    /// Water produced by lvl 1
    pub water: usize,
}

/// Storage Configuration.
///
/// Stores resource limit for storage.
pub type StorageConfig = ProductionConfig;

/// Cost Configuration.
///
/// These are the costs for building a lvl 1 structure and a multiplier
/// for higher levels.
#[derive(Clone, Copy, Debug, PartialEq, Eq, Structural)]
pub struct CostConfig {
    /// Used as a multiplier for the cost.
    pub multiplier: Option<Multiplier>,
    /// Time to build the structure
    pub time: usize,
    /// Metal cost for lvl 1
    pub metal: usize,
    /// Crew cost for lvl 1
    pub crew: usize,
    /// Water cost for lvl 1
    pub water: usize,
}

/// Per-structure configuration.
#[derive(Clone, Copy, Debug)]
pub struct StructureConfig {
    /// Starting level for this type of structure
    pub starting_level: usize,
    /// Default multiplier for the structure, applying to all multiplier
    /// settings (Production, Cost, Storage)
    pub multiplier: Option<Multiplier>,
    /// Used to specify how many of each resource is produced
    pub production: Option<ProductionConfig>,
    /// The amount of storage available at the starting level.
    pub storage: Option<StorageConfig>,
    /// Cost for each level
    /// They are the costs to build the next level
    pub cost: Option<CostConfig>,
}

/// The multiplier that applies to one part of a structure's
/// configuration: the part's own, else the structure's, else identity.
pub open spec fn spec_effective_multiplier(part: Option<Multiplier>, whole: Option<Multiplier>) -> Multiplier {
    match part {
        Option::Some(m) => m,
        Option::None => match whole {
            Option::Some(m) => m,
            Option::None => Multiplier { num: 1, den: 1 },
        },
    }
}

/// Resolve the multiplier for one part of a structure's configuration.
pub fn effective_multiplier(part: Option<Multiplier>, whole: Option<Multiplier>) -> (r: Multiplier)
    ensures
        r == spec_effective_multiplier(part, whole),
{
    match part {
        Option::Some(m) => m,
        Option::None => match whole {
            Option::Some(m) => m,
            Option::None => Multiplier::one(),
        },
    }
}

impl StructureConfig {
    /// Every multiplier this configuration can resolve to is usable.
    pub open spec fn wf(self) -> bool {
        &&& spec_multiplier_opt_wf(self.multiplier)
        &&& (self.production matches Option::Some(p) ==> spec_multiplier_opt_wf(p.multiplier))
        &&& (self.storage matches Option::Some(s) ==> spec_multiplier_opt_wf(s.multiplier))
        &&& (self.cost matches Option::Some(c) ==> spec_multiplier_opt_wf(c.multiplier))
    }

    /// The production of this structure at a level.
    pub open spec fn spec_production(self, level: nat) -> Resources {
        match self.production {
            Option::None => Resources { metal: 0, crew: 0, water: 0 },
            Option::Some(p) => {
                let m = spec_effective_multiplier(p.multiplier, self.multiplier);
                Resources {
                    metal: curve(p.metal as nat, m.num as nat, m.den as nat, level) as usize,
                    crew: curve(p.crew as nat, m.num as nat, m.den as nat, level) as usize,
                    water: curve(p.water as nat, m.num as nat, m.den as nat, level) as usize,
                }
            },
        }
    }

    /// The storage of this structure at a level.
    pub open spec fn spec_storage(self, level: nat) -> Resources {
        match self.storage {
            Option::None => Resources { metal: 0, crew: 0, water: 0 },
            Option::Some(s) => {
                let m = spec_effective_multiplier(s.multiplier, self.multiplier);
                Resources {
                    metal: curve(s.metal as nat, m.num as nat, m.den as nat, level) as usize,
                    crew: curve(s.crew as nat, m.num as nat, m.den as nat, level) as usize,
                    water: curve(s.water as nat, m.num as nat, m.den as nat, level) as usize,
                }
            },
        }
    }

    /// The cost to build this structure at a level.
    pub open spec fn spec_cost(self, level: nat) -> Cost {
        match self.cost {
            Option::None => Cost { resources: Resources { metal: 0, crew: 0, water: 0 }, ticks: 0 },
            Option::Some(c) => {
                if level == 0 {
                    Cost { resources: Resources { metal: 0, crew: 0, water: 0 }, ticks: 0 }
                } else {
                    let m = spec_effective_multiplier(c.multiplier, self.multiplier);
                    Cost {
                        resources: Resources {
                            metal: curve(c.metal as nat, m.num as nat, m.den as nat, level) as usize,
                            crew: curve(c.crew as nat, m.num as nat, m.den as nat, level) as usize,
                            water: curve(c.water as nat, m.num as nat, m.den as nat, level) as usize,
                        },
                        ticks: curve(c.time as nat, m.num as nat, m.den as nat, level) as usize,
                    }
                }
            },
        }
    }

    /// Get the production for this structure at a given level.
    pub fn get_production(&self, level: usize) -> (r: Resources)
        requires
            self.wf(),
        ensures
            r == self.spec_production(level as nat),
    {
        match self.production {
            Option::None => Resources { metal: 0, crew: 0, water: 0 },
            Option::Some(p) => {
                let m = effective_multiplier(p.multiplier, self.multiplier);
                Resources {
                    metal: level_value(p.metal, m, level),
                    crew: level_value(p.crew, m, level),
                    water: level_value(p.water, m, level),
                }
            },
        }
    }

    /// Get the storage for this structure at a given level.
    pub fn get_storage(&self, level: usize) -> (r: Resources)
        requires
            self.wf(),
        ensures
            r == self.spec_storage(level as nat),
    {
        match self.storage {
            Option::None => Resources { metal: 0, crew: 0, water: 0 },
            Option::Some(s) => {
                let m = effective_multiplier(s.multiplier, self.multiplier);
                Resources {
                    metal: level_value(s.metal, m, level),
                    crew: level_value(s.crew, m, level),
                    water: level_value(s.water, m, level),
                }
            },
        }
    }

    /// Get the cost to build this structure at a given level.
    pub fn get_cost(&self, level: usize) -> (r: Cost)
        requires
            self.wf(),
        ensures
            r == self.spec_cost(level as nat),
    {
        match self.cost {
            Option::None => Cost { resources: Resources { metal: 0, crew: 0, water: 0 }, ticks: 0 },
            Option::Some(c) => {
                if level == 0 {
                    Cost { resources: Resources { metal: 0, crew: 0, water: 0 }, ticks: 0 }
                } else {
                    let m = effective_multiplier(c.multiplier, self.multiplier);
                    Cost {
                        resources: Resources {
                            metal: level_value(c.metal, m, level),
                            crew: level_value(c.crew, m, level),
                            water: level_value(c.water, m, level),
                        },
                        ticks: level_value(c.time, m, level),
                    }
                }
            },
        }
    }
}

/// Whether an optional multiplier, if present, is usable.
pub open spec fn spec_multiplier_opt_wf(m: Option<Multiplier>) -> bool {
    m matches Option::Some(mm) ==> mm.wf()
}

/// Galaxy size.
#[derive(Clone, Copy, Debug, PartialEq, Eq, Structural)]
pub struct GalaxySize {
    pub x: usize,
    pub y: usize,
}

/// Configuration for the creation of a system.
#[derive(Clone, Debug)]
pub struct SystemConfig {
    /// List of structures that will be built on the system, with their
    /// per-structure configuration. Earlier entries win when a structure
    /// kind is listed twice.
    pub structures: Vec<(StructureType, StructureConfig)>,
    /// Starting resources for the system
    pub resources: Resources,
}

impl SystemConfig {
    /// Every structure configuration is usable.
    pub open spec fn wf(self) -> bool {
        forall|i: int| 0 <= i < self.structures@.len() ==> (#[trigger] self.structures@[i]).1.wf()
    }
}

/// The configuration of the first structure of kind `kind`, if any.
pub open spec fn spec_find_structure(entries: Seq<(StructureType, StructureConfig)>, kind: StructureType) -> Option<StructureConfig>
    decreases entries.len(),
{
    if entries.len() == 0 {
        Option::None
    } else if entries[0].0 == kind {
        Option::Some(entries[0].1)
    } else {
        spec_find_structure(entries.drop_first(), kind)
    }
}

/// Configuration for the Galaxy.
#[derive(Clone, Debug)]
pub struct GalaxyConfig {
    /// Static System Count
    pub system_count: usize,
    /// Galaxy size
    pub size: GalaxySize,
    /// System Config
    pub systems: SystemConfig,
}

impl GalaxyConfig {
    /// Every structure configuration is usable.
    pub open spec fn wf(self) -> bool {
        self.systems.wf()
    }

    /// The production of a single structure kind at a level, under this
    /// configuration; zero for a kind that is not configured.
    pub open spec fn spec_structure_production(self, kind: StructureType, level: nat) -> Resources {
        match spec_find_structure(self.systems.structures@, kind) {
            Option::None => Resources { metal: 0, crew: 0, water: 0 },
            Option::Some(sc) => sc.spec_production(level),
        }
    }

    /// The storage of a single structure kind at a level, under this
    /// configuration; zero for a kind that is not configured.
    pub open spec fn spec_structure_storage(self, kind: StructureType, level: nat) -> Resources {
        match spec_find_structure(self.systems.structures@, kind) {
            Option::None => Resources { metal: 0, crew: 0, water: 0 },
            Option::Some(sc) => sc.spec_storage(level),
        }
    }

    /// The cost to build a structure kind at a level, under this
    /// configuration; free for a kind that is not configured.
    pub open spec fn spec_structure_cost(self, kind: StructureType, level: nat) -> Cost {
        match spec_find_structure(self.systems.structures@, kind) {
            Option::None => Cost { resources: Resources { metal: 0, crew: 0, water: 0 }, ticks: 0 },
            Option::Some(sc) => sc.spec_cost(level),
        }
    }

    /// Find the configuration of a structure kind.
    pub fn find_structure(&self, kind: StructureType) -> (r: Option<&StructureConfig>)
        ensures
            match r {
                Option::Some(sc) => {
                    &&& spec_find_structure(self.systems.structures@, kind) == Option::Some(*sc)
                    &&& self.wf() ==> sc.wf()
                },
                Option::None => spec_find_structure(self.systems.structures@, kind) is None,
            },
    {
        let entries = &self.systems.structures;
        proof {
            assert(entries@.skip(0) =~= entries@);
        }
        let mut i: usize = 0;
        while i < entries.len()
            invariant
                i <= entries.len(),
                entries@ == self.systems.structures@,
                spec_find_structure(entries@, kind) == spec_find_structure(entries@.skip(i as int), kind),
            decreases entries.len() - i,
        {
            proof {
                assert(entries@.skip(i as int).drop_first() =~= entries@.skip(i + 1));
            }
            let e = &entries[i];
            if e.0 == kind {
                proof {
                    assert(entries@.skip(i as int)[0] == entries@[i as int]);
                    assert(spec_find_structure(entries@.skip(i as int), kind) == Option::Some(
                        entries@[i as int].1,
                    ));
                    if self.wf() {
                        assert(self.systems.structures@[i as int].1.wf());
                    }
                }
                return Option::Some(&e.1);
            }
            i = i + 1;
        }
        Option::None
    }

    /// Get the production for a single structure at a given level.
    pub fn get_structure_production(&self, kind: StructureType, level: usize) -> (r: Resources)
        requires
            self.wf(),
        ensures
            r == self.spec_structure_production(kind, level as nat),
    {
        match self.find_structure(kind) {
            Option::Some(sc) => sc.get_production(level),
            Option::None => Resources { metal: 0, crew: 0, water: 0 },
        }
    }

    /// Get the storage for a single structure at a given level.
    pub fn get_structure_storage(&self, kind: StructureType, level: usize) -> (r: Resources)
        requires
            self.wf(),
        ensures
            r == self.spec_structure_storage(kind, level as nat),
    {
        match self.find_structure(kind) {
            Option::Some(sc) => sc.get_storage(level),
            Option::None => Resources { metal: 0, crew: 0, water: 0 },
        }
    }

    /// Get the cost to build a single structure at a given level.
    pub fn get_structure_cost(&self, kind: StructureType, level: usize) -> (r: Cost)
        requires
            self.wf(),
        ensures
            r == self.spec_structure_cost(kind, level as nat),
    {
        match self.find_structure(kind) {
            Option::Some(sc) => sc.get_cost(level),
            Option::None => Cost { resources: Resources { metal: 0, crew: 0, water: 0 }, ticks: 0 },
        }
    }
}

} // verus!
