//! Resource arithmetic for systems.
//!
//! A [`Resources`] value holds the three resource quantities of a system
//! (metal, crew, water). Additions saturate at `usize::MAX` so that no
//! operation can overflow; subtraction is only permitted when every
//! component is covered. Affordability uses the game's strict partial
//! order: a holding affords a cost only when it is strictly greater in
//! all three components or exactly equal in all three.

use vstd::prelude::*;

verus! {

use vstd::string::StringExecFns;

/// Resources in a system.
///
/// Also used, per 3600 ticks, as the production of a system, and as its
/// storage capacity.
#[derive(Clone, Copy, Debug, PartialEq, Eq, Structural)]
pub struct Resources {
    pub metal: usize,
    pub crew: usize,
    pub water: usize,
}

/// Production of a system.
///
/// Each value is the amount of resources produced per 3600 ticks (hour).
pub type SystemProduction = Resources;

/// The least of two mathematical integers.
pub open spec fn min_int(a: int, b: int) -> int {
    if a <= b {
        a
    } else {
        b
    }
}

/// `a + b`, capped at `usize::MAX`.
pub open spec fn sat_add(a: int, b: int) -> int {
    min_int(a + b, usize::MAX as int)
}

impl Default for Resources {
    /// An empty holding.
    fn default() -> (r: Resources)
        ensures
            r == (Resources { metal: 0, crew: 0, water: 0 }),
    {
        Resources { metal: 0, crew: 0, water: 0 }
    }
}

impl Resources {
    /// Component-wise sum of two holdings, saturating at `usize::MAX`.
    pub open spec fn spec_add(self, other: Resources) -> Resources {
        Resources {
            metal: sat_add(self.metal as int, other.metal as int) as usize,
            crew: sat_add(self.crew as int, other.crew as int) as usize,
            water: sat_add(self.water as int, other.water as int) as usize,
        }
    }

    /// Whether every component of `other` is covered by `self`.
    pub open spec fn spec_covers(self, other: Resources) -> bool {
        self.metal >= other.metal && self.crew >= other.crew && self.water >= other.water
    }

    /// The affordability order of the game: `self` affords `other` only
    /// when it is strictly greater in all three components, or exactly
    /// equal in all three.
    pub open spec fn spec_affords(self, other: Resources) -> bool {
        ||| (self.metal > other.metal && self.crew > other.crew && self.water > other.water)
        ||| (self.metal == other.metal && self.crew == other.crew && self.water == other.water)
    }

    /// Component-wise difference, assuming every component is covered.
    pub open spec fn spec_sub(self, other: Resources) -> Resources
        recommends
            self.spec_covers(other),
    {
        Resources {
            metal: (self.metal - other.metal) as usize,
            crew: (self.crew - other.crew) as usize,
            water: (self.water - other.water) as usize,
        }
    }

    /// Add two holdings component-wise; each component saturates at
    /// `usize::MAX` instead of overflowing.
    pub fn saturating_add(self, other: Resources) -> (r: Resources)
        ensures
            r == self.spec_add(other),
    {
        Resources {
            metal: sat_add_usize(self.metal, other.metal),
            crew: sat_add_usize(self.crew, other.crew),
            water: sat_add_usize(self.water, other.water),
        }
    }

    /// Deduct a covered cost from this holding.
    pub fn minus(self, other: Resources) -> (r: Resources)
        requires
            self.spec_covers(other),
        ensures
            r == self.spec_sub(other),
    {
        Resources {
            metal: self.metal - other.metal,
            crew: self.crew - other.crew,
            water: self.water - other.water,
        }
    }

    /// Whether this holding affords a cost under the game's strict
    /// partial order (all components strictly greater, or all equal).
    pub fn affords(&self, other: &Resources) -> (r: bool)
        ensures
            r == self.spec_affords(*other),
    {
        (self.metal > other.metal && self.crew > other.crew && self.water > other.water) || (
        self.metal == other.metal && self.crew == other.crew && self.water == other.water)
    }

    /// Whether every component of `other` is covered by `self`.
    pub fn covers(&self, other: &Resources) -> (r: bool)
        ensures
            r == self.spec_covers(*other),
    {
        self.metal >= other.metal && self.crew >= other.crew && self.water >= other.water
    }
}

// Order is defined only if all the values are greater/less than the
// other.
impl PartialOrd for Resources {
    fn partial_cmp(&self, other: &Resources) -> (r: Option<core::cmp::Ordering>) {
        if self.metal > other.metal && self.crew > other.crew && self.water > other.water {
            Option::Some(core::cmp::Ordering::Greater)
        } else if self.metal < other.metal && self.crew < other.crew && self.water < other.water {
            Option::Some(core::cmp::Ordering::Less)
        } else if self.metal == other.metal && self.crew == other.crew && self.water
            == other.water {
            Option::Some(core::cmp::Ordering::Equal)
        } else {
            Option::None
        }
    }
}

impl vstd::std_specs::cmp::PartialOrdSpecImpl for Resources {
    open spec fn obeys_partial_cmp_spec() -> bool {
        true
    }

    open spec fn partial_cmp_spec(&self, other: &Resources) -> Option<core::cmp::Ordering> {
        if self.metal > other.metal && self.crew > other.crew && self.water > other.water {
            Option::Some(core::cmp::Ordering::Greater)
        } else if self.metal < other.metal && self.crew < other.crew && self.water < other.water {
            Option::Some(core::cmp::Ordering::Less)
        } else if self.metal == other.metal && self.crew == other.crew && self.water
            == other.water {
            Option::Some(core::cmp::Ordering::Equal)
        } else {
            Option::None
        }
    }
}

/// `a + b` on machine words, capped at `usize::MAX`.
pub fn sat_add_usize(a: usize, b: usize) -> (r: usize)
    ensures
        r == sat_add(a as int, b as int),
{
    if a > usize::MAX - b {
        usize::MAX
    } else {
        a + b
    }
}

/// Affording a cost implies covering it: the strict-or-equal order is
/// stronger than the component-wise `>=` used to justify subtraction.
pub proof fn lemma_affords_covers(a: Resources, b: Resources)
    ensures
        a.spec_affords(b) ==> a.spec_covers(b),
{
}

/// Struct to hold the cost for a build.
#[derive(Clone, Copy, Debug, PartialEq, Eq, Structural)]
pub struct Cost {
    pub resources: Resources,
    pub ticks: usize,
}

impl Default for Cost {
    /// A free, instantaneous build.
    fn default() -> (r: Cost)
        ensures
            r == (Cost { resources: Resources { metal: 0, crew: 0, water: 0 }, ticks: 0 }),
    {
        Cost { resources: Resources { metal: 0, crew: 0, water: 0 }, ticks: 0 }
    }
}

/// The amount recorded under `key` in a list of config-file entries: the
/// first matching entry's amount, or 0 when no entry matches.
pub open spec fn amount_for(entries: Seq<(String, usize)>, key: Seq<char>) -> usize
    decreases entries.len(),
{
    if entries.len() == 0 {
        0
    } else if entries[0].0@ == key {
        entries[0].1
    } else {
        amount_for(entries.drop_first(), key)
    }
}

/// Look `key` up in config-file entries; 0 when absent.
pub fn lookup_amount(entries: &Vec<(String, usize)>, key: &String) -> (r: usize)
    ensures
        r == amount_for(entries@, key@),
{
    proof {
        assert(entries@.skip(0) =~= entries@);
    }
    let mut i: usize = 0;
    while i < entries.len()
        invariant
            i <= entries.len(),
            amount_for(entries@, key@) == amount_for(entries@.skip(i as int), key@),
        decreases entries.len() - i,
    {
        proof {
            assert(entries@.skip(i as int).drop_first() =~= entries@.skip(i + 1));
        }
        let e: &(String, usize) = &entries[i];
        if e.0.eq(key) {
            return e.1;
        }
        i = i + 1;
    }
    0
}

impl Cost {
    /// Create a Cost from config-file entries.
    ///
    /// This converts the format seen in the config files (a list of
    /// resource names and amounts) to an actual Cost struct.
    pub fn from_map(cost: &Vec<(String, usize)>) -> (r: Cost)
        ensures
            r.resources.metal == amount_for(cost@, "metal"@),
            r.resources.water == amount_for(cost@, "water"@),
            r.resources.crew == amount_for(cost@, "crew"@),
            r.ticks == amount_for(cost@, "ticks"@),
    {
        Cost {
            resources: Resources {
                metal: lookup_amount(cost, &String::from_str("metal")),
                water: lookup_amount(cost, &String::from_str("water")),
                crew: lookup_amount(cost, &String::from_str("crew")),
            },
            ticks: lookup_amount(cost, &String::from_str("ticks")),
        }
    }
}

} // verus!
