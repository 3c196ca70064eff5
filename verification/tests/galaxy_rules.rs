use galactic_war::config::{
    CostConfig, GalaxyConfig, GalaxySize, Multiplier, ProductionConfig, StructureConfig,
    SystemConfig,
};
use galactic_war::{Coords, Galaxy, GameError, Resources, StructureType, System};

fn double() -> Option<Multiplier> {
    Some(Multiplier { num: 2, den: 1 })
}

/// A configuration with a colony that costs 10 metal / 0 crew / 5
/// water and 1800 ticks at level 1, doubling per level; ample storage
/// and no production anywhere.
fn build_config() -> GalaxyConfig {
    let colony = StructureConfig {
        starting_level: 1,
        multiplier: None,
        production: None,
        storage: Some(ProductionConfig {
            multiplier: None,
            metal: 1000000,
            crew: 1000000,
            water: 1000000,
        }),
        cost: Some(CostConfig {
            multiplier: double(),
            time: 1800,
            metal: 10,
            crew: 0,
            water: 5,
        }),
    };
    GalaxyConfig {
        system_count: 1,
        size: GalaxySize { x: 4, y: 4 },
        systems: SystemConfig {
            structures: vec![(StructureType::Colony, colony)],
            resources: Resources {
                metal: 100,
                water: 100,
                crew: 100,
            },
        },
    }
}

#[test]
fn test_tick_monotonicity_rejects_stale_tick() {
    let config = build_config();
    let mut galaxy = Galaxy::new(config, 1000);
    let coords = galaxy.systems()[0].0;

    // A nondecreasing run of ticks is accepted
    assert!(galaxy.get_details(1000, coords, None).is_ok());
    assert!(galaxy.get_details(1500, coords, None).is_ok());
    assert!(galaxy.get_details(1500, coords, None).is_ok());
    assert!(galaxy.stats(2000).is_ok());

    // A stale tick is refused with OutOfOrderTick and changes nothing
    let before_tick = galaxy.get_tick();
    let before_dirty = galaxy.get_dirty_systems().clone();
    assert_eq!(
        galaxy.get_details(1999, coords, None).unwrap_err(),
        GameError::OutOfOrderTick
    );
    assert_eq!(
        galaxy.build(5, coords, StructureType::Colony).unwrap_err(),
        GameError::OutOfOrderTick
    );
    assert_eq!(galaxy.stats(0).unwrap_err(), GameError::OutOfOrderTick);
    assert_eq!(galaxy.get_tick(), before_tick);
    assert_eq!(galaxy.get_dirty_systems(), &before_dirty);
}

#[test]
fn test_single_inflight_build() {
    let config = build_config();
    let mut galaxy = Galaxy::new(config, 0);
    let coords = galaxy.systems()[0].0;

    // Cost of colony level 2: 20 metal, 0 crew, 10 water, 3600 ticks
    let event = galaxy.build(0, coords, StructureType::Colony).unwrap();
    assert_eq!(event.completion, 3600);
    assert_eq!(event.structure, Some(StructureType::Colony));

    // A second build before the event completes is refused
    assert_eq!(
        galaxy.build(1000, coords, StructureType::Colony).unwrap_err(),
        GameError::AlreadyBuilding
    );
    assert_eq!(
        galaxy.build(3599, coords, StructureType::Colony).unwrap_err(),
        GameError::AlreadyBuilding
    );

    // Once the completion tick is reached the build slot is free, and
    // the level has risen
    let event = galaxy.build(3600, coords, StructureType::Colony).unwrap();
    // Cost of colony level 3: time 1800 * 2 * 2 = 7200
    assert_eq!(event.completion, 3600 + 7200);
    let system = &galaxy.systems()[0].1;
    assert_eq!(system.get_structures(), vec![(StructureType::Colony, 2)]);
    // The first build deducted 20 metal / 10 water, the second 40 / 20
    assert_eq!(
        system.get_resources(),
        Resources {
            metal: 40,
            water: 70,
            crew: 100
        }
    );
}

#[test]
fn test_build_error_variants() {
    let config = build_config();
    let mut galaxy = Galaxy::new(config, 0);
    let coords = galaxy.systems()[0].0;

    // A structure kind the system does not hold
    assert_eq!(
        galaxy.build(0, coords, StructureType::Hatchery).unwrap_err(),
        GameError::StructureNotFound
    );

    // Drain the resources with successive builds until one is refused
    galaxy.build(0, coords, StructureType::Colony).unwrap();
    // Level-3 cost is 40 metal / 20 water; resources are 80 / 90 after
    // the first build, so it is affordable once the first completes
    galaxy.build(3600, coords, StructureType::Colony).unwrap();
    // Level-4 cost is 80 metal / 40 water; only 40 metal remain
    assert_eq!(
        galaxy
            .build(20000, coords, StructureType::Colony)
            .unwrap_err(),
        GameError::InsufficientResources
    );
}

#[test]
fn test_affordability_is_strict() {
    // A cost equal to the holdings in all three components is
    // affordable (partial order: Equal); one merely covered but not
    // strictly dominated in every component is not
    let colony = StructureConfig {
        starting_level: 1,
        multiplier: None,
        production: None,
        storage: None,
        cost: Some(CostConfig {
            multiplier: None,
            time: 60,
            metal: 10,
            crew: 3,
            water: 5,
        }),
    };
    let config = GalaxyConfig {
        system_count: 0,
        size: GalaxySize { x: 1, y: 1 },
        systems: SystemConfig {
            structures: vec![(StructureType::Colony, colony)],
            resources: Resources {
                metal: 0,
                water: 0,
                crew: 0,
            },
        },
    };

    // Exactly equal in all three components: affordable
    let mut sys = System::from_database(
        0,
        Resources {
            metal: 10,
            water: 5,
            crew: 3,
        },
        vec![(StructureType::Colony, 1)],
        Vec::new(),
    );
    assert!(sys.build(0, &config, StructureType::Colony).is_ok());
    assert_eq!(
        sys.get_resources(),
        Resources {
            metal: 0,
            water: 0,
            crew: 0
        }
    );

    // Above in two components but equal in one: not affordable
    let mut sys = System::from_database(
        0,
        Resources {
            metal: 999,
            water: 999,
            crew: 3,
        },
        vec![(StructureType::Colony, 1)],
        Vec::new(),
    );
    assert_eq!(
        sys.build(0, &config, StructureType::Colony).unwrap_err(),
        GameError::InsufficientResources
    );

    // The same order through the PartialOrd operators
    let cost = Resources {
        metal: 10,
        water: 5,
        crew: 3,
    };
    assert!(cost >= cost);
    assert!(
        Resources {
            metal: 11,
            water: 6,
            crew: 4
        } >= cost
    );
    assert!(
        !(Resources {
            metal: 11,
            water: 5,
            crew: 3
        } >= cost)
    );
}

#[test]
fn test_galaxy_new_random_placement() {
    let config = build_config();
    let galaxy = Galaxy::new(config, 7);
    let systems = galaxy.systems();

    // One system was asked for; the first draw always lands on the
    // empty grid, so exactly one is placed
    assert_eq!(systems.len(), 1);
    for (coords, system) in systems.iter() {
        assert!(coords.x <= 4 && coords.y <= 4);
        assert_eq!(system.get_current_tick(), 7);
        assert_eq!(
            system.get_resources(),
            Resources {
                metal: 100,
                water: 100,
                crew: 100
            }
        );
    }
    assert_eq!(galaxy.get_tick(), 7);
    assert!(!galaxy.needs_persist());
}

#[test]
fn test_reload_keeps_individual_ticks() {
    let config = build_config();
    let mut galaxy = Galaxy::new(config, 0);

    // Two systems whose own clocks lag the galaxy's
    let sys_a = System::from_database(
        500,
        Resources {
            metal: 1,
            water: 2,
            crew: 3,
        },
        vec![(StructureType::Colony, 1)],
        Vec::new(),
    );
    let sys_b = System::from_database(
        800,
        Resources {
            metal: 4,
            water: 5,
            crew: 6,
        },
        vec![(StructureType::Colony, 2)],
        Vec::new(),
    );
    galaxy.replace_systems(vec![
        (Coords { x: 1, y: 1 }, sys_a),
        (Coords { x: 2, y: 2 }, sys_b),
    ]);
    let mut galaxy = {
        // Save: read off each system's own state
        let mut saved = Vec::new();
        for (coords, system) in galaxy.systems().iter() {
            saved.push((
                *coords,
                system.get_current_tick(),
                system.get_resources(),
                system.get_structures(),
                system.get_events().clone(),
            ));
        }
        // The galaxy clock moves on to 1000 in the meantime
        let mut reloaded = Galaxy::new(build_config(), 1000);
        // Load: hand each system exactly what was saved
        let mut systems = Vec::new();
        for (coords, tick, resources, structures, events) in saved {
            systems.push((
                coords,
                System::from_database(tick, resources, structures, events),
            ));
        }
        reloaded.replace_systems(systems);
        reloaded
    };

    // The systems keep their individual ticks, not the galaxy's
    assert_eq!(galaxy.get_tick(), 1000);
    assert_eq!(galaxy.systems()[0].1.get_current_tick(), 500);
    assert_eq!(galaxy.systems()[1].1.get_current_tick(), 800);
    assert_eq!(
        galaxy.systems()[0].1.get_resources(),
        Resources {
            metal: 1,
            water: 2,
            crew: 3
        }
    );

    // And nothing is spuriously dirty after a load
    assert!(!galaxy.needs_persist());
    assert_eq!(galaxy.get_dirty_systems().len(), 0);

    // A read at the galaxy's tick advances a lagging system from its
    // own tick — a mutation, so the coordinate is marked dirty even
    // though the galaxy's clock did not move
    let details = galaxy.get_details(1000, Coords { x: 1, y: 1 }, None);
    assert!(details.is_ok());
    assert_eq!(galaxy.systems()[0].1.get_current_tick(), 1000);
    assert_eq!(galaxy.systems()[1].1.get_current_tick(), 800);
    assert!(galaxy.needs_persist());
    assert_eq!(galaxy.get_dirty_systems(), &vec![Coords { x: 1, y: 1 }]);

    // Reading the already-current system again changes nothing and
    // marks nothing further
    galaxy.clear_dirty_flag();
    galaxy.get_details(1000, Coords { x: 1, y: 1 }, None).unwrap();
    assert!(!galaxy.needs_persist());
}

#[test]
fn test_dirty_tracking() {
    let config = build_config();
    let mut galaxy = Galaxy::new(config, 0);
    let coords = galaxy.systems()[0].0;

    assert!(!galaxy.needs_persist());

    // A successful build marks the coordinate dirty
    galaxy.build(0, coords, StructureType::Colony).unwrap();
    assert!(galaxy.needs_persist());
    assert_eq!(galaxy.get_dirty_systems(), &vec![coords]);

    // Marking twice keeps one entry
    galaxy.mark_system_dirty(coords);
    assert_eq!(galaxy.get_dirty_systems(), &vec![coords]);

    // Clearing forgets everything
    galaxy.clear_dirty_flag();
    assert!(!galaxy.needs_persist());
    assert_eq!(galaxy.get_dirty_systems().len(), 0);

    // A read that moves the clock marks dirty too
    galaxy.get_details(10, coords, None).unwrap();
    assert!(galaxy.needs_persist());
    assert_eq!(galaxy.get_dirty_systems(), &vec![coords]);

    galaxy.clear_dirty_flag();
    galaxy.mark_all_dirty();
    assert!(galaxy.needs_persist());
    assert_eq!(galaxy.get_dirty_systems(), &vec![coords]);
}

#[test]
fn test_failed_build_that_advanced_marks_dirty() {
    let config = build_config();
    let mut galaxy = Galaxy::new(config, 0);
    let coords = galaxy.systems()[0].0;

    // Queue a build, then forget the dirty mark, as a save would
    galaxy.build(0, coords, StructureType::Colony).unwrap();
    galaxy.clear_dirty_flag();

    // This build is refused, but its advance drained the pending
    // event (the colony reached level 2): a mutation, so the
    // coordinate is marked dirty even though the build failed
    assert_eq!(
        galaxy.build(3600, coords, StructureType::Hatchery).unwrap_err(),
        GameError::StructureNotFound
    );
    assert_eq!(galaxy.systems()[0].1.get_structures(), vec![(StructureType::Colony, 2)]);
    assert!(galaxy.needs_persist());
    assert_eq!(galaxy.get_dirty_systems(), &vec![coords]);

    // A stats pass over a lagging system marks it too, with the
    // galaxy clock unmoved
    let sys = galactic_war::System::from_database(
        100,
        Resources {
            metal: 1,
            water: 1,
            crew: 1,
        },
        vec![(StructureType::Colony, 1)],
        Vec::new(),
    );
    galaxy.replace_systems(vec![(coords, sys)]);
    let galaxy_tick = galaxy.get_tick();
    galaxy.stats(galaxy_tick).unwrap();
    assert!(galaxy.needs_persist());
    assert_eq!(galaxy.get_dirty_systems(), &vec![coords]);
}

#[test]
fn test_create_user_system() {
    let config = build_config();
    let mut galaxy = Galaxy::new(config, 0);
    let occupied = galaxy.systems().len();

    let coords = galaxy.create_user_system(5).expect("space available");
    assert!(coords.x <= 4 && coords.y <= 4);
    assert_eq!(galaxy.systems().len(), occupied + 1);
    assert!(galaxy.needs_persist());

    // A 1x1 galaxy fills up: once every location is taken, None
    let mut tiny = GalaxyConfig {
        system_count: 0,
        size: GalaxySize { x: 0, y: 0 },
        ..build_config()
    };
    tiny.size = GalaxySize { x: 0, y: 0 };
    let mut galaxy = Galaxy::new(tiny, 0);
    assert_eq!(galaxy.create_user_system(0), Some(Coords { x: 0, y: 0 }));
    assert_eq!(galaxy.create_user_system(0), None);
}

#[test]
fn test_can_user_access_system() {
    let config = build_config();
    let galaxy = Galaxy::new(config, 0);
    let owned = vec![Coords { x: 1, y: 2 }, Coords { x: 3, y: 3 }];
    assert!(galaxy.can_user_access_system(Coords { x: 3, y: 3 }, &owned));
    assert!(!galaxy.can_user_access_system(Coords { x: 0, y: 0 }, &owned));
}

#[test]
fn test_coords_from_tuple() {
    let c: Coords = (3, 9).into();
    assert_eq!(c, Coords { x: 3, y: 9 });
}
