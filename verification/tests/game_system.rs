use galactic_war::config::{
    CostConfig, GalaxyConfig, GalaxySize, Multiplier, ProductionConfig, StructureConfig,
    SystemConfig,
};
use galactic_war::{Resources, StructureType, System};

fn double() -> Option<Multiplier> {
    Some(Multiplier { num: 2, den: 1 })
}

fn create_test_galaxy_config() -> GalaxyConfig {
    let mut structure_configs: Vec<(StructureType, StructureConfig)> = Vec::new();

    // Colony: produces 1 crew per hour, has storage
    let colony_config = StructureConfig {
        starting_level: 1,
        multiplier: None,
        production: Some(ProductionConfig {
            multiplier: double(), // Level 2 produces 2x as much
            metal: 0,
            crew: 1, // 1 crew per hour at level 1
            water: 0,
        }),
        storage: Some(ProductionConfig {
            multiplier: double(),
            metal: 200,
            crew: 20,
            water: 200,
        }),
        cost: Some(CostConfig {
            multiplier: double(),
            time: 1800, // 30 minutes
            metal: 10,
            crew: 0,
            water: 5,
        }),
    };
    structure_configs.push((StructureType::Colony, colony_config));

    // Asteroid Mine: produces metal
    let mine_config = StructureConfig {
        starting_level: 1,
        multiplier: None,
        production: Some(ProductionConfig {
            multiplier: double(), // Level 2 produces 2x as much
            metal: 2,             // 2 metal per hour at level 1
            crew: 0,
            water: 0,
        }),
        storage: None,
        cost: Some(CostConfig {
            multiplier: double(),
            time: 3600, // 1 hour
            metal: 5,
            crew: 1,
            water: 0,
        }),
    };
    structure_configs.push((StructureType::AsteroidMine, mine_config));

    // Water Harvester: produces water
    let harvester_config = StructureConfig {
        starting_level: 1,
        multiplier: None,
        production: Some(ProductionConfig {
            multiplier: double(), // Level 2 produces 2x as much
            metal: 0,
            crew: 0,
            water: 3, // 3 water per hour at level 1
        }),
        storage: None,
        cost: Some(CostConfig {
            multiplier: double(),
            time: 2400, // 40 minutes
            metal: 8,
            crew: 1,
            water: 0,
        }),
    };
    structure_configs.push((StructureType::WaterHarvester, harvester_config));

    GalaxyConfig {
        system_count: 0,
        size: GalaxySize { x: 10, y: 10 },
        systems: SystemConfig {
            structures: structure_configs,
            resources: Resources {
                metal: 10,
                water: 5,
                crew: 3,
            },
        },
    }
}

fn create_test_system_config() -> SystemConfig {
    let bare = |level: usize| StructureConfig {
        starting_level: level,
        multiplier: None,
        production: None,
        storage: None,
        cost: None,
    };
    SystemConfig {
        structures: vec![
            (StructureType::Colony, bare(1)),
            (StructureType::AsteroidMine, bare(1)),
            (StructureType::WaterHarvester, bare(1)),
        ],
        resources: Resources {
            metal: 10,
            water: 5,
            crew: 3,
        },
    }
}

#[test]
fn test_system_initialization() {
    let galaxy_config = create_test_galaxy_config();
    let system_config = create_test_system_config();
    let system = System::new(0, &system_config, &galaxy_config);

    assert_eq!(system.get_current_tick(), 0);
    assert_eq!(system.get_resources().metal, 10);
    assert_eq!(system.get_resources().water, 5);
    assert_eq!(system.get_resources().crew, 3);
    assert_eq!(system.get_structures().len(), 3);
}

#[test]
fn test_resource_production_single_tick() {
    let galaxy_config = create_test_galaxy_config();
    let system_config = create_test_system_config();
    let mut system = System::new(0, &system_config, &galaxy_config);

    // Production rates: Metal: 2/hour, Water: 3/hour, Crew: 1/hour
    // Intervals: Metal: 3600/2 = 1800 ticks, Water: 3600/3 = 1200 ticks,
    // Crew: 3600/1 = 3600 ticks

    // Test at tick 1200 (should get 1 water)
    system.update_to_tick(1200, &galaxy_config);
    assert_eq!(system.get_resources().metal, 10); // No metal yet
    assert_eq!(system.get_resources().water, 6); // 5 + 1
    assert_eq!(system.get_resources().crew, 3); // No crew yet

    // Test at tick 1800 (should get 1 metal)
    system.update_to_tick(1800, &galaxy_config);
    assert_eq!(system.get_resources().metal, 11); // 10 + 1
    assert_eq!(system.get_resources().water, 6); // Still 6
    assert_eq!(system.get_resources().crew, 3); // No crew yet

    // Test at tick 2400 (should get another water)
    system.update_to_tick(2400, &galaxy_config);
    assert_eq!(system.get_resources().metal, 11); // Still 11
    assert_eq!(system.get_resources().water, 7); // 6 + 1
    assert_eq!(system.get_resources().crew, 3); // No crew yet

    // Test at tick 3600 (should get another metal and first crew and
    // another water)
    system.update_to_tick(3600, &galaxy_config);
    assert_eq!(system.get_resources().metal, 12); // 11 + 1
    assert_eq!(system.get_resources().water, 8); // 7 + 1 (at tick 3600)
    assert_eq!(system.get_resources().crew, 4); // 3 + 1
}

#[test]
fn test_resource_production_large_jump() {
    let galaxy_config = create_test_galaxy_config();
    let system_config = create_test_system_config();
    let mut system = System::new(0, &system_config, &galaxy_config);

    // Jump to tick 7200 (2 hours)
    system.update_to_tick(7200, &galaxy_config);

    // Expected production in 2 hours:
    // Metal: 2 per hour * 2 hours = 4 total
    // Water: 3 per hour * 2 hours = 6 total
    // Crew: 1 per hour * 2 hours = 2 total

    assert_eq!(system.get_resources().metal, 14); // 10 + 4
    assert_eq!(system.get_resources().water, 11); // 5 + 6
    assert_eq!(system.get_resources().crew, 5); // 3 + 2
}

#[test]
fn test_storage_limits() {
    let galaxy_config = create_test_galaxy_config();
    let system_config = create_test_system_config();
    let system = System::new(0, &system_config, &galaxy_config);

    // Set initial resources close to storage limits
    // Colony level 1 has storage: metal=200, water=200, crew=20
    let mut system = System::from_database(
        system.get_current_tick(),
        Resources {
            metal: 195,
            water: 195,
            crew: 18,
        },
        system.get_structures(),
        system.get_events().clone(),
    );

    // Jump ahead by a lot to test storage caps
    system.update_to_tick(36000, &galaxy_config); // 10 hours

    // Should be capped at storage limits
    assert_eq!(system.get_resources().metal, 200);
    assert_eq!(system.get_resources().water, 200);
    assert_eq!(system.get_resources().crew, 20);
}

#[test]
fn test_no_production_structures() {
    let galaxy_config = create_test_galaxy_config();
    let mut system_config = create_test_system_config();

    // Create system with only level 0 structures (no production)
    for (_, sc) in system_config.structures.iter_mut() {
        sc.starting_level = 0;
    }

    let mut system = System::new(0, &system_config, &galaxy_config);

    // Jump ahead - nothing is produced, and the storage invariant
    // clamps every component to the capacity of the level-0
    // structures, which is zero
    system.update_to_tick(7200, &galaxy_config);

    assert_eq!(
        system.get_resources(),
        Resources {
            metal: 0,
            water: 0,
            crew: 0
        }
    );
}

#[test]
fn test_storage_cap_binds_unproduced_components() {
    let galaxy_config = create_test_galaxy_config();

    // A system holding far more than its colony can store, with no
    // metal or water production of its own (only the colony's crew)
    let mut system = System::from_database(
        0,
        Resources {
            metal: 500,
            water: 250,
            crew: 30,
        },
        vec![(StructureType::Colony, 1)],
        Vec::new(),
    );

    // Any advance clamps every component to the storage capacity,
    // produced or not: colony level 1 stores 200 metal, 200 water,
    // 20 crew
    system.update_to_tick(1, &galaxy_config);
    assert_eq!(
        system.get_resources(),
        Resources {
            metal: 200,
            water: 200,
            crew: 20
        }
    );
}

#[test]
fn test_update_to_same_tick() {
    let galaxy_config = create_test_galaxy_config();
    let system_config = create_test_system_config();
    let mut system = System::new(1000, &system_config, &galaxy_config);

    let initial_resources = system.get_resources();

    // Update to same tick should do nothing
    system.update_to_tick(1000, &galaxy_config);
    assert_eq!(system.get_resources(), initial_resources);

    // Update to earlier tick should do nothing
    system.update_to_tick(500, &galaxy_config);
    assert_eq!(system.get_resources(), initial_resources);
}

#[test]
fn test_production_with_multiple_levels() {
    let galaxy_config = create_test_galaxy_config();
    let system_config = create_test_system_config();
    let system = System::new(0, &system_config, &galaxy_config);

    // Upgrade structures to level 2 for testing
    let structures = vec![
        (StructureType::Colony, 2),        // Colony level 2: produces 2 crew/hour
        (StructureType::AsteroidMine, 2),  // Mine level 2: produces 4 metal/hour
        (StructureType::WaterHarvester, 2), // Harvester level 2: produces 6 water/hour
    ];
    let mut system = System::from_database(
        system.get_current_tick(),
        system.get_resources(),
        structures,
        system.get_events().clone(),
    );

    // Test production for 1 hour
    system.update_to_tick(3600, &galaxy_config);

    // Expected production for level 2 structures (with 2.0 multiplier):
    // Metal: 2 * 2 = 4 per hour * 1 hour = 4 total
    // Water: 3 * 2 = 6 per hour * 1 hour = 6 total
    // Crew: 1 * 2 = 2 per hour * 1 hour = 2 total

    assert_eq!(system.get_resources().metal, 14); // 10 + 4
    assert_eq!(system.get_resources().water, 11); // 5 + 6
    assert_eq!(system.get_resources().crew, 5); // 3 + 2
}

#[test]
fn test_fractional_production_intervals() {
    let galaxy_config = create_test_galaxy_config();
    let system_config = create_test_system_config();
    let mut system = System::new(0, &system_config, &galaxy_config);

    // Test that production happens at exact intervals
    // Water production: 3 per hour = every 1200 ticks

    // At tick 1199, no water should be produced yet
    system.update_to_tick(1199, &galaxy_config);
    assert_eq!(system.get_resources().water, 5);

    // At tick 1200, exactly 1 water should be produced
    system.update_to_tick(1200, &galaxy_config);
    assert_eq!(system.get_resources().water, 6);

    // At tick 2399, still only 1 water
    system.update_to_tick(2399, &galaxy_config);
    assert_eq!(system.get_resources().water, 6);

    // At tick 2400, 2nd water should be produced
    system.update_to_tick(2400, &galaxy_config);
    assert_eq!(system.get_resources().water, 7);
}

#[test]
fn test_database_persistence_with_tick() {
    let galaxy_config = create_test_galaxy_config();
    let system_config = create_test_system_config();
    let mut system = System::new(0, &system_config, &galaxy_config);

    // Let some time pass and production occur
    system.update_to_tick(3600, &galaxy_config); // 1 hour

    // Save state for database persistence
    let current_tick = system.get_current_tick();
    let resources = system.get_resources();
    let structures = system.get_structures();
    let events = system.get_events().clone();

    // Create a new system from database data
    let mut restored_system = System::from_database(current_tick, resources, structures, events);

    // The restored system should have the same state
    assert_eq!(restored_system.get_current_tick(), 3600);
    assert_eq!(
        restored_system.get_resources(),
        Resources {
            metal: 12,
            water: 8,
            crew: 4
        }
    );

    // When we advance time further, production should continue correctly
    restored_system.update_to_tick(7200, &galaxy_config); // Another hour

    // Should have gained another hour of production
    assert_eq!(restored_system.get_resources().metal, 14); // 12 + 2
    assert_eq!(restored_system.get_resources().water, 11); // 8 + 3
    assert_eq!(restored_system.get_resources().crew, 5); // 4 + 1
}
