use galactic_war::config::{
    CostConfig, GalaxyConfig, GalaxySize, Multiplier, ProductionConfig, StructureConfig,
    SystemConfig,
};
use galactic_war::system::Details;
use galactic_war::{
    resource_table, seconds_to_readable, Coords, Cost, Event, EventCallback, Galaxy, GameError,
    Resources, StructureType, System,
};

fn mine_config() -> GalaxyConfig {
    let mine = StructureConfig {
        starting_level: 1,
        multiplier: None,
        production: Some(ProductionConfig {
            multiplier: Some(Multiplier { num: 2, den: 1 }),
            metal: 2,
            crew: 0,
            water: 0,
        }),
        storage: Some(ProductionConfig {
            multiplier: None,
            metal: 1000000,
            crew: 1000000,
            water: 1000000,
        }),
        cost: Some(CostConfig {
            multiplier: Some(Multiplier { num: 3, den: 2 }),
            time: 600,
            metal: 4,
            crew: 1,
            water: 2,
        }),
    };
    GalaxyConfig {
        system_count: 0,
        size: GalaxySize { x: 3, y: 3 },
        systems: SystemConfig {
            structures: vec![(StructureType::AsteroidMine, mine)],
            resources: Resources {
                metal: 10,
                water: 5,
                crew: 3,
            },
        },
    }
}

#[test]
fn test_score_triangular() {
    // A system with one structure at level 4 and no others scores
    // 1 + 2 + 3 + 4 = 10
    let config = mine_config();
    let mut system = System::from_database(
        0,
        Resources {
            metal: 0,
            water: 0,
            crew: 0,
        },
        vec![(StructureType::AsteroidMine, 4)],
        Vec::new(),
    );
    assert_eq!(system.score(0, &config), 10);

    // And one with levels 1 and 2 scores 1 + (1 + 2) = 4
    let mut system = System::from_database(
        0,
        Resources {
            metal: 0,
            water: 0,
            crew: 0,
        },
        vec![
            (StructureType::AsteroidMine, 1),
            (StructureType::Colony, 2),
        ],
        Vec::new(),
    );
    assert_eq!(system.score(0, &config), 4);
}

#[test]
fn test_split_advance_equals_single_advance() {
    // Production counted in whole cycles: advancing 0 -> 1800 -> 3600
    // yields exactly what a single 0 -> 3600 advance yields
    let config = mine_config();
    let mut split = System::new(0, &config.systems, &config);
    let mut single = System::new(0, &config.systems, &config);

    split.update_to_tick(1800, &config);
    split.update_to_tick(3600, &config);
    single.update_to_tick(3600, &config);

    assert_eq!(split.get_resources(), single.get_resources());
    assert_eq!(split.get_resources().metal, 12); // 10 + 2 per hour

    // The same across an uneven split
    let mut uneven = System::new(0, &config.systems, &config);
    uneven.update_to_tick(17, &config);
    uneven.update_to_tick(1799, &config);
    uneven.update_to_tick(3600, &config);
    assert_eq!(uneven.get_resources(), single.get_resources());
}

#[test]
fn test_get_details_system_summary() {
    let config = mine_config();
    let mut system = System::new(0, &config.systems, &config);
    let details = system.get_details(3600, &config, None).unwrap();
    match details {
        Details::System(info) => {
            assert_eq!(info.score, 1);
            assert_eq!(
                info.resources,
                Resources {
                    metal: 12,
                    water: 5,
                    crew: 3
                }
            );
            assert_eq!(
                info.production,
                Resources {
                    metal: 2,
                    crew: 0,
                    water: 0
                }
            );
            assert_eq!(info.structures, vec![(StructureType::AsteroidMine, 1)]);
            assert!(info.events.is_empty());
        }
        Details::Structure(_) => panic!("expected a system summary"),
    }
}

#[test]
fn test_get_details_structure_view() {
    let config = mine_config();
    let mut system = System::new(0, &config.systems, &config);
    let details = system
        .get_details(0, &config, Some(StructureType::AsteroidMine))
        .unwrap();
    match details {
        Details::Structure(info) => {
            assert_eq!(info.level, 1);
            assert_eq!(
                info.production,
                Some(Resources {
                    metal: 2,
                    crew: 0,
                    water: 0
                })
            );
            // Only the colony lists what can be built
            assert!(info.builds.is_none());
        }
        Details::System(_) => panic!("expected a structure view"),
    }
}

#[test]
fn test_cost_curve_rounding() {
    // Multiplier 3/2 with rounding to nearest: 4 -> 6 -> 9, and
    // 600 -> 900 -> 1350; level 0 is free
    let config = mine_config();
    let mut system = System::from_database(
        0,
        Resources {
            metal: 100,
            water: 100,
            crew: 100,
        },
        vec![(StructureType::AsteroidMine, 1)],
        Vec::new(),
    );
    // Cost at level 2: resources 6 / 1.5 -> 2 (crew), 3 (water), 900 ticks
    let event = system.build(0, &config, StructureType::AsteroidMine).unwrap();
    assert_eq!(event.completion, 900);
    assert_eq!(
        system.get_resources(),
        Resources {
            metal: 94,
            water: 97,
            crew: 98
        }
    );
}

#[test]
fn test_stats_text() {
    let config = mine_config();
    let mut galaxy = Galaxy::new(config, 0);
    let system = System::from_database(
        0,
        Resources {
            metal: 7,
            water: 0,
            crew: 0,
        },
        vec![(StructureType::AsteroidMine, 2)],
        Vec::new(),
    );
    galaxy.replace_systems(vec![(Coords { x: 1, y: 2 }, system)]);

    // At tick 900 the level-2 mine (4 metal per hour, every 900
    // ticks) has produced one unit
    let stats = galaxy.stats(900).unwrap();
    assert_eq!(
        stats,
        "System count: 0\nSystem at (1, 2) has score 3 and metal 8\n"
    );
    // Taking stats moved the clock, so the galaxy is dirty
    assert!(galaxy.needs_persist());
}

#[test]
fn test_seconds_to_readable() {
    assert_eq!(seconds_to_readable(3661), "1:01:01");
    assert_eq!(seconds_to_readable(125), " 2:05");
    assert_eq!(seconds_to_readable(59), " 0:59");
    assert_eq!(seconds_to_readable(0), " 0:00");
    assert_eq!(seconds_to_readable(7325), "2:02:05");
    assert_eq!(seconds_to_readable(36000), "10:00:00");
}

#[test]
fn test_resource_table() {
    let resources = Resources {
        metal: 12,
        crew: 4,
        water: 8,
    };
    let production = Resources {
        metal: 2,
        crew: 1,
        water: 3,
    };
    assert_eq!(
        resource_table(&resources, &production),
        "<table width=600 border=1 cellspacing=0 cellpadding=3><tr><td>\u{1f4b0} 12</td><td>\u{1f9d1} 4</td><td>\u{1f4a7} 8</td><td>\u{1f3c3} 2/1/3</td></tr></table>"
    );
}

#[test]
fn test_cost_from_map() {
    let entries = vec![
        ("metal".to_string(), 25usize),
        ("water".to_string(), 10),
        ("ticks".to_string(), 600),
    ];
    let cost = Cost::from_map(&entries);
    assert_eq!(cost.resources.metal, 25);
    assert_eq!(cost.resources.water, 10);
    assert_eq!(cost.resources.crew, 0); // absent keys read as 0
    assert_eq!(cost.ticks, 600);

    // The first entry for a key wins
    let entries = vec![("metal".to_string(), 1usize), ("metal".to_string(), 9)];
    let cost = Cost::from_map(&entries);
    assert_eq!(cost.resources.metal, 1);
}

#[test]
fn test_error_messages() {
    assert_eq!(GameError::OutOfOrderTick.message(), "Tick is out of order");
    assert_eq!(
        GameError::AlreadyBuilding.message(),
        "Already building a structure"
    );
    assert_eq!(GameError::StructureNotFound.message(), "Structure not found");
    assert_eq!(
        GameError::InsufficientResources.message(),
        "Not enough resources"
    );
    assert_eq!(GameError::GalaxyNotFound.message(), "Galaxy not found");
    assert_eq!(
        GameError::GalaxyAlreadyExists.message(),
        "Galaxy already exists"
    );
}

#[test]
fn test_register_event_keeps_order() {
    let config = mine_config();
    let mut system = System::new(0, &config.systems, &config);
    let ev = |completion: usize, st: Option<StructureType>| Event {
        completion,
        action: EventCallback::Build,
        structure: st,
    };
    system.register_event(ev(50, Some(StructureType::AsteroidMine)));
    system.register_event(ev(30, None));
    system.register_event(ev(40, None));
    system.register_event(ev(30, Some(StructureType::Colony)));
    let completions: Vec<usize> = system.get_events().iter().map(|e| e.completion).collect();
    assert_eq!(completions, vec![30, 30, 40, 50]);
    // A tie completes after the events already pending
    assert_eq!(system.get_events()[0].structure, None);
    assert_eq!(system.get_events()[1].structure, Some(StructureType::Colony));
}

#[test]
fn test_tick_is_wall_clock() {
    let t = galactic_war::tick();
    // The machine clock stands well past the epoch
    assert!(t > 1_000_000_000);
}
