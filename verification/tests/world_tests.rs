use starframe::blocks::BlockType;
use starframe::queries::{
    active_draft_id, current_tick, draft_blocks, draft_placements, factions_sorted, latest_sim_run,
    minerals_in_range, pick_face, player_faction_id, system_rows, systems_sorted, Face,
};
use starframe::seed::{
    ai_faction, ai_home, initial_game_state, scout_blocks, starting_world, system_name, AI_FACTION_ID,
    GALAXY_SYSTEMS, PLAYER_FACTION_ID, STARTING_FUEL,
};
use starframe::text::decimal_string;
use starframe::validation::validate;
use starframe::settle::{
    choose_home_system, claim_system, name_is_blank, new_player_faction, settle_planet,
    CreateFactionError,
};
use starframe::sorting::sort_by_key;
use starframe::tick::{advance_clock, economy_in_range, run_tick, splitmix64, TickError};
use starframe::world::{
    Faction, FleetShip, GameState, Planet, Ship, ShipDesignDraft, ShipDesignDraftBlock, SimRun,
    SystemInfo,
};

fn faction(id: u64, name: &str, is_ai: bool) -> Faction {
    Faction {
        id,
        name: name.to_string(),
        is_ai,
        minerals: 0,
        energy: 0,
        research: 0,
        home_system_id: 0,
    }
}

fn planet(id: u64, system_id: u64, owner: Option<u64>, m: i64, e: i64, r: i64) -> Planet {
    Planet {
        id,
        system_id,
        owner_faction_id: owner,
        population: 0,
        minerals_output: m,
        energy_output: e,
        research_output: r,
    }
}

fn system(id: u64, name: &str, owner: Option<u64>) -> SystemInfo {
    SystemInfo { id, name: name.to_string(), owner_faction_id: owner }
}

#[test]
fn splitmix64_known_values() {
    assert_eq!(splitmix64(0), 0xE220_A839_7B1D_CDAF);
    assert_ne!(splitmix64(1), splitmix64(0));
    assert_eq!(splitmix64(0x9E37_79B9_7F4A_7C15), splitmix64(0x9E37_79B9_7F4A_7C15));
}

#[test]
fn tick_credits_owned_planets_and_advances_clock() {
    let gs = initial_game_state();
    let planets = vec![
        planet(1, 10, Some(1), 50, 40, 10),
        planet(2, 11, Some(1), 5, 6, 7),
        planet(3, 12, Some(2), 1, 2, 3),
        planet(4, 13, None, 100, 100, 100),
        planet(5, 14, Some(99), 100, 100, 100),
    ];
    let mut factions = vec![faction(1, "Blue", false), faction(2, "Red", true)];
    assert!(economy_in_range(&factions, &planets));
    let next = run_tick(Some(gs), &planets, &mut factions).unwrap();
    assert_eq!(next.current_tick, 1);
    assert_eq!(next.rng_seed, splitmix64(gs.rng_seed));
    assert_eq!(next.id, 1);
    assert_eq!((factions[0].minerals, factions[0].energy, factions[0].research), (55, 46, 17));
    assert_eq!((factions[1].minerals, factions[1].energy, factions[1].research), (1, 2, 3));
    assert_eq!(factions[0].name, "Blue");
}

#[test]
fn tick_without_clock_row_fails() {
    let mut factions = vec![faction(1, "Blue", false)];
    let r = run_tick(None, &vec![planet(1, 1, Some(1), 9, 9, 9)], &mut factions);
    assert_eq!(r, Err(TickError::NotInitialized));
    assert_eq!(TickError::NotInitialized.message(), "game state not initialized");
    assert_eq!(factions[0].minerals, 0);
}

#[test]
fn economy_order_does_not_matter() {
    let planets = vec![planet(1, 1, Some(1), 3, 0, 0), planet(2, 2, Some(1), -1, 0, 0), planet(3, 3, Some(2), 7, 0, 0)];
    let mut reversed = planets.clone();
    reversed.reverse();
    let mut a = vec![faction(1, "A", false), faction(2, "B", false)];
    let mut b = a.clone();
    run_tick(Some(initial_game_state()), &planets, &mut a).unwrap();
    run_tick(Some(initial_game_state()), &reversed, &mut b).unwrap();
    assert_eq!(a, b);
    assert_eq!(a[0].minerals, 2);
    assert_eq!(a[1].minerals, 7);
}

#[test]
fn economy_overflow_is_detected() {
    let mut f = faction(1, "Rich", false);
    f.minerals = i64::MAX - 1;
    let planets = vec![planet(1, 1, Some(1), 5, 0, 0)];
    assert!(!economy_in_range(&vec![f], &planets));
    let mut g = faction(1, "Poor", false);
    g.minerals = i64::MAX - 1;
    // Credits to a different faction are not counted against this one.
    assert!(economy_in_range(&vec![g], &vec![planet(1, 1, Some(2), 5, 0, 0)]));
}

#[test]
fn clock_advance_keeps_schema() {
    let gs = GameState { id: 1, current_tick: 41, rng_seed: 7, schema_version: 3 };
    let next = advance_clock(gs);
    assert_eq!(next, GameState { id: 1, current_tick: 42, rng_seed: splitmix64(7), schema_version: 3 });
}

#[test]
fn home_is_lowest_id_unowned_system() {
    let systems = vec![system(5, "E", None), system(2, "B", Some(9)), system(3, "C", None), system(9, "I", None)];
    assert_eq!(choose_home_system(&"Terrans".to_string(), false, &systems), Ok(3));
}

#[test]
fn create_faction_errors_in_order() {
    let systems = vec![system(1, "A", Some(7))];
    assert_eq!(
        choose_home_system(&"   ".to_string(), true, &systems),
        Err(CreateFactionError::NameRequired)
    );
    assert_eq!(
        choose_home_system(&"".to_string(), false, &systems),
        Err(CreateFactionError::NameRequired)
    );
    assert_eq!(
        choose_home_system(&"Terrans".to_string(), true, &systems),
        Err(CreateFactionError::AlreadyHasFaction)
    );
    assert_eq!(
        choose_home_system(&"Terrans".to_string(), false, &systems),
        Err(CreateFactionError::NoUnownedSystem)
    );
    assert_eq!(CreateFactionError::NameRequired.message(), "faction name is required");
    assert_eq!(
        CreateFactionError::AlreadyHasFaction.message(),
        "this identity already controls a faction"
    );
    assert_eq!(
        CreateFactionError::NoUnownedSystem.message(),
        "no unowned system available to settle"
    );
}

#[test]
fn blank_names() {
    assert!(name_is_blank(&"".to_string()));
    assert!(name_is_blank(&" \t\n\u{A0}".to_string()));
    assert!(!name_is_blank(&"  x ".to_string()));
    assert!(!name_is_blank(&"越".to_string()));
}

#[test]
fn blank_names_follow_trim() {
    let all: String = "\u{9}\u{A}\u{B}\u{C}\u{D} \u{85}\u{A0}\u{1680}\u{2000}\u{2005}\u{200A}\u{2028}\u{2029}\u{202F}\u{205F}\u{3000}"
        .to_string();
    assert!(name_is_blank(&all));
    assert_eq!(all.trim(), "");
    for c in ['\u{8}', '\u{E}', '\u{1F}', '\u{180E}', '\u{200B}', '\u{FEFF}', 'a', '0'] {
        let s = format!(" {} ", c);
        assert!(!name_is_blank(&s));
        assert!(!s.trim().is_empty());
    }
    for code in 0u32..=0x10FFFF {
        if let Some(c) = char::from_u32(code) {
            assert_eq!(name_is_blank(&c.to_string()), c.is_whitespace(), "U+{:04X}", code);
        }
    }
}

#[test]
fn settling_a_home() {
    let f = new_player_faction("Terrans".to_string(), 4);
    assert_eq!((f.id, f.is_ai, f.minerals, f.energy, f.research, f.home_system_id), (0, false, 500, 500, 0, 4));
    let s = claim_system(system(4, "D", None), 12);
    assert_eq!(s.owner_faction_id, Some(12));
    assert_eq!(s.name, "D");
    let p = settle_planet(planet(8, 4, None, 50, 40, 10), 12);
    assert_eq!(p.owner_faction_id, Some(12));
    assert_eq!(p.population, 100);
    assert_eq!(p.minerals_output, 50);
}

#[test]
fn seeded_world() {
    let gs = initial_game_state();
    assert_eq!(gs, GameState { id: 1, current_tick: 0, rng_seed: 0x9E37_79B9_7F4A_7C15, schema_version: 1 });
    assert_eq!(system_name(0), "System 1");
    assert_eq!(system_name(7), "System 8");
    let ids: Vec<u64> = (11..11 + GALAXY_SYSTEMS).collect();
    let home = ai_home(&ids);
    assert_eq!(home, 15);
    let ai = ai_faction(home);
    assert_eq!(ai.name, "AI Raiders");
    assert!(ai.is_ai);
    assert_eq!((ai.minerals, ai.energy, ai.research, ai.home_system_id), (1000, 1000, 0, 15));
}

#[test]
fn starting_world_seeds_both_factions() {
    let ids: Vec<u64> = (11..11 + GALAXY_SYSTEMS).collect();
    let w = starting_world(&ids);
    assert_eq!(w.game_state, initial_game_state());

    // Systems: named in order; the AI holds the middle one, the player the lowest other.
    assert_eq!(w.systems.len(), 8);
    for (i, s) in w.systems.iter().enumerate() {
        assert_eq!(s.id, 11 + i as u64);
        assert_eq!(s.name, format!("System {}", i + 1));
        let owner = match s.id {
            15 => Some(AI_FACTION_ID),
            11 => Some(PLAYER_FACTION_ID),
            _ => None,
        };
        assert_eq!(s.owner_faction_id, owner);
    }

    assert_eq!(w.factions.len(), 2);
    let ai = &w.factions[0];
    assert_eq!((ai.id, ai.name.as_str(), ai.is_ai), (1, "AI Raiders", true));
    assert_eq!((ai.minerals, ai.energy, ai.research, ai.home_system_id), (1000, 1000, 0, 15));
    let pl = &w.factions[1];
    assert_eq!((pl.id, pl.name.as_str(), pl.is_ai), (2, "Player", false));
    assert_eq!((pl.minerals, pl.energy, pl.research, pl.home_system_id), (500, 500, 0, 11));

    assert_eq!(w.planets.len(), 8);
    for (i, p) in w.planets.iter().enumerate() {
        assert_eq!((p.id, p.system_id), (i as u64 + 1, 11 + i as u64));
        assert_eq!((p.minerals_output, p.energy_output, p.research_output), (50, 40, 10));
        match p.system_id {
            15 => assert_eq!((p.owner_faction_id, p.population), (Some(1), 100)),
            11 => assert_eq!((p.owner_faction_id, p.population), (Some(2), 100)),
            _ => assert_eq!((p.owner_faction_id, p.population), (None, 0)),
        }
    }

    // A valid Scout per faction: core 50 + engine 75 + reactor 50 credits.
    assert!(validate(&scout_blocks()).is_valid);
    assert_eq!(w.designs.len(), 2);
    for (i, d) in w.designs.iter().enumerate() {
        let fid = i as u64 + 1;
        assert_eq!((d.id, d.faction_id, d.name.as_str()), (fid, fid, "Scout"));
        assert_eq!((d.total_cost, d.max_hp, d.block_count, d.created_tick), (175, 150, 3, 0));
        assert_eq!(d.total_mass_halves, 14);
    }
    assert_eq!(w.design_blocks.len(), 6);
    for (k, b) in w.design_blocks.iter().enumerate() {
        assert_eq!((b.id, b.design_id), (k as u64 + 1, k as u64 / 3 + 1));
    }
    let kinds: Vec<BlockType> = w.design_blocks.iter().map(|b| b.block_type).collect();
    assert_eq!(
        kinds,
        vec![
            BlockType::CommandCore,
            BlockType::Engine,
            BlockType::Reactor,
            BlockType::CommandCore,
            BlockType::Engine,
            BlockType::Reactor
        ]
    );

    assert_eq!(
        w.ships,
        vec![
            Ship { id: 1, design_id: 1, faction_id: 1, system_id: 15, hp: 150, fuel: STARTING_FUEL },
            Ship { id: 2, design_id: 2, faction_id: 2, system_id: 11, hp: 150, fuel: STARTING_FUEL },
        ]
    );
    assert_eq!(w.fleets.len(), 2);
    assert_eq!((w.fleets[0].id, w.fleets[0].faction_id, w.fleets[0].system_id), (1, 1, 15));
    assert_eq!((w.fleets[1].id, w.fleets[1].faction_id, w.fleets[1].system_id), (2, 2, 11));
    for f in &w.fleets {
        assert_eq!(f.name, "Home Fleet");
        assert_eq!((f.dest_system_id, f.arrival_tick), (None, None));
    }
    assert_eq!(
        w.fleet_ships,
        vec![FleetShip { ship_id: 1, fleet_id: 1 }, FleetShip { ship_id: 2, fleet_id: 2 }]
    );
}

#[test]
fn starting_world_player_home_skips_the_ai_home() {
    // Unordered ids: the AI takes the fifth; the player the smallest of the rest.
    let ids: Vec<u64> = vec![40, 30, 90, 70, 3, 50, 60, 20];
    let w = starting_world(&ids);
    assert_eq!(w.factions[0].home_system_id, 3);
    assert_eq!(w.factions[1].home_system_id, 20);
    assert_eq!(w.ships[1].system_id, 20);
    assert_eq!(w.fleets[1].system_id, 20);
    assert_eq!(w.systems[7].owner_faction_id, Some(2));
    assert_eq!(w.systems[4].owner_faction_id, Some(1));
}

#[test]
fn decimal_strings() {
    assert_eq!(decimal_string(0), "0");
    assert_eq!(decimal_string(12345), "12345");
    assert_eq!(decimal_string(-7), "-7");
    assert_eq!(decimal_string(i128::MIN), i128::MIN.to_string());
    assert_eq!(decimal_string(i128::MAX), i128::MAX.to_string());
}

#[test]
fn splitmix64_distinct_seeds_give_distinct_outputs() {
    let outs: Vec<u64> = (0..64u64).map(splitmix64).collect();
    for i in 0..outs.len() {
        for j in 0..i {
            assert_ne!(outs[i], outs[j]);
        }
    }
}

#[test]
fn client_queries() {
    assert_eq!(current_tick(&vec![]), None);
    assert_eq!(
        current_tick(&vec![GameState { id: 1, current_tick: 9, rng_seed: 0, schema_version: 1 }]),
        Some(9)
    );

    let sorted = factions_sorted(vec![faction(3, "C", false), faction(1, "A", true), faction(2, "B", false)]);
    let ids: Vec<u64> = sorted.iter().map(|f| f.id).collect();
    assert_eq!(ids, vec![1, 2, 3]);

    let fs = vec![faction(3, "C", false), faction(1, "A", true), faction(2, "B", false)];
    assert_eq!(player_faction_id(&fs), Some(2));
    assert_eq!(player_faction_id(&vec![faction(1, "A", true)]), None);

    let run = |id: u64, to: u64| SimRun { run_id: id, requested_ticks: 1, from_tick: to - 1, to_tick: to, completed_at_micros: 0 };
    assert_eq!(latest_sim_run(&vec![]), None);
    assert_eq!(latest_sim_run(&vec![run(1, 5), run(3, 7), run(2, 6)]), Some(run(3, 7)));

    let draft = |id: u64, faction_id: u64| ShipDesignDraft { id, faction_id, name: "d".to_string(), updated_at_micros: 0 };
    let drafts = vec![draft(4, 1), draft(7, 2), draft(6, 1)];
    assert_eq!(active_draft_id(&drafts, 1), Some(6));
    assert_eq!(active_draft_id(&drafts, 3), None);

    let blk = |id: u64, draft_id: u64, x: i32, t: BlockType| ShipDesignDraftBlock { id, draft_id, x, y: 0, z: 1, block_type: t, rotation: 2 };
    let rows = vec![blk(1, 6, 0, BlockType::CommandCore), blk(2, 4, 1, BlockType::Hull), blk(3, 6, 1, BlockType::Engine)];
    let cells = draft_blocks(&rows, 6);
    assert_eq!(cells, vec![([0, 0, 1], BlockType::CommandCore), ([1, 0, 1], BlockType::Engine)]);
    let placements = draft_placements(&cells);
    assert_eq!(placements.len(), 2);
    assert_eq!((placements[1].x, placements[1].z, placements[1].rotation), (1, 1, 0));
    assert_eq!(placements[1].block_type, BlockType::Engine);
}

#[test]
fn systems_table() {
    let systems = systems_sorted(vec![system(2, "Beta", Some(1)), system(1, "Alpha", None), system(3, "Gamma", Some(9))]);
    let factions = vec![faction(1, "Blue", false)];
    let planets = vec![planet(1, 2, Some(1), 50, 0, 0), planet(2, 2, None, 25, 0, 0), planet(3, 3, None, 7, 0, 0)];
    assert!(minerals_in_range(&planets, 2));
    let rows = system_rows(&systems, &factions, &planets);
    assert_eq!(rows.len(), 3);
    assert_eq!((rows[0].name.as_str(), rows[0].owner.as_str(), rows[0].planet_count, rows[0].minerals_per_tick), ("Alpha", "\u{2014}", 0, 0));
    assert_eq!((rows[1].name.as_str(), rows[1].owner.as_str(), rows[1].planet_count, rows[1].minerals_per_tick), ("Beta", "Blue", 2, 75));
    assert_eq!((rows[2].name.as_str(), rows[2].owner.as_str(), rows[2].planet_count, rows[2].minerals_per_tick), ("Gamma", "\u{2014}", 1, 7));
}

#[test]
fn picking_a_face() {
    let p = pick_face([1, 2, 3], Face::NegY);
    assert_eq!(p.ghost_cell, [1, 1, 3]);
    assert_eq!(p.remove, Some([1, 2, 3]));
    assert_eq!(pick_face([0, 0, 0], Face::PosZ).ghost_cell, [0, 0, 1]);
}

#[test]
fn sorting_keeps_every_row() {
    let v = sort_by_key(vec![planet(5, 0, None, 0, 0, 0), planet(2, 0, None, 1, 0, 0), planet(2, 0, None, 2, 0, 0), planet(9, 0, None, 0, 0, 0)]);
    let ids: Vec<u64> = v.iter().map(|p| p.id).collect();
    assert_eq!(ids, vec![2, 2, 5, 9]);
    // Rows with equal ids keep their order.
    assert_eq!((v[0].minerals_output, v[1].minerals_output), (1, 2));
}
