//! The starting world: the clock row, the galaxy's systems and planets, the
//! AI and player factions, and each faction's Scout design, ship and home fleet.
use vstd::prelude::*;
use vstd::string::StringExecFns;
use crate::blocks::BlockType;
use crate::design::{lemma_total_bounded, ship_stats, stats_match, total, BlockPlacement, Stat};
use crate::settle::{new_player_faction, PLAYER_START_ENERGY, PLAYER_START_MINERALS, SETTLED_POPULATION};
use crate::text::{decimal, decimal_string};
use crate::validation::{adjacent, cell_of, cell_set, count_kind, design_is_valid, lemma_connected_through, Cell};
use crate::world::{Faction, Fleet, FleetShip, GameState, Planet, Ship, ShipDesign, ShipDesignBlock, SystemInfo};

verus! {

/// Systems in the seeded galaxy.
pub const GALAXY_SYSTEMS: u64 = 8;

/// The seed the clock starts from.
pub const INITIAL_RNG_SEED: u64 = 0x9E37_79B9_7F4A_7C15;

/// The clock row at tick 0.
pub fn initial_game_state() -> (gs: GameState)
    ensures
        gs == (GameState { id: 1, current_tick: 0, rng_seed: INITIAL_RNG_SEED, schema_version: 1 }),
{
    GameState { id: 1, current_tick: 0, rng_seed: INITIAL_RNG_SEED, schema_version: 1 }
}

/// The name of the system seeded `index`-th (counting from 0): "System {index + 1}".
pub fn system_name(index: u64) -> (s: String)
    requires
        index < u64::MAX,
    ensures
        s@ == "System "@ + decimal(index + 1),
{
    let n = decimal_string((index + 1) as i128);
    String::from_str("System ").concat(n.as_str())
}

/// The AI's home: the system in the middle of the seeding order.
pub fn ai_home(system_ids: &Vec<u64>) -> (home: u64)
    requires
        system_ids@.len() == GALAXY_SYSTEMS,
    ensures
        home == system_ids@[(GALAXY_SYSTEMS / 2) as int],
{
    system_ids[(GALAXY_SYSTEMS / 2) as usize]
}

/// Starting stock of the AI faction.
pub const AI_START_MINERALS: i64 = 1_000;
pub const AI_START_ENERGY: i64 = 1_000;

/// The AI faction row (id 0: the store assigns it) homed at `home`.
pub fn ai_faction(home: u64) -> (f: Faction)
    ensures
        f.id == 0,
        f.name@ == "AI Raiders"@,
        f.is_ai,
        f.minerals == AI_START_MINERALS,
        f.energy == AI_START_ENERGY,
        f.research == 0,
        f.home_system_id == home,
{
    Faction {
        id: 0,
        name: String::from_str("AI Raiders"),
        is_ai: true,
        minerals: AI_START_MINERALS,
        energy: AI_START_ENERGY,
        research: 0,
        home_system_id: home,
    }
}

/// Id of the AI faction in the starting world.
pub const AI_FACTION_ID: u64 = 1;

/// Id of the player faction in the starting world.
pub const PLAYER_FACTION_ID: u64 = 2;

/// Fuel a starting ship carries: ten jumps' worth.
pub const STARTING_FUEL: i64 = 100;

/// Index, in seeding order, of the AI's home system.
pub open spec fn ai_home_index() -> int {
    (GALAXY_SYSTEMS / 2) as int
}

/// `h` is the smallest system id other than the AI's home: the player's home.
pub open spec fn is_player_home(ids: Seq<u64>, h: u64) -> bool {
    &&& exists|i: int| 0 <= i < ids.len() && i != ai_home_index() && #[trigger] ids[i] == h
    &&& forall|j: int| 0 <= j < ids.len() && j != ai_home_index() ==> h <= #[trigger] ids[j]
}

/// The player's home system in the starting world.
pub open spec fn spec_player_home(ids: Seq<u64>) -> u64 {
    choose|h: u64| is_player_home(ids, h)
}

/// Who owns system `sid` in the starting world.
pub open spec fn seeded_owner(ids: Seq<u64>, sid: u64) -> Option<u64> {
    if sid == ids[ai_home_index()] {
        Some(AI_FACTION_ID)
    } else if sid == spec_player_home(ids) {
        Some(PLAYER_FACTION_ID)
    } else {
        None
    }
}

/// The home system of faction `fid` (1: AI, 2: player) in the starting world.
pub open spec fn seeded_home(ids: Seq<u64>, fid: u64) -> u64 {
    if fid == AI_FACTION_ID {
        ids[ai_home_index()]
    } else {
        spec_player_home(ids)
    }
}

/// The starter "Scout" design: a command core between an engine and a reactor.
pub open spec fn spec_scout_blocks() -> Seq<BlockPlacement> {
    seq![
        BlockPlacement { x: 0, y: 0, z: 0, block_type: BlockType::CommandCore, rotation: 0 },
        BlockPlacement { x: -1i32, y: 0, z: 0, block_type: BlockType::Engine, rotation: 0 },
        BlockPlacement { x: 1, y: 0, z: 0, block_type: BlockType::Reactor, rotation: 0 },
    ]
}

/// The starter design's blocks.
pub fn scout_blocks() -> (v: Vec<BlockPlacement>)
    ensures
        v@ == spec_scout_blocks(),
{
    let mut v: Vec<BlockPlacement> = Vec::new();
    v.push(BlockPlacement::new(0, 0, 0, BlockType::CommandCore));
    v.push(BlockPlacement::new(-1, 0, 0, BlockType::Engine));
    v.push(BlockPlacement::new(1, 0, 0, BlockType::Reactor));
    proof {
        assert(v@ =~= spec_scout_blocks());
    }
    v
}

/// The starter design passes validation.
pub proof fn lemma_scout_valid()
    ensures
        design_is_valid(spec_scout_blocks()),
{
    let s = spec_scout_blocks();
    let cells = s.map_values(|b: BlockPlacement| cell_of(b));
    let c0: Cell = (0, 0, 0);
    let c1: Cell = (-1i32, 0, 0);
    let c2: Cell = (1, 0, 0);
    assert(cells =~= seq![c0, c1, c2]);
    assert(cells.no_duplicates());
    cells.unique_seq_to_set();
    assert(cell_set(s) == cells.to_set());
    assert(cells.to_set().contains(c0)) by {
        assert(cells[0] == c0);
    }
    assert forall|c: Cell| #[trigger] cell_set(s).contains(c) implies c == c0 || adjacent(c0, c) by {
        let k = choose|k: int| 0 <= k < cells.len() && cells[k] == c;
    }
    lemma_connected_through(cell_set(s), c0);
    reveal_with_fuel(count_kind, 4);
    reveal_with_fuel(total, 4);
    assert(s.drop_last() =~= seq![s[0], s[1]]);
    assert(s.drop_last().drop_last() =~= seq![s[0]]);
    assert(s.drop_last().drop_last().drop_last() =~= Seq::<BlockPlacement>::empty());
}

/// The smallest system id other than the AI's home.
fn player_home(system_ids: &Vec<u64>) -> (h: u64)
    requires
        system_ids@.len() == GALAXY_SYSTEMS,
    ensures
        is_player_home(system_ids@, h),
        h == spec_player_home(system_ids@),
{
    let mut best: u64 = system_ids[0];
    let mut i: usize = 1;
    while i < system_ids.len()
        invariant
            1 <= i <= system_ids@.len(),
            system_ids@.len() == GALAXY_SYSTEMS,
            exists|k: int| 0 <= k < i && k != ai_home_index() && #[trigger] system_ids@[k] == best,
            forall|j: int| 0 <= j < i && j != ai_home_index() ==> best <= #[trigger] system_ids@[j],
        decreases system_ids@.len() - i,
    {
        if i != (GALAXY_SYSTEMS / 2) as usize && system_ids[i] < best {
            best = system_ids[i];
        }
        i = i + 1;
    }
    proof {
        assert(is_player_home(system_ids@, best));
        let c = spec_player_home(system_ids@);
        assert(is_player_home(system_ids@, c));
        let kb = choose|k: int| 0 <= k < system_ids@.len() && k != ai_home_index() && #[trigger] system_ids@[k] == best;
        let kc = choose|k: int| 0 <= k < system_ids@.len() && k != ai_home_index() && #[trigger] system_ids@[k] == c;
        assert(best <= system_ids@[kc]);
        assert(c <= system_ids@[kb]);
    }
    best
}

/// The row of block `b` in design `design_id`.
pub open spec fn spec_block_row(id: u64, design_id: u64, b: BlockPlacement) -> ShipDesignBlock {
    ShipDesignBlock { id, design_id, x: b.x, y: b.y, z: b.z, block_type: b.block_type, rotation: b.rotation }
}

fn push_design_blocks(rows: &mut Vec<ShipDesignBlock>, blocks: &Vec<BlockPlacement>, design_id: u64, first_id: u64)
    requires
        blocks@.len() == 3,
        first_id <= 100,
    ensures
        final(rows)@ == old(rows)@ + seq![
            spec_block_row(first_id, design_id, blocks@[0]),
            spec_block_row((first_id + 1) as u64, design_id, blocks@[1]),
            spec_block_row((first_id + 2) as u64, design_id, blocks@[2]),
        ],
{
    let ghost start = rows@;
    let mut j: usize = 0;
    while j < 3
        invariant
            0 <= j <= 3,
            blocks@.len() == 3,
            first_id <= 100,
            rows@.len() == start.len() + j,
            forall|k: int| 0 <= k < start.len() ==> rows@[k] == start[k],
            forall|k: int|
                0 <= k < j ==> #[trigger] rows@[start.len() + k] == spec_block_row(
                    (first_id + k) as u64,
                    design_id,
                    blocks@[k],
                ),
        decreases 3 - j,
    {
        let b = blocks[j];
        rows.push(
            ShipDesignBlock {
                id: first_id + j as u64,
                design_id,
                x: b.x,
                y: b.y,
                z: b.z,
                block_type: b.block_type,
                rotation: b.rotation,
            },
        );
        j = j + 1;
    }
    proof {
        assert(rows@ =~= start + seq![
            spec_block_row(first_id, design_id, blocks@[0]),
            spec_block_row((first_id + 1) as u64, design_id, blocks@[1]),
            spec_block_row((first_id + 2) as u64, design_id, blocks@[2]),
        ]) by {
            assert(rows@[(start.len() + 0) as int] == spec_block_row((first_id + 0) as u64, design_id, blocks@[0]));
            assert(rows@[(start.len() + 1) as int] == spec_block_row((first_id + 1) as u64, design_id, blocks@[1]));
            assert(rows@[(start.len() + 2) as int] == spec_block_row((first_id + 2) as u64, design_id, blocks@[2]));
        }
    }
}

/// The whole starting world.
pub struct StartingWorld {
    pub game_state: GameState,
    pub systems: Vec<SystemInfo>,
    pub factions: Vec<Faction>,
    pub planets: Vec<Planet>,
    pub designs: Vec<ShipDesign>,
    pub design_blocks: Vec<ShipDesignBlock>,
    pub ships: Vec<Ship>,
    pub fleets: Vec<Fleet>,
    pub fleet_ships: Vec<FleetShip>,
}

/// `d` is the starter design row of faction `fid`, with the Scout's stats.
pub open spec fn is_scout_design(d: ShipDesign, fid: u64) -> bool {
    let s = spec_scout_blocks();
    &&& d.id == fid
    &&& d.faction_id == fid
    &&& d.name@ == "Scout"@
    &&& d.total_mass_halves == total(s, Stat::MassHalves)
    &&& d.total_cost == total(s, Stat::Cost)
    &&& d.max_hp == total(s, Stat::Hp)
    &&& d.thrust == total(s, Stat::Thrust)
    &&& d.attack == total(s, Stat::Attack)
    &&& d.block_count == s.len()
    &&& d.created_tick == 0
}

/// `f` is the home fleet of faction `fid`, in system `home`.
pub open spec fn is_home_fleet(f: Fleet, fid: u64, home: u64) -> bool {
    &&& f.id == fid
    &&& f.faction_id == fid
    &&& f.system_id == home
    &&& f.name@ == "Home Fleet"@
    &&& f.dest_system_id is None
    &&& f.arrival_tick is None
}

/// The starting world over the seeded systems `system_ids` (in seeding
/// order). The store hands out ids 1, 2, ... in insertion order on an empty
/// database, and the rows here carry those ids: factions 1 (AI) and 2
/// (player), one planet per system (ids 1..=8 in system order), and for each
/// faction a Scout design (with three blocks), one ship of it, and a home
/// fleet holding that ship, all numbered by faction.
pub fn starting_world(system_ids: &Vec<u64>) -> (w: StartingWorld)
    requires
        system_ids@.len() == GALAXY_SYSTEMS,
        system_ids@.no_duplicates(),
    ensures
        w.game_state == (GameState { id: 1, current_tick: 0, rng_seed: INITIAL_RNG_SEED, schema_version: 1 }),
        // Systems: named in order, owned by the AI and player homes only.
        w.systems@.len() == GALAXY_SYSTEMS,
        forall|i: int|
            0 <= i < GALAXY_SYSTEMS ==> {
                &&& (#[trigger] w.systems@[i]).id == system_ids@[i]
                &&& w.systems@[i].name@ == "System "@ + decimal(i + 1)
                &&& w.systems@[i].owner_faction_id == seeded_owner(system_ids@, system_ids@[i])
            },
        spec_player_home(system_ids@) != system_ids@[ai_home_index()],
        is_player_home(system_ids@, spec_player_home(system_ids@)),
        // Factions: the AI, then the player.
        w.factions@.len() == 2,
        w.factions@[0].id == AI_FACTION_ID,
        w.factions@[0].name@ == "AI Raiders"@,
        w.factions@[0].is_ai,
        w.factions@[0].minerals == AI_START_MINERALS,
        w.factions@[0].energy == AI_START_ENERGY,
        w.factions@[0].research == 0,
        w.factions@[0].home_system_id == system_ids@[ai_home_index()],
        w.factions@[1].id == PLAYER_FACTION_ID,
        w.factions@[1].name@ == "Player"@,
        !w.factions@[1].is_ai,
        w.factions@[1].minerals == PLAYER_START_MINERALS,
        w.factions@[1].energy == PLAYER_START_ENERGY,
        w.factions@[1].research == 0,
        w.factions@[1].home_system_id == spec_player_home(system_ids@),
        // Planets: one per system; the two homes are owned and settled.
        w.planets@.len() == GALAXY_SYSTEMS,
        forall|i: int|
            0 <= i < GALAXY_SYSTEMS ==> #[trigger] w.planets@[i] == (Planet {
                id: (i + 1) as u64,
                system_id: system_ids@[i],
                owner_faction_id: seeded_owner(system_ids@, system_ids@[i]),
                population: if seeded_owner(system_ids@, system_ids@[i]) is Some {
                    SETTLED_POPULATION
                } else {
                    0
                },
                minerals_output: 50,
                energy_output: 40,
                research_output: 10,
            }),
        // Designs: a Scout per faction, which passes validation.
        design_is_valid(spec_scout_blocks()),
        w.designs@.len() == 2,
        is_scout_design(w.designs@[0], AI_FACTION_ID),
        is_scout_design(w.designs@[1], PLAYER_FACTION_ID),
        w.design_blocks@ == seq![
            spec_block_row(1, 1, spec_scout_blocks()[0]),
            spec_block_row(2, 1, spec_scout_blocks()[1]),
            spec_block_row(3, 1, spec_scout_blocks()[2]),
            spec_block_row(4, 2, spec_scout_blocks()[0]),
            spec_block_row(5, 2, spec_scout_blocks()[1]),
            spec_block_row(6, 2, spec_scout_blocks()[2]),
        ],
        // Ships: one Scout per faction at home, at full hull points.
        w.ships@ == seq![
            Ship {
                id: 1,
                design_id: 1,
                faction_id: AI_FACTION_ID,
                system_id: seeded_home(system_ids@, AI_FACTION_ID),
                hp: total(spec_scout_blocks(), Stat::Hp) as i64,
                fuel: STARTING_FUEL,
            },
            Ship {
                id: 2,
                design_id: 2,
                faction_id: PLAYER_FACTION_ID,
                system_id: seeded_home(system_ids@, PLAYER_FACTION_ID),
                hp: total(spec_scout_blocks(), Stat::Hp) as i64,
                fuel: STARTING_FUEL,
            },
        ],
        // Fleets: a home fleet per faction, each holding that faction's ship.
        w.fleets@.len() == 2,
        is_home_fleet(w.fleets@[0], AI_FACTION_ID, seeded_home(system_ids@, AI_FACTION_ID)),
        is_home_fleet(w.fleets@[1], PLAYER_FACTION_ID, seeded_home(system_ids@, PLAYER_FACTION_ID)),
        w.fleet_ships@ == seq![FleetShip { ship_id: 1, fleet_id: 1 }, FleetShip { ship_id: 2, fleet_id: 2 }],
{
    let home_ai = ai_home(system_ids);
    let home_pl = player_home(system_ids);
    proof {
        let k = choose|k: int| 0 <= k < system_ids@.len() && k != ai_home_index() && #[trigger] system_ids@[k] == home_pl;
        assert(system_ids@[k] != system_ids@[ai_home_index()]);
    }

    let mut systems: Vec<SystemInfo> = Vec::new();
    let mut planets: Vec<Planet> = Vec::new();
    let mut i: usize = 0;
    while i < system_ids.len()
        invariant
            0 <= i <= GALAXY_SYSTEMS,
            system_ids@.len() == GALAXY_SYSTEMS,
            home_ai == system_ids@[ai_home_index()],
            home_pl == spec_player_home(system_ids@),
            systems@.len() == i,
            planets@.len() == i,
            forall|j: int|
                0 <= j < i ==> {
                    &&& (#[trigger] systems@[j]).id == system_ids@[j]
                    &&& systems@[j].name@ == "System "@ + decimal(j + 1)
                    &&& systems@[j].owner_faction_id == seeded_owner(system_ids@, system_ids@[j])
                },
            forall|j: int|
                0 <= j < i ==> #[trigger] planets@[j] == (Planet {
                    id: (j + 1) as u64,
                    system_id: system_ids@[j],
                    owner_faction_id: seeded_owner(system_ids@, system_ids@[j]),
                    population: if seeded_owner(system_ids@, system_ids@[j]) is Some {
                        SETTLED_POPULATION
                    } else {
                        0
                    },
                    minerals_output: 50,
                    energy_output: 40,
                    research_output: 10,
                }),
        decreases GALAXY_SYSTEMS - i,
    {
        let sid = system_ids[i];
        let owner: Option<u64> = if sid == home_ai {
            Some(AI_FACTION_ID)
        } else if sid == home_pl {
            Some(PLAYER_FACTION_ID)
        } else {
            None
        };
        systems.push(SystemInfo { id: sid, name: system_name(i as u64), owner_faction_id: owner });
        planets.push(
            Planet {
                id: (i + 1) as u64,
                system_id: sid,
                owner_faction_id: owner,
                population: if owner.is_some() {
                    SETTLED_POPULATION
                } else {
                    0
                },
                minerals_output: 50,
                energy_output: 40,
                research_output: 10,
            },
        );
        i = i + 1;
    }

    let mut factions: Vec<Faction> = Vec::new();
    factions.push(Faction { id: AI_FACTION_ID, ..ai_faction(home_ai) });
    factions.push(
        Faction { id: PLAYER_FACTION_ID, ..new_player_faction(String::from_str("Player"), home_pl) },
    );

    let scout = scout_blocks();
    proof {
        lemma_scout_valid();
        assert forall|n: int, k: Stat| 0 <= n <= scout@.len() implies i64::MIN <= #[trigger] total(
            scout@.take(n),
            k,
        ) <= i64::MAX by {
            lemma_total_bounded(scout@.take(n), k);
        }
    }
    let st = ship_stats(scout.as_slice());
    proof {
        lemma_total_bounded(scout@, Stat::Hp);
    }

    let mut designs: Vec<ShipDesign> = Vec::new();
    let mut design_blocks: Vec<ShipDesignBlock> = Vec::new();
    let mut ships: Vec<Ship> = Vec::new();
    let mut fleets: Vec<Fleet> = Vec::new();
    let mut fleet_ships: Vec<FleetShip> = Vec::new();
    let mut f: u64 = 1;
    while f <= 2
        invariant
            1 <= f <= 3,
            scout@ == spec_scout_blocks(),
            stats_match(st, scout@),
            home_ai == system_ids@[ai_home_index()],
            home_pl == spec_player_home(system_ids@),
            designs@.len() == f - 1,
            forall|g: int| 0 <= g < f - 1 ==> is_scout_design(#[trigger] designs@[g], (g + 1) as u64),
            design_blocks@.len() == 3 * (f - 1),
            forall|k: int|
                0 <= k < 3 * (f - 1) ==> #[trigger] design_blocks@[k] == spec_block_row(
                    (k + 1) as u64,
                    (k / 3 + 1) as u64,
                    spec_scout_blocks()[k % 3],
                ),
            ships@.len() == f - 1,
            forall|g: int|
                0 <= g < f - 1 ==> #[trigger] ships@[g] == (Ship {
                    id: (g + 1) as u64,
                    design_id: (g + 1) as u64,
                    faction_id: (g + 1) as u64,
                    system_id: seeded_home(system_ids@, (g + 1) as u64),
                    hp: st.max_hp,
                    fuel: STARTING_FUEL,
                }),
            fleets@.len() == f - 1,
            forall|g: int|
                0 <= g < f - 1 ==> is_home_fleet(
                    #[trigger] fleets@[g],
                    (g + 1) as u64,
                    seeded_home(system_ids@, (g + 1) as u64),
                ),
            fleet_ships@.len() == f - 1,
            forall|g: int|
                0 <= g < f - 1 ==> #[trigger] fleet_ships@[g] == (FleetShip {
                    ship_id: (g + 1) as u64,
                    fleet_id: (g + 1) as u64,
                }),
        decreases 3 - f,
    {
        let home = if f == AI_FACTION_ID {
            home_ai
        } else {
            home_pl
        };
        designs.push(
            ShipDesign {
                id: f,
                faction_id: f,
                name: String::from_str("Scout"),
                total_mass_halves: st.mass_halves,
                total_cost: st.cost,
                max_hp: st.max_hp,
                thrust: st.thrust,
                attack: st.attack,
                block_count: st.block_count,
                created_tick: 0,
            },
        );
        let ghost before = design_blocks@;
        push_design_blocks(&mut design_blocks, &scout, f, 3 * (f - 1) + 1);
        proof {
            assert forall|k: int|
                0 <= k < 3 * f implies #[trigger] design_blocks@[k] == spec_block_row(
                (k + 1) as u64,
                (k / 3 + 1) as u64,
                spec_scout_blocks()[k % 3],
            ) by {
                if k >= 3 * (f - 1) {
                    let j = k - 3 * (f - 1);
                    assert(design_blocks@[k] == seq![
                        spec_block_row((3 * (f - 1) + 1) as u64, f, scout@[0]),
                        spec_block_row((3 * (f - 1) + 2) as u64, f, scout@[1]),
                        spec_block_row((3 * (f - 1) + 3) as u64, f, scout@[2]),
                    ][j]);
                    assert(k / 3 == f - 1 && k % 3 == j) by (nonlinear_arith)
                        requires
                            k == j + 3 * (f - 1),
                            0 <= j < 3,
                    ;
                } else {
                    assert(design_blocks@[k] == before[k]);
                }
            }
        }
        ships.push(Ship { id: f, design_id: f, faction_id: f, system_id: home, hp: st.max_hp, fuel: STARTING_FUEL });
        fleets.push(
            Fleet {
                id: f,
                faction_id: f,
                system_id: home,
                name: String::from_str("Home Fleet"),
                dest_system_id: None,
                arrival_tick: None,
            },
        );
        fleet_ships.push(FleetShip { ship_id: f, fleet_id: f });
        f = f + 1;
    }
    proof {
        assert(design_blocks@ =~= seq![
            spec_block_row(1, 1, spec_scout_blocks()[0]),
            spec_block_row(2, 1, spec_scout_blocks()[1]),
            spec_block_row(3, 1, spec_scout_blocks()[2]),
            spec_block_row(4, 2, spec_scout_blocks()[0]),
            spec_block_row(5, 2, spec_scout_blocks()[1]),
            spec_block_row(6, 2, spec_scout_blocks()[2]),
        ]) by {
            assert(design_blocks@[0] == spec_block_row(1, 1, spec_scout_blocks()[0int % 3]));
            assert(design_blocks@[1] == spec_block_row(2, 1, spec_scout_blocks()[1int % 3]));
            assert(design_blocks@[2] == spec_block_row(3, 1, spec_scout_blocks()[2int % 3]));
            assert(design_blocks@[3] == spec_block_row(4, (3int / 3 + 1) as u64, spec_scout_blocks()[3int % 3]));
            assert(design_blocks@[4] == spec_block_row(5, (4int / 3 + 1) as u64, spec_scout_blocks()[4int % 3]));
            assert(design_blocks@[5] == spec_block_row(6, (5int / 3 + 1) as u64, spec_scout_blocks()[5int % 3]));
        }
        assert(ships@ =~= seq![
            Ship {
                id: 1,
                design_id: 1,
                faction_id: AI_FACTION_ID,
                system_id: seeded_home(system_ids@, AI_FACTION_ID),
                hp: total(spec_scout_blocks(), Stat::Hp) as i64,
                fuel: STARTING_FUEL,
            },
            Ship {
                id: 2,
                design_id: 2,
                faction_id: PLAYER_FACTION_ID,
                system_id: seeded_home(system_ids@, PLAYER_FACTION_ID),
                hp: total(spec_scout_blocks(), Stat::Hp) as i64,
                fuel: STARTING_FUEL,
            },
        ]) by {
            assert(ships@[0] == ships@[(0 + 0) as int]);
            assert(ships@[1] == ships@[(0 + 1) as int]);
        }
        assert(fleet_ships@ =~= seq![FleetShip { ship_id: 1, fleet_id: 1 }, FleetShip { ship_id: 2, fleet_id: 2 }]) by {
            assert(fleet_ships@[0] == fleet_ships@[(0 + 0) as int]);
            assert(fleet_ships@[1] == fleet_ships@[(0 + 1) as int]);
        }
        assert(is_scout_design(designs@[0], 1));
        assert(is_scout_design(designs@[1], 2));
        assert(is_home_fleet(fleets@[0], 1, seeded_home(system_ids@, 1)));
        assert(is_home_fleet(fleets@[1], 2, seeded_home(system_ids@, 2)));
    }

    StartingWorld {
        game_state: initial_game_state(),
        systems,
        factions,
        planets,
        designs,
        design_blocks,
        ships,
        fleets,
        fleet_ships,
    }
}

} // verus!
