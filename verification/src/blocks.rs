//! Block kinds, order kinds, and the static per-block stats table.
use vstd::prelude::*;

verus! {

/// The kinds of block a ship design is built from.
#[derive(Clone, Copy, Debug, PartialEq, Eq, Structural)]
pub enum BlockType {
    Hull,
    Engine,
    Weapon,
    Reactor,
    Sensor,
    CommandCore,
}

/// The kinds of order a faction can queue for the tick to resolve.
#[derive(Clone, Copy, Debug, PartialEq, Eq, Structural)]
pub enum OrderType {
    MoveFleet,
    Attack,
    BuildShip,
    Colonize,
}

/// Progress of a queued order.
#[derive(Clone, Copy, Debug, PartialEq, Eq, Structural)]
pub enum OrderStatus {
    Pending,
    Active,
    Done,
    Failed,
}

/// Simulation ticks in one in-game day.
pub const TICKS_PER_DAY: u64 = 24;

/// Cost units built per tick.
pub const BUILD_RATE: i64 = 50;

/// Fuel consumed per system jump.
pub const FUEL_PER_JUMP: i64 = 10;

/// Upper bound on a ship's speed (distance units per tick).
pub const SPEED_MAX: u64 = 20;

/// Static stats contributed by one block.
///
/// Block masses are multiples of one half, so mass is counted in halves:
/// a mass of 1.5 is `mass_halves == 3`.
#[derive(Clone, Copy, Debug, PartialEq, Eq, Structural)]
pub struct BlockStats {
    pub mass_halves: i64,
    pub cost: i64,
    pub hp: i64,
    pub thrust: i64,
    pub attack: i64,
    /// Net power: reactors produce (positive), consumers draw (negative).
    pub power: i64,
}

/// The stats table, one row per block kind.
pub open spec fn spec_block_stats(b: BlockType) -> BlockStats {
    match b {
        BlockType::Hull => BlockStats { mass_halves: 2, cost: 10, hp: 50, thrust: 0, attack: 0, power: 0 },
        BlockType::Engine => BlockStats { mass_halves: 4, cost: 25, hp: 20, thrust: 10, attack: 0, power: -5i64 },
        BlockType::Weapon => BlockStats { mass_halves: 3, cost: 40, hp: 20, thrust: 0, attack: 10, power: -8i64 },
        BlockType::Reactor => BlockStats { mass_halves: 6, cost: 50, hp: 30, thrust: 0, attack: 0, power: 20 },
        BlockType::Sensor => BlockStats { mass_halves: 1, cost: 20, hp: 10, thrust: 0, attack: 0, power: -2i64 },
        BlockType::CommandCore => BlockStats { mass_halves: 4, cost: 100, hp: 100, thrust: 0, attack: 0, power: -3i64 },
    }
}

/// The stats one block of kind `b` contributes.
pub fn block_stats(b: BlockType) -> (s: BlockStats)
    ensures
        s == spec_block_stats(b),
        s.power > 0 <==> b == BlockType::Reactor,
        b != BlockType::Reactor && b != BlockType::Hull ==> s.power < 0,
        s.thrust == (if b == BlockType::Engine { 10i64 } else { 0i64 }),
        s.attack == (if b == BlockType::Weapon { 10i64 } else { 0i64 }),
{
    match b {
        BlockType::Hull => BlockStats { mass_halves: 2, cost: 10, hp: 50, thrust: 0, attack: 0, power: 0 },
        BlockType::Engine => BlockStats { mass_halves: 4, cost: 25, hp: 20, thrust: 10, attack: 0, power: -5 },
        BlockType::Weapon => BlockStats { mass_halves: 3, cost: 40, hp: 20, thrust: 0, attack: 10, power: -8 },
        BlockType::Reactor => BlockStats { mass_halves: 6, cost: 50, hp: 30, thrust: 0, attack: 0, power: 20 },
        BlockType::Sensor => BlockStats { mass_halves: 1, cost: 20, hp: 10, thrust: 0, attack: 0, power: -2 },
        BlockType::CommandCore => BlockStats { mass_halves: 4, cost: 100, hp: 100, thrust: 0, attack: 0, power: -3 },
    }
}

/// Every block has positive mass and cost, positive hp, and its other stats
/// stay within the small ranges the stat sums rely on.
pub proof fn lemma_block_stats_bounds(b: BlockType)
    ensures
        1 <= spec_block_stats(b).mass_halves <= 6,
        10 <= spec_block_stats(b).cost <= 100,
        10 <= spec_block_stats(b).hp <= 100,
        0 <= spec_block_stats(b).thrust <= 10,
        0 <= spec_block_stats(b).attack <= 10,
        -8 <= spec_block_stats(b).power <= 20,
{
}

/// The stats table, value by value: hull 1 mass, 10 cost, 50 hp; engine 2
/// mass, 25 cost, 20 hp, 10 thrust, draws 5; weapon 1.5 mass, 40 cost, 20 hp,
/// 10 attack, draws 8; reactor 3 mass, 50 cost, 30 hp, yields 20; sensor 0.5
/// mass, 20 cost, 10 hp, draws 2; command core 2 mass, 100 cost, 100 hp,
/// draws 3 (masses in halves below).
pub proof fn lemma_block_stats_table()
    ensures
        spec_block_stats(BlockType::Hull) == (BlockStats { mass_halves: 2, cost: 10, hp: 50, thrust: 0, attack: 0, power: 0 }),
        spec_block_stats(BlockType::Engine) == (BlockStats { mass_halves: 4, cost: 25, hp: 20, thrust: 10, attack: 0, power: -5i64 }),
        spec_block_stats(BlockType::Weapon) == (BlockStats { mass_halves: 3, cost: 40, hp: 20, thrust: 0, attack: 10, power: -8i64 }),
        spec_block_stats(BlockType::Reactor) == (BlockStats { mass_halves: 6, cost: 50, hp: 30, thrust: 0, attack: 0, power: 20 }),
        spec_block_stats(BlockType::Sensor) == (BlockStats { mass_halves: 1, cost: 20, hp: 10, thrust: 0, attack: 0, power: -2i64 }),
        spec_block_stats(BlockType::CommandCore) == (BlockStats { mass_halves: 4, cost: 100, hp: 100, thrust: 0, attack: 0, power: -3i64 }),
{
}

/// Only a reactor produces power; every other block but the hull draws it.
pub proof fn lemma_only_reactors_produce_power(b: BlockType)
    ensures
        spec_block_stats(b).power > 0 <==> b == BlockType::Reactor,
        b != BlockType::Reactor && b != BlockType::Hull ==> spec_block_stats(b).power < 0,
        b == BlockType::Hull ==> spec_block_stats(b).power == 0,
{
}

/// Only an engine gives thrust (10), and only a weapon gives attack (10).
pub proof fn lemma_only_engines_thrust_only_weapons_attack(b: BlockType)
    ensures
        spec_block_stats(b).thrust == (if b == BlockType::Engine { 10int } else { 0int }),
        spec_block_stats(b).attack == (if b == BlockType::Weapon { 10int } else { 0int }),
{
}

} // verus!
