//! The persistent world rows: clock, factions, systems, planets, designs,
//! ships, fleets, orders, drafts, the combat log, and batch-run records.
use vstd::prelude::*;
use crate::blocks::{BlockType, OrderStatus, OrderType};
use crate::sorting::Keyed;

verus! {

/// The simulation clock and RNG seed (a single row, id 1).
#[derive(Clone, Copy, Debug, PartialEq, Eq, Structural)]
pub struct GameState {
    pub id: u64,
    pub current_tick: u64,
    pub rng_seed: u64,
    pub schema_version: u32,
}

/// An empire: its resources and home system.
#[derive(Clone, Debug, PartialEq, Eq)]
pub struct Faction {
    pub id: u64,
    pub name: String,
    pub is_ai: bool,
    pub minerals: i64,
    pub energy: i64,
    pub research: i64,
    pub home_system_id: u64,
}

/// The part of a star system the rules read: its id, name, and owner.
#[derive(Clone, Debug, PartialEq, Eq)]
pub struct SystemInfo {
    pub id: u64,
    pub name: String,
    pub owner_faction_id: Option<u64>,
}

/// A planet and its per-tick output.
#[derive(Clone, Copy, Debug, PartialEq, Eq, Structural)]
pub struct Planet {
    pub id: u64,
    pub system_id: u64,
    pub owner_faction_id: Option<u64>,
    pub population: i64,
    pub minerals_output: i64,
    pub energy_output: i64,
    pub research_output: i64,
}

/// A committed ship design with its precomputed stats (mass in halves).
#[derive(Clone, Debug, PartialEq, Eq)]
pub struct ShipDesign {
    pub id: u64,
    pub faction_id: u64,
    pub name: String,
    pub total_mass_halves: i64,
    pub total_cost: i64,
    pub max_hp: i64,
    pub thrust: i64,
    pub attack: i64,
    pub block_count: i32,
    pub created_tick: u64,
}

/// A ship in the world: its design, owner, system, hull points and fuel.
#[derive(Clone, Copy, Debug, PartialEq, Eq, Structural)]
pub struct Ship {
    pub id: u64,
    pub design_id: u64,
    pub faction_id: u64,
    pub system_id: u64,
    pub hp: i64,
    pub fuel: i64,
}

/// One block of a committed design.
#[derive(Clone, Copy, Debug, PartialEq, Eq, Structural)]
pub struct ShipDesignBlock {
    pub id: u64,
    pub design_id: u64,
    pub x: i32,
    pub y: i32,
    pub z: i32,
    pub block_type: BlockType,
    pub rotation: u8,
}

/// A fleet, with its transit state.
#[derive(Clone, Debug, PartialEq, Eq)]
pub struct Fleet {
    pub id: u64,
    pub faction_id: u64,
    pub system_id: u64,
    pub name: String,
    pub dest_system_id: Option<u64>,
    pub arrival_tick: Option<u64>,
}

/// Fleet membership: a ship is in at most one fleet.
#[derive(Clone, Copy, Debug, PartialEq, Eq, Structural)]
pub struct FleetShip {
    pub ship_id: u64,
    pub fleet_id: u64,
}

/// A queued order.
#[derive(Clone, Copy, Debug, PartialEq, Eq, Structural)]
pub struct Order {
    pub id: u64,
    pub faction_id: u64,
    pub order_type: OrderType,
    pub status: OrderStatus,
    pub target_id: Option<u64>,
    pub target_system_id: Option<u64>,
    pub ship_id: Option<u64>,
    pub fleet_id: Option<u64>,
    pub created_tick: u64,
    pub complete_tick: Option<u64>,
}

/// An editor draft; `updated_at_micros` is its last edit time in
/// microseconds since the Unix epoch.
#[derive(Clone, Debug, PartialEq, Eq)]
pub struct ShipDesignDraft {
    pub id: u64,
    pub faction_id: u64,
    pub name: String,
    pub updated_at_micros: i64,
}

/// One block of an editor draft.
#[derive(Clone, Copy, Debug, PartialEq, Eq, Structural)]
pub struct ShipDesignDraftBlock {
    pub id: u64,
    pub draft_id: u64,
    pub x: i32,
    pub y: i32,
    pub z: i32,
    pub block_type: BlockType,
    pub rotation: u8,
}

/// One attack in the combat log.
#[derive(Clone, Copy, Debug, PartialEq, Eq, Structural)]
pub struct CombatEvent {
    pub id: u64,
    pub tick: u64,
    pub system_id: u64,
    pub attacker_ship_id: u64,
    pub defender_ship_id: u64,
    pub attacker_faction_id: u64,
    pub defender_faction_id: u64,
    pub damage_dealt: i64,
    pub destroyed: bool,
}

/// The record of one completed batch of ticks; `completed_at_micros` is in
/// microseconds since the Unix epoch.
#[derive(Clone, Copy, Debug, PartialEq, Eq, Structural)]
pub struct SimRun {
    pub run_id: u64,
    pub requested_ticks: u64,
    pub from_tick: u64,
    pub to_tick: u64,
    pub completed_at_micros: i64,
}

impl Keyed for Faction {
    open spec fn key_of(&self) -> u64 {
        self.id
    }

    fn key(&self) -> (k: u64) {
        self.id
    }
}

impl Keyed for Planet {
    open spec fn key_of(&self) -> u64 {
        self.id
    }

    fn key(&self) -> (k: u64) {
        self.id
    }
}

impl Keyed for SystemInfo {
    open spec fn key_of(&self) -> u64 {
        self.id
    }

    fn key(&self) -> (k: u64) {
        self.id
    }
}

} // verus!
