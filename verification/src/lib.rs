//! Starframe: block-built ship designs and the deterministic empire tick.
//!
//! The crate holds the game rules that the server and the desktop client
//! share: per-block constants and derived ship stats, design validation
//! (required blocks, power balance, 6-neighbour connectivity), the economy
//! tick and its seeded clock, faction settlement, galaxy seeding, and the
//! read-side queries the client screens use.

pub mod blocks;
pub mod design;
pub mod text;
pub mod validation;
pub mod world;
pub mod tick;
pub mod sorting;
pub mod settle;
pub mod seed;
pub mod queries;
