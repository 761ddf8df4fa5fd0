//! Deterministic randomization engine for a fixed game-ROM image.
//!
//! The library owns everything with algorithmic content: the seeded
//! xorshift generator, the badge pools and deck handling, the room
//! connectivity shuffler, and the byte-exact patch writer that turns
//! randomization decisions into mutations of an in-memory image.
//! Reading and writing the image file, parsing the room catalog from
//! JSON, and invoking the external checksum tool are left to callers.

pub mod badges;
pub mod catalog;
pub mod engine;
pub mod image;
pub mod modes;
pub mod rng;
