//! Battle setup: Destiny attributes and kits of heroes, trial heroes, and the
//! entity identifiers of a fight.
pub mod attributes;
pub mod combat;
pub mod entities;
pub mod entity;
pub mod fight;
pub mod kit;
pub mod power;
pub mod setup;
pub mod team;
pub mod trial;
pub mod types;
