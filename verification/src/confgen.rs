//! Generating the configuration modules: which JSON tables are read, how
//! each is checked, and how the generated directory replaces the previous
//! output without ever leaving a half-written one in its place.
pub mod publish;
pub mod tables;
