//! Structural core of a multi-period economic policy solver.
//!
//! The numeric model (production, consumption and their derivatives) works on
//! real numbers and is supplied by the caller; this library owns the parts
//! that decide structure and control: which lands each agent holds, how the
//! sequence of periods is seeded, grown and advanced, and in which order the
//! backward-induction solver visits periods, including its iteration cap.
pub mod config;
pub mod horizon;
pub mod schedule;
