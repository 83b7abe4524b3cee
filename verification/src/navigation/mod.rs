//! Navigation: the deterministic map generator's integer core, the
//! connectivity check that keeps every key point reachable, and the path
//! planner's per-request bookkeeping.
pub mod budget;
pub mod grid;
pub mod repair;
pub mod route;
pub mod scratch;
