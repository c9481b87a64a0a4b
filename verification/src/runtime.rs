//! The box, running: the decisions every task of the daemon makes.

pub mod access;
pub mod api;
pub mod control;
pub mod day;
pub mod fleet;
pub mod outbox;
pub mod overrides;
pub mod planner;
pub mod s2;
pub mod ship;
pub mod start;
pub mod transport;
