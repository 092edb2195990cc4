//! Core simulation library for a sect-management game: a layered modifier
//! engine that turns native numeric quantities into effective ones, a
//! per-member progression ladder with quota-gated promotions, and a task
//! lifecycle with eligibility checks, per-turn costs and reward settlement.

pub mod building;
pub mod config;
pub mod cultivation;
pub mod disciple;
pub mod event;
mod external;
pub mod interactive;
pub mod map;
pub mod modifier;
pub mod pill;
pub mod relationship;
pub mod sect;
pub mod task;
