//! Core logic of the desktop agent: task queues, run reconciliation, scheduling,
//! remote-channel formatting and skill/team metadata, with machine-checked contracts.

pub mod clock;
pub mod json;
pub mod scheduler;
pub mod text;
pub mod session;
pub mod run;
pub mod remote;
pub mod skill;
pub mod storage;
pub mod team;
