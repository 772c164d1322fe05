pub mod runner;
pub mod schedule;
pub mod startup;
pub mod timing;
pub mod types;
