pub mod coordinator;
pub mod reconcile;
pub mod watchdog;
