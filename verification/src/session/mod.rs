pub mod feed;
pub mod ids;
pub mod permission;
pub mod rules;
pub mod task_queue;
pub mod types;
