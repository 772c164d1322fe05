pub mod import;
pub mod model;
pub mod service;
pub mod types;
