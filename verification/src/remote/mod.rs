pub mod channels;
pub mod commands;
pub mod connector;
pub mod format;
pub mod http;
pub mod hub;
pub mod router;
pub mod store;
