pub mod migration;
