//! Package management: the package database, installing, removing,
//! repositories and updates.
pub mod database;
pub mod install;
pub mod remove;
pub mod repository;
pub mod update;
