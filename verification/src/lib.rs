//! A small registry of projects, each with a list of profile names and the
//! selection that was last confirmed for it.

pub mod commands;
pub mod error;
pub mod order;
pub mod project;
pub mod registry;
pub mod settings;
pub mod store;
pub mod text;
