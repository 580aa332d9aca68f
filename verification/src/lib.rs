pub mod text;
pub mod path;
pub mod strmap;
pub mod media;
pub mod command;
pub mod backends;
pub mod config;
pub mod orchestrator;
pub mod state;
pub mod collection;
pub mod json;
pub mod monitors;
pub mod cli;
pub mod flow;
pub mod restore;
pub mod collections_store;
pub mod theme_collections;
pub mod shell;
pub mod places;
pub mod report;
pub mod gui;
