//! Version-locked manifest of external sources, and the logic that keeps it up to date.

pub mod bot;
pub mod command;
pub mod commit_message;
pub mod error;
pub mod forge;
pub mod git;
pub mod lock;
pub mod niv;
pub mod sources;
pub mod text;
pub mod update;
