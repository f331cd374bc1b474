//! Core of a note-taking library: a hierarchy of note groups with
//! cycle-safe reparenting, a paged note loader with a bounded cache,
//! and the validation rules both share.

pub mod config;
pub mod hierarchy;
pub mod ids;
pub mod logging;
pub mod notes;
pub mod order;
pub mod panel_actions;
pub mod performance;
pub mod state;
pub mod text;
pub mod theme;
pub mod time;
pub mod validation;
