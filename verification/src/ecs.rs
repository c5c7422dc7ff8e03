//! The module data model and the three-stage checker.

pub mod checker;
pub mod loader;
pub mod module;
