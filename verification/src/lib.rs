//! Semantic checker for a declarative entity-component-system description
//! language: modules define components, events, entity prototypes and
//! systems, and may reference each other's definitions. The checker
//! validates field defaults against declared types, resolves references in
//! three stages (type check, in-module, cross-module), and aggregates every
//! diagnostic instead of stopping at the first.

pub mod ecs;
pub mod toml_parser;
