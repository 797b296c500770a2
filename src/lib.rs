//! Scaffolding of embedded firmware projects: a project is modelled as a tree of
//! directories and files, resolved from a configuration and upstream metadata,
//! and flattened into an ordered list of filesystem instructions.

pub mod components;
pub mod data;
pub mod manifest;
pub mod resolver;
pub mod templates;
pub mod text;
pub mod tree;
