//! Finds definitions that nothing in a project refers to.
pub mod analysis;
pub mod languages;
pub mod project;
pub mod shebang;
pub mod symbols;
pub mod syntax;
pub mod text;
