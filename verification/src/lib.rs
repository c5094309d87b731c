//! A local task store with its consistency rules, and a heuristic reader of
//! free-text task descriptions.

pub mod clock;
pub mod commands;
pub mod consistency;
pub mod database;
pub mod entities;
pub mod identifiers;
pub mod interpreter;
pub mod laws;
pub mod patterns;
pub mod relations;
pub mod sorting;
pub mod tables;
pub mod text;
