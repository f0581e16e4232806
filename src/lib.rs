//! Formal/actual association checking and declarative-region uniqueness
//! for a VHDL front end.
//!
//! - `types`: symbols, positions, types, entities and diagnostics.
//! - `formal_region`: the formals of one interface list.
//! - `ast`: names, expressions and association lists.
//! - `region`: declarative regions, name lookup and homograph rejection.
//! - `context`: the type table and scopes, with the checks formal
//!   resolution delegates to them.
//! - `association`: formal resolution and association-list checking.
//! - `association_lemmas`: general facts about both, proved.
pub mod types;
pub mod formal_region;
pub mod region;
pub mod ast;
pub mod context;
pub mod association;
pub mod association_lemmas;
