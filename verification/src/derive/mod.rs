//! The declaration side of a machine: the builder calls of a definition function, the rules
//! they have to follow, the split of the states into regions, the machine's description
//! and its transition table.

pub mod parse;
pub mod syntax;
pub mod parse_fsm;
pub mod graph;
pub mod validation;
pub mod meta;
pub mod plantuml;
pub mod codegen;
pub mod laws;
pub mod definition;
