//! Core of a geometric-construction DSL compiler: per-node-type behaviors
//! (index collection, triviality, weight aggregation, display ordering,
//! entity-containment search, evaluation dispatch) over a closed schema
//! model, plus a parser for a small textual overload grammar and an emitter
//! that lowers parsed overload specifications into runtime dispatch records
//! with built-in argument conversion.

pub mod definition;
pub mod evaluate;
pub mod kind;
pub mod overload;
pub mod parser;
pub mod role;
pub mod token;
pub mod weights;
