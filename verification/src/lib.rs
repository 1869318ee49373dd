//! A checked-builder generator: given the model of a data aggregate (a name
//! plus an ordered list of named, typed fields), it derives the full family of
//! staged-construction artifacts — one state descriptor, one setter capability
//! and one getter capability per field, the transitive forwarding rules between
//! them, and the build gate that is reachable only once every field has been
//! supplied.

pub mod chain;
pub mod config_builder;
pub mod generator;
pub mod model;
pub mod names;
