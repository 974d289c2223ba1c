//! Checking of function bodies.
//!
//! `state` holds the checker's state and its small transitions; `facts`,
//! `patterns`, `borrows` and `rules` say what single rules do to it; `model`
//! says what checking a whole expression does; `steps`, `call` and `expr`
//! carry that out; `entry` checks a module. The other modules prove what
//! holds of the model.
pub mod arguments;
pub mod bodies;
pub mod borrows;
pub mod call;
pub mod construction;
pub mod defaults;
pub mod dispatch;
pub mod entry;
pub mod expr;
pub mod facts;
pub mod flow;
pub mod forms;
pub mod growth;
pub mod laws;
pub mod lending;
pub mod matching;
pub mod members;
pub mod model;
pub mod ownership;
pub mod patterns;
pub mod provenance;
pub mod record;
pub mod rules;
pub mod state;
pub mod steps;
pub mod typing;
