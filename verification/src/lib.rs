//! Call graphs across the Python modules and the declarative instance files
//! of a set of libraries.
//!
//! A build has three stages. Extraction reads every file of every library
//! root into a module table and a list of function records (`builder`,
//! `visit`, `extract`, `py`, `yaml`). Resolution then looks every raw name up
//! in the finished table (`resolve`). Flattening last gives every partial
//! binding the details of the function it wraps (`partial`). `graph` runs the
//! stages and assembles the result.

pub mod analyzer;
pub mod ast;
pub mod builder;
pub mod extract;
pub mod graph;
pub mod invariants;
pub mod ordered;
pub mod partial;
pub mod py;
pub mod resolve;
pub mod schema;
pub mod strmap;
pub mod text;
pub mod visit;
pub mod walk;
pub mod yaml;
