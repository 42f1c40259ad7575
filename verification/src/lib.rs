//! A read-only recipe catalog: the entities it serves, the outcome of each
//! endpoint, and the assembly of a recipe's nested document from flat rows.

pub mod assembler;
pub mod document;
pub mod error;
pub mod grouping;
pub mod handlers;
pub mod models;
pub mod params;
pub mod steps;
pub mod store;
