pub mod analysis;
pub mod ast;
pub mod error;
pub mod exec;
pub mod graph;
pub mod interpreter;
pub mod invariants;
pub mod laws;
pub mod lexer;
pub mod messages;
pub mod model;
pub mod names;
pub mod parser;
pub mod report;
pub mod scope;
pub mod tables;
pub mod text;

