//! Graphoid core: arenas for the execution graph, the graph-shaped namespace,
//! the FFI type layer and C declaration parser, and the language parser.

pub mod arena;
pub mod node;
pub mod text;
pub mod error;
pub mod ffi;
pub mod namespace;
pub mod token;
pub mod ast;
pub mod parser;
pub mod execution_graph;
pub mod converter;
pub mod crypto;
pub mod net;
pub mod modules;
