pub mod ast;
pub mod cast;
pub mod cli;
pub mod context;
pub mod cte;
pub mod dialect;
pub mod error;
pub mod expr;
pub mod functions;
pub mod lexer;
pub mod link;
pub mod maps;
pub mod parser;
pub mod pipeline;
pub mod report;
pub mod resolver;
pub mod sql;
pub mod syntax;
pub mod table_spec;
pub mod text;
pub mod translation;
pub mod translator;
pub mod writer;
pub mod grammar;
pub mod laws;
pub mod fidelity;
