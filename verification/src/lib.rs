use vstd::prelude::*;

pub mod span;
pub mod text;
pub mod token;
pub mod error;
pub mod lexer;
pub mod ast;
pub mod edit;
pub mod parser;
pub mod syntax;
pub mod diagnostic;
pub mod report;
pub mod boundary;
pub mod effects;
pub mod types;
pub mod sourcemap;
pub mod notation;
pub mod contracts;
pub mod cli;
pub mod render;
pub mod paths;
pub mod hover;
pub mod table;
pub mod suggest;
pub mod checkenv;
pub mod imports;
pub mod envbuild;
pub mod judge;
pub mod fnstate;
pub mod names;
pub mod patterns;
pub mod infer;
pub mod fncheck;
pub mod check;
pub mod eval;
pub mod pbt;
pub mod seeds;
pub mod json;
pub mod diag_json;
pub mod emit;
pub mod mcp;
pub mod project;
pub mod fmt;
