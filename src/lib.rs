//! A small concurrent language: compile-time registry, channel resolution,
//! instruction compilation with jump patching, and a resumable evaluator.

pub mod error;
pub mod datatype;
pub mod registry;
pub mod ast;
pub mod instruction;
pub mod channel;
pub mod compile;
pub mod env;
pub mod eval;
pub mod program;
pub mod parse_tree;
