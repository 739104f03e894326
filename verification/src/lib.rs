//! Canonicalization of patterns: names are resolved and checked for
//! shadowing, and type constraints are collected for the solver.

pub mod ast;
pub mod collections;
pub mod env;
pub mod ident;
pub mod num;
pub mod numerals;
pub mod pattern;
pub mod region;
pub mod scope;
pub mod subs;
pub mod symbol;
pub mod types;
