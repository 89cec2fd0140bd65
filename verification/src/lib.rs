//! A verified compiler back end for a small JavaScript subset: lexing,
//! diagnostics, a syntax tree, lowering to a wasm-shaped module, and the
//! byte-exact WebAssembly encoder.
#![allow(unused_imports)]

pub mod diag;
pub mod text;
pub mod leb;
pub mod ir;
pub mod encode;
pub mod ast;
pub mod order;
pub mod emit;
pub mod utf8;
pub mod lex;
