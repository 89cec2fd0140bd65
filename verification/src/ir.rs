//! A wasm-shaped module, still in Rust types.
//!
//! This sits between the tree and the bytes on purpose. Lowering decides *what
//! wasm* to build; [`crate::encode`] decides *what bytes* that wasm is.
//!
//! Two vocabularies live here: the first, integer-only one that the expression
//! lowering in [`crate::emit`] builds, and [`m1`], the wider one with memory,
//! globals, tables, data and many functions.
use vstd::prelude::*;

verus! {

/// The value types of the integer vocabulary: `i32` alone.
#[derive(Debug, Clone, Copy, PartialEq, Eq, Structural)]
pub enum ValType {
    I32,
}

/// A function signature. Both vectors are the wasm ones, in order.
#[derive(Debug, Clone, PartialEq, Eq)]
pub struct FuncType {
    pub params: Vec<ValType>,
    pub results: Vec<ValType>,
}

/// A function imported from the host. Imported functions take the first
/// function indices, before every defined one.
#[derive(Debug, Clone, PartialEq, Eq)]
pub struct Import {
    pub module: String,
    pub name: String,
    pub type_index: u32,
}

/// One instruction, named after the wasm opcode it becomes.
#[derive(Debug, Clone, Copy, PartialEq, Eq, Structural)]
pub enum Ins {
    I32Const(i32),
    LocalGet(u32),
    /// Call the function at this index. Imports come first, so an index below
    /// the import count is a host call.
    Call(u32),
    I32Add,
    I32Sub,
    I32Mul,
    I32DivS,
    I32RemS,
}

/// A defined function: its type, its declared locals beyond the parameters as
/// run-length `(count, type)` groups, and its body. The body does not carry the
/// terminating `end`: that byte belongs to the encoder.
#[derive(Debug, Clone, PartialEq, Eq)]
pub struct Func {
    pub type_index: u32,
    pub locals: Vec<(u32, ValType)>,
    pub body: Vec<Ins>,
}

#[derive(Debug, Clone, Copy, PartialEq, Eq, Structural)]
pub enum ExportKind {
    Func,
}

#[derive(Debug, Clone, PartialEq, Eq)]
pub struct Export {
    pub name: String,
    pub kind: ExportKind,
    pub index: u32,
}

/// A whole module of the integer vocabulary.
#[derive(Debug, Clone, PartialEq, Eq)]
pub struct Module {
    pub types: Vec<FuncType>,
    pub imports: Vec<Import>,
    pub funcs: Vec<Func>,
    pub exports: Vec<Export>,
}

} // verus!

pub mod m1;
pub mod decode;
