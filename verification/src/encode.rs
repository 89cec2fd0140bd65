//! A wasm module -> standard `.wasm` bytes.
//!
//! Written by hand because the output has to clear a load gate that is strict
//! about what a general-purpose encoder hides: canonical section order,
//! minimal LEB128, the exact `end` that terminates a function expression,
//! memarg alignment, signed-LEB range.
//!
//! Every writer here appends to an output buffer, and every one states exactly
//! which bytes it appends as a spec function of its input: that family of spec
//! functions is the binary format. The encoder is total: nothing here fails.
use vstd::prelude::*;
use vstd::string::*;
use vstd::utf8::*;

use crate::ir::{ExportKind, Func, FuncType, Import, Ins, Module, ValType};
use crate::leb::{
    leb_s, leb_u32, lemma_leb_s_roundtrip, lemma_leb_u_roundtrip, read_leb_s, read_leb_u, signed_32,
    signed_64, unsigned,
};

verus! {

/// The import-descriptor byte for a function, and the export-descriptor byte
/// for one. They are the same value in two different tables.
pub const DESCRIPTOR_FUNC: u8 = 0x00;
pub const DESCRIPTOR_TABLE: u8 = 0x01;
pub const DESCRIPTOR_MEMORY: u8 = 0x02;
pub const DESCRIPTOR_GLOBAL: u8 = 0x03;

// Section ids. Numeric order is not the required order: the data-count section
// is id 12 but sits between element (9) and code (10).
pub const SECTION_CUSTOM: u8 = 0;
pub const SECTION_TYPE: u8 = 1;
pub const SECTION_IMPORT: u8 = 2;
pub const SECTION_FUNCTION: u8 = 3;
pub const SECTION_TABLE: u8 = 4;
pub const SECTION_MEMORY: u8 = 5;
pub const SECTION_GLOBAL: u8 = 6;
pub const SECTION_EXPORT: u8 = 7;
pub const SECTION_START: u8 = 8;
pub const SECTION_ELEMENT: u8 = 9;
pub const SECTION_CODE: u8 = 10;
pub const SECTION_DATA: u8 = 11;
pub const SECTION_DATA_COUNT: u8 = 12;

/// Marks the start of a function type in the type section.
pub const FUNC_TYPE_TAG: u8 = 0x60;
/// Terminates an expression: the `end` opcode.
pub const END: u8 = 0x0b;

// -- byte sequences -----------------------------------------------------------

/// The concatenation of `f(item)` over `items`, in order.
pub open spec fn concat<T>(items: Seq<T>, f: spec_fn(T) -> Seq<u8>) -> Seq<u8>
    decreases items.len(),
{
    if items.len() == 0 {
        Seq::empty()
    } else {
        concat(items.drop_last(), f) + f(items.last())
    }
}

/// One more item of a concatenation.
pub proof fn lemma_concat_step<T>(items: Seq<T>, f: spec_fn(T) -> Seq<u8>, i: int)
    requires
        0 <= i < items.len(),
    ensures
        concat(items.take(i + 1), f) == concat(items.take(i), f) + f(items[i]),
{
    assert(items.take(i + 1).drop_last() =~= items.take(i));
}

/// The whole of a sequence is its longest prefix.
pub proof fn lemma_take_all<T>(items: Seq<T>)
    ensures
        items.take(items.len() as int) == items,
{
    assert(items.take(items.len() as int) =~= items);
}

/// Appends `bytes` to `out`.
pub fn extend(out: &mut Vec<u8>, bytes: &[u8])
    ensures
        final(out)@ == old(out)@ + bytes@,
{
    let ghost start = out@;
    let mut i: usize = 0;
    while i < bytes.len()
        invariant
            i <= bytes.len(),
            out@ == start + bytes@.take(i as int),
        decreases bytes.len() - i,
    {
        out.push(bytes[i]);
        assert(bytes@.take(i + 1) =~= bytes@.take(i as int).push(bytes@[i as int]));
        i += 1;
    }
    assert(bytes@.take(i as int) =~= bytes@);
}

/// `\0asm` plus version 1, little-endian: the eight bytes every module starts
/// with.
pub open spec fn header_bytes() -> Seq<u8> {
    seq![0x00u8, 0x61u8, 0x73u8, 0x6du8, 0x01u8, 0x00u8, 0x00u8, 0x00u8]
}

/// A fresh buffer holding the module header.
pub fn header() -> (v: Vec<u8>)
    ensures
        v@ == header_bytes(),
{
    let v: Vec<u8> = vec![0x00u8, 0x61u8, 0x73u8, 0x6du8, 0x01u8, 0x00u8, 0x00u8, 0x00u8];
    assert(v@ =~= header_bytes());
    v
}

// -- framing ------------------------------------------------------------------

/// A section: its id, its byte length, then its contents.
pub open spec fn section_bytes(id: u8, body: Seq<u8>) -> Seq<u8> {
    seq![id] + leb_u32(body.len() as u32) + body
}

/// A wasm vector: an element count, then the elements.
pub open spec fn vector_bytes(count: nat, elements: Seq<u8>) -> Seq<u8> {
    leb_u32(count as u32) + elements
}

/// A name: its UTF-8 byte length, then its UTF-8 bytes.
pub open spec fn name_bytes(text: Seq<char>) -> Seq<u8> {
    leb_u32(encode_utf8(text).len() as u32) + encode_utf8(text)
}

/// A section is self-describing: after its id byte, a LEB128 reader finds the
/// length of its contents, and exactly those contents follow, whatever comes
/// after the section.
pub proof fn law_section_reads_back(id: u8, body: Seq<u8>, rest: Seq<u8>)
    requires
        body.len() <= u32::MAX,
    ensures
        ({
            let b = section_bytes(id, body) + rest;
            let n = leb_u32(body.len() as u32).len() as int;
            &&& b[0] == id
            &&& read_leb_u(b.skip(1)) == Some((body.len(), n as nat))
            &&& b.subrange(1 + n, 1 + n + body.len() as int) == body
            &&& b.skip(1 + n + body.len() as int) == rest
        }),
{
    let b = section_bytes(id, body) + rest;
    let l = leb_u32(body.len() as u32);
    assert(b.skip(1) =~= l + (body + rest));
    lemma_leb_u_roundtrip(body.len(), body + rest);
    assert(b.subrange(1 + l.len() as int, 1 + l.len() + body.len() as int) =~= body);
    assert(b.skip(1 + l.len() + body.len() as int) =~= rest);
}

/// A name reads back: a LEB128 reader finds its UTF-8 length, and decoding
/// that many bytes after it gives the name again.
pub proof fn law_name_reads_back(text: Seq<char>, rest: Seq<u8>)
    requires
        encode_utf8(text).len() <= u32::MAX,
    ensures
        ({
            let b = name_bytes(text) + rest;
            let n = leb_u32(encode_utf8(text).len() as u32).len() as int;
            &&& read_leb_u(b) == Some((encode_utf8(text).len(), n as nat))
            &&& decode_utf8(b.subrange(n, n + encode_utf8(text).len() as int)) == text
        }),
{
    let e = encode_utf8(text);
    let l = leb_u32(e.len() as u32);
    let b = name_bytes(text) + rest;
    assert(b =~= l + (e + rest));
    lemma_leb_u_roundtrip(e.len(), e + rest);
    assert(b.subrange(l.len() as int, l.len() + e.len() as int) =~= e);
    encode_utf8_decode_utf8(text);
}

/// Writes a section whose contents are already built; the length is measured,
/// not predicted.
pub fn section(out: &mut Vec<u8>, id: u8, body: &[u8])
    ensures
        final(out)@ == old(out)@ + section_bytes(id, body@),
{
    out.push(id);
    unsigned(out, body.len() as u32);
    extend(out, body);
    assert(final(out)@ =~= old(out)@ + section_bytes(id, body@));
}

/// Writes a vector of `count` elements whose encodings are already built.
pub fn vector(out: &mut Vec<u8>, count: usize, elements: &[u8])
    ensures
        final(out)@ == old(out)@ + vector_bytes(count as nat, elements@),
{
    unsigned(out, count as u32);
    extend(out, elements);
    assert(final(out)@ =~= old(out)@ + vector_bytes(count as nat, elements@));
}

/// A name: its byte length, then its UTF-8 bytes.
pub fn name(out: &mut Vec<u8>, text: &str)
    ensures
        final(out)@ == old(out)@ + name_bytes(text@),
{
    let bytes = text.as_bytes();
    unsigned(out, bytes.len() as u32);
    extend(out, bytes);
    assert(final(out)@ =~= old(out)@ + name_bytes(text@));
}

// -- value types and limits ---------------------------------------------------

/// A wasm value type: the full set the encoder can write.
#[derive(Debug, Clone, Copy, PartialEq, Eq, Structural)]
pub enum ValueType {
    I32,
    I64,
    F32,
    F64,
    FuncRef,
    ExternRef,
}

/// The type byte of each value type.
pub open spec fn value_type_byte(t: ValueType) -> u8 {
    match t {
        ValueType::I32 => 0x7f,
        ValueType::I64 => 0x7e,
        ValueType::F32 => 0x7d,
        ValueType::F64 => 0x7c,
        ValueType::FuncRef => 0x70,
        ValueType::ExternRef => 0x6f,
    }
}

impl ValueType {
    pub fn byte(self) -> (b: u8)
        ensures
            b == value_type_byte(self),
    {
        match self {
            ValueType::I32 => 0x7f,
            ValueType::I64 => 0x7e,
            ValueType::F32 => 0x7d,
            ValueType::F64 => 0x7c,
            ValueType::FuncRef => 0x70,
            ValueType::ExternRef => 0x6f,
        }
    }

    /// The encoder's name for the integer vocabulary's value type.
    pub fn from_val_type(ty: ValType) -> (t: ValueType)
        ensures
            t == value_type_of(ty),
    {
        match ty {
            ValType::I32 => ValueType::I32,
        }
    }
}

/// The encoder's name for each value type of the integer vocabulary.
pub open spec fn value_type_of(ty: ValType) -> ValueType {
    match ty {
        ValType::I32 => ValueType::I32,
    }
}

/// The bytes of a list of value types, one byte each.
pub open spec fn types_bytes(ts: Seq<ValueType>) -> Seq<u8> {
    ts.map_values(|t: ValueType| value_type_byte(t))
}

#[derive(Debug, Clone, Copy, PartialEq, Eq)]
pub struct Limits {
    pub min: u32,
    pub max: Option<u32>,
}

/// Limits: a flag saying whether a maximum follows, the minimum, then the
/// maximum if there is one.
pub open spec fn limits_bytes(l: Limits) -> Seq<u8> {
    match l.max {
        None => seq![0x00u8] + leb_u32(l.min),
        Some(max) => seq![0x01u8] + leb_u32(l.min) + leb_u32(max),
    }
}

pub fn limits(out: &mut Vec<u8>, limits: Limits)
    ensures
        final(out)@ == old(out)@ + limits_bytes(limits),
{
    match limits.max {
        None => {
            out.push(0x00);
            unsigned(out, limits.min);
        },
        Some(max) => {
            out.push(0x01);
            unsigned(out, limits.min);
            unsigned(out, max);
        },
    }
    assert(final(out)@ =~= old(out)@ + limits_bytes(limits));
}

#[derive(Debug, Clone, Copy, PartialEq, Eq)]
pub struct TableType {
    pub element: ValueType,
    pub limits: Limits,
}

/// A table type: the reference type, then the limits.
pub open spec fn table_type_bytes(t: TableType) -> Seq<u8> {
    seq![value_type_byte(t.element)] + limits_bytes(t.limits)
}

fn table_type(out: &mut Vec<u8>, t: TableType)
    ensures
        final(out)@ == old(out)@ + table_type_bytes(t),
{
    out.push(t.element.byte());
    limits(out, t.limits);
    assert(final(out)@ =~= old(out)@ + table_type_bytes(t));
}

/// Writes one byte per value type.
fn value_types(out: &mut Vec<u8>, ts: &[ValueType])
    ensures
        final(out)@ == old(out)@ + types_bytes(ts@),
{
    let ghost start = out@;
    let mut i: usize = 0;
    while i < ts.len()
        invariant
            i <= ts.len(),
            out@ == start + types_bytes(ts@.take(i as int)),
        decreases ts.len() - i,
    {
        out.push(ts[i].byte());
        assert(types_bytes(ts@.take(i + 1)) =~= types_bytes(ts@.take(i as int)).push(
            value_type_byte(ts@[i as int]),
        ));
        i += 1;
    }
    assert(ts@.take(i as int) =~= ts@);
}

// -- signatures and the type section ------------------------------------------

/// A function signature over the encoder's own value types.
#[derive(Debug, Clone, PartialEq, Eq)]
pub struct Signature {
    pub params: Vec<ValueType>,
    pub results: Vec<ValueType>,
}

/// A function type: the tag, then the parameter and result vectors.
pub open spec fn sig_bytes(params: Seq<ValueType>, results: Seq<ValueType>) -> Seq<u8> {
    seq![FUNC_TYPE_TAG] + vector_bytes(params.len(), types_bytes(params)) + vector_bytes(
        results.len(),
        types_bytes(results),
    )
}

/// The bytes of one signature.
pub open spec fn signature_bytes(s: Signature) -> Seq<u8> {
    sig_bytes(s.params@, s.results@)
}

fn signature(out: &mut Vec<u8>, sig: &Signature)
    ensures
        final(out)@ == old(out)@ + signature_bytes(*sig),
{
    out.push(FUNC_TYPE_TAG);
    let mut params: Vec<u8> = Vec::new();
    value_types(&mut params, sig.params.as_slice());
    vector(out, sig.params.len(), params.as_slice());
    let mut results: Vec<u8> = Vec::new();
    value_types(&mut results, sig.results.as_slice());
    vector(out, sig.results.len(), results.as_slice());
    assert(final(out)@ =~= old(out)@ + signature_bytes(*sig));
}

/// The type section's contents.
pub open spec fn type_section_body(types: Seq<Signature>) -> Seq<u8> {
    vector_bytes(types.len(), concat(types, |s: Signature| signature_bytes(s)))
}

pub fn type_section(out: &mut Vec<u8>, types: &[Signature])
    ensures
        final(out)@ == old(out)@ + section_bytes(SECTION_TYPE, type_section_body(types@)),
{
    let mut elements: Vec<u8> = Vec::new();
    let mut i: usize = 0;
    while i < types.len()
        invariant
            i <= types.len(),
            elements@ == concat(types@.take(i as int), |s: Signature| signature_bytes(s)),
        decreases types.len() - i,
    {
        signature(&mut elements, &types[i]);
        proof {
            lemma_concat_step(types@, |s: Signature| signature_bytes(s), i as int);
        }
        i += 1;
    }
    proof {
        lemma_take_all(types@);
    }
    let mut body: Vec<u8> = Vec::new();
    vector(&mut body, types.len(), elements.as_slice());
    section(out, SECTION_TYPE, body.as_slice());
}

// -- imports ------------------------------------------------------------------

/// What an import brings in.
#[derive(Debug, Clone, Copy, PartialEq, Eq)]
pub enum ImportDesc {
    Func(u32),
    Table(TableType),
    Memory(Limits),
    Global { ty: ValueType, mutable: bool },
}

#[derive(Debug, Clone)]
pub struct ImportEntry {
    pub module: String,
    pub name: String,
    pub desc: ImportDesc,
}

/// An import descriptor: its kind byte, then what that kind declares.
pub open spec fn import_desc_bytes(d: ImportDesc) -> Seq<u8> {
    match d {
        ImportDesc::Func(type_index) => seq![DESCRIPTOR_FUNC] + leb_u32(type_index),
        ImportDesc::Table(table) => seq![DESCRIPTOR_TABLE] + table_type_bytes(table),
        ImportDesc::Memory(memory) => seq![DESCRIPTOR_MEMORY] + limits_bytes(memory),
        ImportDesc::Global { ty, mutable } => seq![
            DESCRIPTOR_GLOBAL,
            value_type_byte(ty),
            if mutable { 1u8 } else { 0u8 },
        ],
    }
}

/// One import: module name, field name, descriptor.
pub open spec fn import_entry_bytes(e: ImportEntry) -> Seq<u8> {
    name_bytes(e.module@) + name_bytes(e.name@) + import_desc_bytes(e.desc)
}

fn import_entry(out: &mut Vec<u8>, import: &ImportEntry)
    ensures
        final(out)@ == old(out)@ + import_entry_bytes(*import),
{
    name(out, import.module.as_str());
    name(out, import.name.as_str());
    match import.desc {
        ImportDesc::Func(type_index) => {
            out.push(DESCRIPTOR_FUNC);
            unsigned(out, type_index);
        },
        ImportDesc::Table(table) => {
            out.push(DESCRIPTOR_TABLE);
            table_type(out, table);
        },
        ImportDesc::Memory(memory) => {
            out.push(DESCRIPTOR_MEMORY);
            limits(out, memory);
        },
        ImportDesc::Global { ty, mutable } => {
            out.push(DESCRIPTOR_GLOBAL);
            out.push(ty.byte());
            out.push(if mutable { 1u8 } else { 0u8 });
        },
    }
    assert(final(out)@ =~= old(out)@ + import_entry_bytes(*import));
}

/// The import section's contents. Imports occupy the low indices of their
/// index space, so their order is part of the module's meaning.
pub open spec fn import_section_body(imports: Seq<ImportEntry>) -> Seq<u8> {
    vector_bytes(imports.len(), concat(imports, |e: ImportEntry| import_entry_bytes(e)))
}

pub fn import_section(out: &mut Vec<u8>, imports: &[ImportEntry])
    ensures
        final(out)@ == old(out)@ + section_bytes(SECTION_IMPORT, import_section_body(imports@)),
{
    let mut elements: Vec<u8> = Vec::new();
    let mut i: usize = 0;
    while i < imports.len()
        invariant
            i <= imports.len(),
            elements@ == concat(imports@.take(i as int), |e: ImportEntry| import_entry_bytes(e)),
        decreases imports.len() - i,
    {
        import_entry(&mut elements, &imports[i]);
        proof {
            lemma_concat_step(imports@, |e: ImportEntry| import_entry_bytes(e), i as int);
        }
        i += 1;
    }
    proof {
        lemma_take_all(imports@);
    }
    let mut body: Vec<u8> = Vec::new();
    vector(&mut body, imports.len(), elements.as_slice());
    section(out, SECTION_IMPORT, body.as_slice());
}

// -- vectors of indices -------------------------------------------------------

/// A vector of `u32` indices.
pub open spec fn indices_bytes(xs: Seq<u32>) -> Seq<u8> {
    vector_bytes(xs.len(), concat(xs, |x: u32| leb_u32(x)))
}

fn indices(out: &mut Vec<u8>, xs: &[u32])
    ensures
        final(out)@ == old(out)@ + indices_bytes(xs@),
{
    let mut elements: Vec<u8> = Vec::new();
    let mut i: usize = 0;
    while i < xs.len()
        invariant
            i <= xs.len(),
            elements@ == concat(xs@.take(i as int), |x: u32| leb_u32(x)),
        decreases xs.len() - i,
    {
        unsigned(&mut elements, xs[i]);
        proof {
            lemma_concat_step(xs@, |x: u32| leb_u32(x), i as int);
        }
        i += 1;
    }
    proof {
        lemma_take_all(xs@);
    }
    vector(out, xs.len(), elements.as_slice());
}

/// The function section: one type index per defined function, in the order
/// their bodies appear in the code section.
pub fn function_section(out: &mut Vec<u8>, type_indices: &[u32])
    ensures
        final(out)@ == old(out)@ + section_bytes(SECTION_FUNCTION, indices_bytes(type_indices@)),
{
    let mut body: Vec<u8> = Vec::new();
    indices(&mut body, type_indices);
    section(out, SECTION_FUNCTION, body.as_slice());
}

// -- tables, memories, globals ------------------------------------------------

/// The table section's contents.
pub open spec fn table_section_body(tables: Seq<TableType>) -> Seq<u8> {
    vector_bytes(tables.len(), concat(tables, |t: TableType| table_type_bytes(t)))
}

pub fn table_section(out: &mut Vec<u8>, tables: &[TableType])
    ensures
        final(out)@ == old(out)@ + section_bytes(SECTION_TABLE, table_section_body(tables@)),
{
    let mut elements: Vec<u8> = Vec::new();
    let mut i: usize = 0;
    while i < tables.len()
        invariant
            i <= tables.len(),
            elements@ == concat(tables@.take(i as int), |t: TableType| table_type_bytes(t)),
        decreases tables.len() - i,
    {
        table_type(&mut elements, tables[i]);
        proof {
            lemma_concat_step(tables@, |t: TableType| table_type_bytes(t), i as int);
        }
        i += 1;
    }
    proof {
        lemma_take_all(tables@);
    }
    let mut body: Vec<u8> = Vec::new();
    vector(&mut body, tables.len(), elements.as_slice());
    section(out, SECTION_TABLE, body.as_slice());
}

/// The memory section's contents: a vector of limits.
pub open spec fn memory_section_body(memories: Seq<Limits>) -> Seq<u8> {
    vector_bytes(memories.len(), concat(memories, |m: Limits| limits_bytes(m)))
}

pub fn memory_section(out: &mut Vec<u8>, memories: &[Limits])
    ensures
        final(out)@ == old(out)@ + section_bytes(SECTION_MEMORY, memory_section_body(memories@)),
{
    let mut elements: Vec<u8> = Vec::new();
    let mut i: usize = 0;
    while i < memories.len()
        invariant
            i <= memories.len(),
            elements@ == concat(memories@.take(i as int), |m: Limits| limits_bytes(m)),
        decreases memories.len() - i,
    {
        limits(&mut elements, memories[i]);
        proof {
            lemma_concat_step(memories@, |m: Limits| limits_bytes(m), i as int);
        }
        i += 1;
    }
    proof {
        lemma_take_all(memories@);
    }
    let mut body: Vec<u8> = Vec::new();
    vector(&mut body, memories.len(), elements.as_slice());
    section(out, SECTION_MEMORY, body.as_slice());
}

/// A constant expression: one instruction, then `end`. Floats are held as
/// their IEEE-754 bit patterns.
#[derive(Debug, Clone, Copy, PartialEq, Eq)]
pub enum ConstExpr {
    I32(i32),
    I64(i64),
    F32(u32),
    F64(u64),
    GlobalGet(u32),
    RefNull(ValueType),
    RefFunc(u32),
}

/// The bytes of a constant expression, its terminating `end` included.
pub open spec fn const_expr_bytes(e: ConstExpr) -> Seq<u8> {
    const_instr_bytes(e) + seq![END]
}

/// The one instruction of a constant expression.
pub open spec fn const_instr_bytes(e: ConstExpr) -> Seq<u8> {
    match e {
        ConstExpr::I32(v) => i32_const_bytes(v),
        ConstExpr::I64(v) => i64_const_bytes(v),
        ConstExpr::F32(bits) => f32_const_bytes(bits),
        ConstExpr::F64(bits) => f64_const_bytes(bits),
        ConstExpr::GlobalGet(index) => seq![0x23u8] + leb_u32(index),
        ConstExpr::RefNull(ty) => seq![0xd0u8, value_type_byte(ty)],
        ConstExpr::RefFunc(index) => seq![0xd2u8] + leb_u32(index),
    }
}

pub fn const_expr(out: &mut Vec<u8>, expr: &ConstExpr)
    ensures
        final(out)@ == old(out)@ + const_expr_bytes(*expr),
{
    match *expr {
        ConstExpr::I32(v) => i32_const(out, v),
        ConstExpr::I64(v) => i64_const(out, v),
        ConstExpr::F32(bits) => f32_const(out, bits),
        ConstExpr::F64(bits) => f64_const(out, bits),
        ConstExpr::GlobalGet(index) => global_get(out, index),
        ConstExpr::RefNull(ty) => {
            out.push(0xd0);
            out.push(ty.byte());
        },
        ConstExpr::RefFunc(index) => {
            out.push(0xd2);
            unsigned(out, index);
        },
    }
    out.push(END);
    assert(final(out)@ =~= old(out)@ + const_expr_bytes(*expr));
}

#[derive(Debug, Clone, Copy, PartialEq, Eq)]
pub struct Global {
    pub ty: ValueType,
    pub mutable: bool,
    pub init: ConstExpr,
}

/// One global: its type, its mutability flag, its initialiser.
pub open spec fn global_bytes(g: Global) -> Seq<u8> {
    seq![value_type_byte(g.ty), if g.mutable { 1u8 } else { 0u8 }] + const_expr_bytes(g.init)
}

/// The global section's contents.
pub open spec fn global_section_body(globals: Seq<Global>) -> Seq<u8> {
    vector_bytes(globals.len(), concat(globals, |g: Global| global_bytes(g)))
}

pub fn global_section(out: &mut Vec<u8>, globals: &[Global])
    ensures
        final(out)@ == old(out)@ + section_bytes(SECTION_GLOBAL, global_section_body(globals@)),
{
    let mut elements: Vec<u8> = Vec::new();
    let mut i: usize = 0;
    while i < globals.len()
        invariant
            i <= globals.len(),
            elements@ == concat(globals@.take(i as int), |g: Global| global_bytes(g)),
        decreases globals.len() - i,
    {
        let ghost before = elements@;
        let g = globals[i];
        elements.push(g.ty.byte());
        elements.push(if g.mutable { 1u8 } else { 0u8 });
        const_expr(&mut elements, &g.init);
        assert(elements@ =~= before + global_bytes(g));
        proof {
            lemma_concat_step(globals@, |g: Global| global_bytes(g), i as int);
        }
        i += 1;
    }
    proof {
        lemma_take_all(globals@);
    }
    let mut body: Vec<u8> = Vec::new();
    vector(&mut body, globals.len(), elements.as_slice());
    section(out, SECTION_GLOBAL, body.as_slice());
}

// -- exports and start --------------------------------------------------------

/// One export-section entry. The descriptor is one of the `DESCRIPTOR_*`
/// bytes.
#[derive(Debug, Clone)]
pub struct ExportEntry {
    pub name: String,
    pub descriptor: u8,
    pub index: u32,
}

/// One export: its name, its descriptor byte, its index.
pub open spec fn export_entry_bytes(e: ExportEntry) -> Seq<u8> {
    name_bytes(e.name@) + seq![e.descriptor] + leb_u32(e.index)
}

/// The export section's contents.
pub open spec fn export_section_body(exports: Seq<ExportEntry>) -> Seq<u8> {
    vector_bytes(exports.len(), concat(exports, |e: ExportEntry| export_entry_bytes(e)))
}

pub fn export_section(out: &mut Vec<u8>, exports: &[ExportEntry])
    ensures
        final(out)@ == old(out)@ + section_bytes(SECTION_EXPORT, export_section_body(exports@)),
{
    let mut elements: Vec<u8> = Vec::new();
    let mut i: usize = 0;
    while i < exports.len()
        invariant
            i <= exports.len(),
            elements@ == concat(exports@.take(i as int), |e: ExportEntry| export_entry_bytes(e)),
        decreases exports.len() - i,
    {
        let ghost before = elements@;
        let e = &exports[i];
        name(&mut elements, e.name.as_str());
        elements.push(e.descriptor);
        unsigned(&mut elements, e.index);
        assert(elements@ =~= before + export_entry_bytes(*e));
        proof {
            lemma_concat_step(exports@, |e: ExportEntry| export_entry_bytes(e), i as int);
        }
        i += 1;
    }
    proof {
        lemma_take_all(exports@);
    }
    let mut body: Vec<u8> = Vec::new();
    vector(&mut body, exports.len(), elements.as_slice());
    section(out, SECTION_EXPORT, body.as_slice());
}

/// The start section holds one function index and nothing else.
pub fn start_section(out: &mut Vec<u8>, func: u32)
    ensures
        final(out)@ == old(out)@ + section_bytes(SECTION_START, leb_u32(func)),
{
    let mut body: Vec<u8> = Vec::new();
    unsigned(&mut body, func);
    assert(body@ =~= leb_u32(func));
    section(out, SECTION_START, body.as_slice());
}

// -- elements and data --------------------------------------------------------

#[derive(Debug, Clone)]
pub enum Element {
    ActiveFuncs { table: u32, offset: ConstExpr, funcs: Vec<u32> },
    PassiveFuncs(Vec<u32>),
}

/// One element segment. Flag 0 is active in table 0 with function indices;
/// flag 2 spells the table out and carries an element-kind byte; flag 1 is
/// passive.
pub open spec fn element_bytes(e: Element) -> Seq<u8> {
    match e {
        Element::ActiveFuncs { table, offset, funcs } => if table == 0 {
            leb_u32(0) + const_expr_bytes(offset) + indices_bytes(funcs@)
        } else {
            leb_u32(2) + leb_u32(table) + const_expr_bytes(offset) + seq![0x00u8]
                + indices_bytes(funcs@)
        },
        Element::PassiveFuncs(funcs) => leb_u32(1) + seq![0x00u8] + indices_bytes(funcs@),
    }
}

fn element(out: &mut Vec<u8>, e: &Element)
    ensures
        final(out)@ == old(out)@ + element_bytes(*e),
{
    match e {
        Element::ActiveFuncs { table, offset, funcs } => {
            if *table == 0 {
                unsigned(out, 0);
                const_expr(out, offset);
                indices(out, funcs.as_slice());
            } else {
                unsigned(out, 2);
                unsigned(out, *table);
                const_expr(out, offset);
                out.push(0x00);
                indices(out, funcs.as_slice());
            }
        },
        Element::PassiveFuncs(funcs) => {
            unsigned(out, 1);
            out.push(0x00);
            indices(out, funcs.as_slice());
        },
    }
    assert(final(out)@ =~= old(out)@ + element_bytes(*e));
}

/// The element section's contents.
pub open spec fn element_section_body(elements: Seq<Element>) -> Seq<u8> {
    vector_bytes(elements.len(), concat(elements, |e: Element| element_bytes(e)))
}

pub fn element_section(out: &mut Vec<u8>, elements: &[Element])
    ensures
        final(out)@ == old(out)@ + section_bytes(SECTION_ELEMENT, element_section_body(elements@)),
{
    let mut encoded: Vec<u8> = Vec::new();
    let mut i: usize = 0;
    while i < elements.len()
        invariant
            i <= elements.len(),
            encoded@ == concat(elements@.take(i as int), |e: Element| element_bytes(e)),
        decreases elements.len() - i,
    {
        element(&mut encoded, &elements[i]);
        proof {
            lemma_concat_step(elements@, |e: Element| element_bytes(e), i as int);
        }
        i += 1;
    }
    proof {
        lemma_take_all(elements@);
    }
    let mut body: Vec<u8> = Vec::new();
    vector(&mut body, elements.len(), encoded.as_slice());
    section(out, SECTION_ELEMENT, body.as_slice());
}

/// The data-count section: the number of data segments.
pub fn data_count_section(out: &mut Vec<u8>, count: u32)
    ensures
        final(out)@ == old(out)@ + section_bytes(SECTION_DATA_COUNT, leb_u32(count)),
{
    let mut body: Vec<u8> = Vec::new();
    unsigned(&mut body, count);
    assert(body@ =~= leb_u32(count));
    section(out, SECTION_DATA_COUNT, body.as_slice());
}

#[derive(Debug, Clone)]
pub enum Data {
    Active { memory: u32, offset: ConstExpr, bytes: Vec<u8> },
    Passive(Vec<u8>),
}

/// The bytes a data segment carries, whatever its mode.
pub open spec fn data_payload(d: Data) -> Seq<u8> {
    match d {
        Data::Active { bytes, .. } => bytes@,
        Data::Passive(bytes) => bytes@,
    }
}

impl Data {
    pub fn bytes(&self) -> (b: &[u8])
        ensures
            b@ == data_payload(*self),
    {
        match self {
            Data::Active { bytes, .. } => bytes.as_slice(),
            Data::Passive(bytes) => bytes.as_slice(),
        }
    }
}

/// One data segment: its mode, then its bytes as a length-prefixed run.
pub open spec fn data_bytes(d: Data) -> Seq<u8> {
    data_mode_bytes(d) + leb_u32(data_payload(d).len() as u32) + data_payload(d)
}

/// How a data segment says where it goes.
pub open spec fn data_mode_bytes(d: Data) -> Seq<u8> {
    match d {
        Data::Active { memory, offset, .. } => if memory == 0 {
            leb_u32(0) + const_expr_bytes(offset)
        } else {
            leb_u32(2) + leb_u32(memory) + const_expr_bytes(offset)
        },
        Data::Passive(_) => leb_u32(1),
    }
}

/// The data section's contents.
pub open spec fn data_section_body(segments: Seq<Data>) -> Seq<u8> {
    vector_bytes(segments.len(), concat(segments, |d: Data| data_bytes(d)))
}

pub fn data_section(out: &mut Vec<u8>, segments: &[Data])
    ensures
        final(out)@ == old(out)@ + section_bytes(SECTION_DATA, data_section_body(segments@)),
{
    let mut encoded: Vec<u8> = Vec::new();
    let mut i: usize = 0;
    while i < segments.len()
        invariant
            i <= segments.len(),
            encoded@ == concat(segments@.take(i as int), |d: Data| data_bytes(d)),
        decreases segments.len() - i,
    {
        let ghost before = encoded@;
        let segment = &segments[i];
        match segment {
            Data::Active { memory, offset, .. } => {
                if *memory == 0 {
                    unsigned(&mut encoded, 0);
                    const_expr(&mut encoded, offset);
                } else {
                    unsigned(&mut encoded, 2);
                    unsigned(&mut encoded, *memory);
                    const_expr(&mut encoded, offset);
                }
            },
            Data::Passive(_) => unsigned(&mut encoded, 1),
        }
        let bytes = segment.bytes();
        unsigned(&mut encoded, bytes.len() as u32);
        extend(&mut encoded, bytes);
        assert(encoded@ =~= before + data_bytes(*segment));
        proof {
            lemma_concat_step(segments@, |d: Data| data_bytes(d), i as int);
        }
        i += 1;
    }
    proof {
        lemma_take_all(segments@);
    }
    let mut body: Vec<u8> = Vec::new();
    vector(&mut body, segments.len(), encoded.as_slice());
    section(out, SECTION_DATA, body.as_slice());
}

/// A custom section: a name, then opaque bytes.
pub fn custom_section(out: &mut Vec<u8>, section_name: &str, contents: &[u8])
    ensures
        final(out)@ == old(out)@ + section_bytes(
            SECTION_CUSTOM,
            name_bytes(section_name@) + contents@,
        ),
{
    let mut body: Vec<u8> = Vec::new();
    name(&mut body, section_name);
    extend(&mut body, contents);
    section(out, SECTION_CUSTOM, body.as_slice());
}

// -- code -----------------------------------------------------------------------

/// One code-section entry: the locals beyond the parameters, and the already
/// encoded instruction bytes, without the terminating `end`.
#[derive(Debug, Clone)]
pub struct FuncBody {
    pub locals: Vec<(u32, ValueType)>,
    pub code: Vec<u8>,
}

/// The locals declaration: run-length `(count, type)` groups.
pub open spec fn locals_bytes(groups: Seq<(u32, ValueType)>) -> Seq<u8> {
    vector_bytes(
        groups.len(),
        concat(groups, |g: (u32, ValueType)| leb_u32(g.0) + seq![value_type_byte(g.1)]),
    )
}

/// Groups are written as given: adjacent groups of one type are not merged,
/// because the two are different bytes and only the caller knows which it
/// meant.
pub fn locals(out: &mut Vec<u8>, groups: &[(u32, ValueType)])
    ensures
        final(out)@ == old(out)@ + locals_bytes(groups@),
{
    let mut elements: Vec<u8> = Vec::new();
    let mut i: usize = 0;
    while i < groups.len()
        invariant
            i <= groups.len(),
            elements@ == concat(
                groups@.take(i as int),
                |g: (u32, ValueType)| leb_u32(g.0) + seq![value_type_byte(g.1)],
            ),
        decreases groups.len() - i,
    {
        let ghost before = elements@;
        let (count, ty) = groups[i];
        unsigned(&mut elements, count);
        elements.push(ty.byte());
        assert(elements@ =~= before + (leb_u32(count) + seq![value_type_byte(ty)]));
        proof {
            lemma_concat_step(
                groups@,
                |g: (u32, ValueType)| leb_u32(g.0) + seq![value_type_byte(g.1)],
                i as int,
            );
        }
        i += 1;
    }
    proof {
        lemma_take_all(groups@);
    }
    vector(out, groups.len(), elements.as_slice());
}

/// What one function body is inside its size prefix: its locals, its code,
/// and the `end` that terminates the expression.
pub open spec fn body_inner_bytes(f: FuncBody) -> Seq<u8> {
    locals_bytes(f.locals@) + f.code@ + seq![END]
}

/// One code entry: the size of the body, then the body.
pub open spec fn body_bytes(f: FuncBody) -> Seq<u8> {
    leb_u32(body_inner_bytes(f).len() as u32) + body_inner_bytes(f)
}

/// A code entry is framed: a LEB128 reader finds the size of the body, and
/// the last of exactly that many bytes after it is the `end` that terminates
/// the function's expression.
pub proof fn law_code_entry_framed(f: FuncBody, rest: Seq<u8>)
    requires
        body_inner_bytes(f).len() <= u32::MAX,
    ensures
        ({
            let b = body_bytes(f) + rest;
            let inner = body_inner_bytes(f);
            let n = leb_u32(inner.len() as u32).len() as int;
            &&& read_leb_u(b) == Some((inner.len(), n as nat))
            &&& b.subrange(n, n + inner.len()) == inner
            &&& b[n + inner.len() - 1] == END
        }),
{
    let inner = body_inner_bytes(f);
    let l = leb_u32(inner.len() as u32);
    let b = body_bytes(f) + rest;
    assert(b =~= l + (inner + rest));
    lemma_leb_u_roundtrip(inner.len(), inner + rest);
    assert(b.subrange(l.len() as int, l.len() + inner.len() as int) =~= inner);
    assert(inner[inner.len() - 1] == END);
}

/// The code section's contents.
pub open spec fn code_section_body(bodies: Seq<FuncBody>) -> Seq<u8> {
    vector_bytes(bodies.len(), concat(bodies, |f: FuncBody| body_bytes(f)))
}

pub fn code_section(out: &mut Vec<u8>, bodies: &[FuncBody])
    ensures
        final(out)@ == old(out)@ + section_bytes(SECTION_CODE, code_section_body(bodies@)),
{
    let mut encoded: Vec<u8> = Vec::new();
    let mut i: usize = 0;
    while i < bodies.len()
        invariant
            i <= bodies.len(),
            encoded@ == concat(bodies@.take(i as int), |f: FuncBody| body_bytes(f)),
        decreases bodies.len() - i,
    {
        let ghost before = encoded@;
        let func = &bodies[i];
        let mut code: Vec<u8> = Vec::new();
        locals(&mut code, func.locals.as_slice());
        extend(&mut code, func.code.as_slice());
        code.push(END);
        assert(code@ =~= body_inner_bytes(*func));
        unsigned(&mut encoded, code.len() as u32);
        extend(&mut encoded, code.as_slice());
        assert(encoded@ =~= before + body_bytes(*func));
        proof {
            lemma_concat_step(bodies@, |f: FuncBody| body_bytes(f), i as int);
        }
        i += 1;
    }
    proof {
        lemma_take_all(bodies@);
    }
    let mut body: Vec<u8> = Vec::new();
    vector(&mut body, bodies.len(), encoded.as_slice());
    section(out, SECTION_CODE, body.as_slice());
}

// -- instructions -------------------------------------------------------------

/// Every wasm instruction that is one opcode byte and no immediate. [`op_byte`]
/// is the opcode table.
#[derive(Debug, Clone, Copy, PartialEq, Eq, Structural)]
pub enum Op {
    Unreachable,
    Nop,
    Return,
    Drop,
    Select,
    I32Eqz,
    I32Eq,
    I32Ne,
    I32LtS,
    I32LtU,
    I32GtS,
    I32GtU,
    I32LeS,
    I32LeU,
    I32GeS,
    I32GeU,
    I64Eqz,
    I64Eq,
    I64Ne,
    I64LtS,
    I64LtU,
    I64GtS,
    I64GtU,
    I64LeS,
    I64LeU,
    I64GeS,
    I64GeU,
    F32Eq,
    F32Ne,
    F32Lt,
    F32Gt,
    F32Le,
    F32Ge,
    F64Eq,
    F64Ne,
    F64Lt,
    F64Gt,
    F64Le,
    F64Ge,
    I32Clz,
    I32Ctz,
    I32Popcnt,
    I32Add,
    I32Sub,
    I32Mul,
    I32DivS,
    I32DivU,
    I32RemS,
    I32RemU,
    I32And,
    I32Or,
    I32Xor,
    I32Shl,
    I32ShrS,
    I32ShrU,
    I32Rotl,
    I32Rotr,
    I64Clz,
    I64Ctz,
    I64Popcnt,
    I64Add,
    I64Sub,
    I64Mul,
    I64DivS,
    I64DivU,
    I64RemS,
    I64RemU,
    I64And,
    I64Or,
    I64Xor,
    I64Shl,
    I64ShrS,
    I64ShrU,
    I64Rotl,
    I64Rotr,
    F32Abs,
    F32Neg,
    F32Ceil,
    F32Floor,
    F32Trunc,
    F32Nearest,
    F32Sqrt,
    F32Add,
    F32Sub,
    F32Mul,
    F32Div,
    F32Min,
    F32Max,
    F32Copysign,
    F64Abs,
    F64Neg,
    F64Ceil,
    F64Floor,
    F64Trunc,
    F64Nearest,
    F64Sqrt,
    F64Add,
    F64Sub,
    F64Mul,
    F64Div,
    F64Min,
    F64Max,
    F64Copysign,
    I32WrapI64,
    I32TruncF32S,
    I32TruncF32U,
    I32TruncF64S,
    I32TruncF64U,
    I64ExtendI32S,
    I64ExtendI32U,
    I64TruncF32S,
    I64TruncF32U,
    I64TruncF64S,
    I64TruncF64U,
    F32ConvertI32S,
    F32ConvertI32U,
    F32ConvertI64S,
    F32ConvertI64U,
    F32DemoteF64,
    F64ConvertI32S,
    F64ConvertI32U,
    F64ConvertI64S,
    F64ConvertI64U,
    F64PromoteF32,
    I32ReinterpretF32,
    I64ReinterpretF64,
    F32ReinterpretI32,
    F64ReinterpretI64,
    I32Extend8S,
    I32Extend16S,
    I64Extend8S,
    I64Extend16S,
    I64Extend32S,
}

/// The opcode of each [`Op`].
pub open spec fn op_byte(op: Op) -> u8 {
    match op {
        Op::Unreachable => 0x00,
        Op::Nop => 0x01,
        Op::Return => 0x0f,
        Op::Drop => 0x1a,
        Op::Select => 0x1b,
        Op::I32Eqz => 0x45,
        Op::I32Eq => 0x46,
        Op::I32Ne => 0x47,
        Op::I32LtS => 0x48,
        Op::I32LtU => 0x49,
        Op::I32GtS => 0x4a,
        Op::I32GtU => 0x4b,
        Op::I32LeS => 0x4c,
        Op::I32LeU => 0x4d,
        Op::I32GeS => 0x4e,
        Op::I32GeU => 0x4f,
        Op::I64Eqz => 0x50,
        Op::I64Eq => 0x51,
        Op::I64Ne => 0x52,
        Op::I64LtS => 0x53,
        Op::I64LtU => 0x54,
        Op::I64GtS => 0x55,
        Op::I64GtU => 0x56,
        Op::I64LeS => 0x57,
        Op::I64LeU => 0x58,
        Op::I64GeS => 0x59,
        Op::I64GeU => 0x5a,
        Op::F32Eq => 0x5b,
        Op::F32Ne => 0x5c,
        Op::F32Lt => 0x5d,
        Op::F32Gt => 0x5e,
        Op::F32Le => 0x5f,
        Op::F32Ge => 0x60,
        Op::F64Eq => 0x61,
        Op::F64Ne => 0x62,
        Op::F64Lt => 0x63,
        Op::F64Gt => 0x64,
        Op::F64Le => 0x65,
        Op::F64Ge => 0x66,
        Op::I32Clz => 0x67,
        Op::I32Ctz => 0x68,
        Op::I32Popcnt => 0x69,
        Op::I32Add => 0x6a,
        Op::I32Sub => 0x6b,
        Op::I32Mul => 0x6c,
        Op::I32DivS => 0x6d,
        Op::I32DivU => 0x6e,
        Op::I32RemS => 0x6f,
        Op::I32RemU => 0x70,
        Op::I32And => 0x71,
        Op::I32Or => 0x72,
        Op::I32Xor => 0x73,
        Op::I32Shl => 0x74,
        Op::I32ShrS => 0x75,
        Op::I32ShrU => 0x76,
        Op::I32Rotl => 0x77,
        Op::I32Rotr => 0x78,
        Op::I64Clz => 0x79,
        Op::I64Ctz => 0x7a,
        Op::I64Popcnt => 0x7b,
        Op::I64Add => 0x7c,
        Op::I64Sub => 0x7d,
        Op::I64Mul => 0x7e,
        Op::I64DivS => 0x7f,
        Op::I64DivU => 0x80,
        Op::I64RemS => 0x81,
        Op::I64RemU => 0x82,
        Op::I64And => 0x83,
        Op::I64Or => 0x84,
        Op::I64Xor => 0x85,
        Op::I64Shl => 0x86,
        Op::I64ShrS => 0x87,
        Op::I64ShrU => 0x88,
        Op::I64Rotl => 0x89,
        Op::I64Rotr => 0x8a,
        Op::F32Abs => 0x8b,
        Op::F32Neg => 0x8c,
        Op::F32Ceil => 0x8d,
        Op::F32Floor => 0x8e,
        Op::F32Trunc => 0x8f,
        Op::F32Nearest => 0x90,
        Op::F32Sqrt => 0x91,
        Op::F32Add => 0x92,
        Op::F32Sub => 0x93,
        Op::F32Mul => 0x94,
        Op::F32Div => 0x95,
        Op::F32Min => 0x96,
        Op::F32Max => 0x97,
        Op::F32Copysign => 0x98,
        Op::F64Abs => 0x99,
        Op::F64Neg => 0x9a,
        Op::F64Ceil => 0x9b,
        Op::F64Floor => 0x9c,
        Op::F64Trunc => 0x9d,
        Op::F64Nearest => 0x9e,
        Op::F64Sqrt => 0x9f,
        Op::F64Add => 0xa0,
        Op::F64Sub => 0xa1,
        Op::F64Mul => 0xa2,
        Op::F64Div => 0xa3,
        Op::F64Min => 0xa4,
        Op::F64Max => 0xa5,
        Op::F64Copysign => 0xa6,
        Op::I32WrapI64 => 0xa7,
        Op::I32TruncF32S => 0xa8,
        Op::I32TruncF32U => 0xa9,
        Op::I32TruncF64S => 0xaa,
        Op::I32TruncF64U => 0xab,
        Op::I64ExtendI32S => 0xac,
        Op::I64ExtendI32U => 0xad,
        Op::I64TruncF32S => 0xae,
        Op::I64TruncF32U => 0xaf,
        Op::I64TruncF64S => 0xb0,
        Op::I64TruncF64U => 0xb1,
        Op::F32ConvertI32S => 0xb2,
        Op::F32ConvertI32U => 0xb3,
        Op::F32ConvertI64S => 0xb4,
        Op::F32ConvertI64U => 0xb5,
        Op::F32DemoteF64 => 0xb6,
        Op::F64ConvertI32S => 0xb7,
        Op::F64ConvertI32U => 0xb8,
        Op::F64ConvertI64S => 0xb9,
        Op::F64ConvertI64U => 0xba,
        Op::F64PromoteF32 => 0xbb,
        Op::I32ReinterpretF32 => 0xbc,
        Op::I64ReinterpretF64 => 0xbd,
        Op::F32ReinterpretI32 => 0xbe,
        Op::F64ReinterpretI64 => 0xbf,
        Op::I32Extend8S => 0xc0,
        Op::I32Extend16S => 0xc1,
        Op::I64Extend8S => 0xc2,
        Op::I64Extend16S => 0xc3,
        Op::I64Extend32S => 0xc4,
    }
}

impl Op {
    /// The opcode byte.
    pub fn code(self) -> (b: u8)
        ensures
            b == op_byte(self),
    {
        match self {
            Op::Unreachable => 0x00,
            Op::Nop => 0x01,
            Op::Return => 0x0f,
            Op::Drop => 0x1a,
            Op::Select => 0x1b,
            Op::I32Eqz => 0x45,
            Op::I32Eq => 0x46,
            Op::I32Ne => 0x47,
            Op::I32LtS => 0x48,
            Op::I32LtU => 0x49,
            Op::I32GtS => 0x4a,
            Op::I32GtU => 0x4b,
            Op::I32LeS => 0x4c,
            Op::I32LeU => 0x4d,
            Op::I32GeS => 0x4e,
            Op::I32GeU => 0x4f,
            Op::I64Eqz => 0x50,
            Op::I64Eq => 0x51,
            Op::I64Ne => 0x52,
            Op::I64LtS => 0x53,
            Op::I64LtU => 0x54,
            Op::I64GtS => 0x55,
            Op::I64GtU => 0x56,
            Op::I64LeS => 0x57,
            Op::I64LeU => 0x58,
            Op::I64GeS => 0x59,
            Op::I64GeU => 0x5a,
            Op::F32Eq => 0x5b,
            Op::F32Ne => 0x5c,
            Op::F32Lt => 0x5d,
            Op::F32Gt => 0x5e,
            Op::F32Le => 0x5f,
            Op::F32Ge => 0x60,
            Op::F64Eq => 0x61,
            Op::F64Ne => 0x62,
            Op::F64Lt => 0x63,
            Op::F64Gt => 0x64,
            Op::F64Le => 0x65,
            Op::F64Ge => 0x66,
            Op::I32Clz => 0x67,
            Op::I32Ctz => 0x68,
            Op::I32Popcnt => 0x69,
            Op::I32Add => 0x6a,
            Op::I32Sub => 0x6b,
            Op::I32Mul => 0x6c,
            Op::I32DivS => 0x6d,
            Op::I32DivU => 0x6e,
            Op::I32RemS => 0x6f,
            Op::I32RemU => 0x70,
            Op::I32And => 0x71,
            Op::I32Or => 0x72,
            Op::I32Xor => 0x73,
            Op::I32Shl => 0x74,
            Op::I32ShrS => 0x75,
            Op::I32ShrU => 0x76,
            Op::I32Rotl => 0x77,
            Op::I32Rotr => 0x78,
            Op::I64Clz => 0x79,
            Op::I64Ctz => 0x7a,
            Op::I64Popcnt => 0x7b,
            Op::I64Add => 0x7c,
            Op::I64Sub => 0x7d,
            Op::I64Mul => 0x7e,
            Op::I64DivS => 0x7f,
            Op::I64DivU => 0x80,
            Op::I64RemS => 0x81,
            Op::I64RemU => 0x82,
            Op::I64And => 0x83,
            Op::I64Or => 0x84,
            Op::I64Xor => 0x85,
            Op::I64Shl => 0x86,
            Op::I64ShrS => 0x87,
            Op::I64ShrU => 0x88,
            Op::I64Rotl => 0x89,
            Op::I64Rotr => 0x8a,
            Op::F32Abs => 0x8b,
            Op::F32Neg => 0x8c,
            Op::F32Ceil => 0x8d,
            Op::F32Floor => 0x8e,
            Op::F32Trunc => 0x8f,
            Op::F32Nearest => 0x90,
            Op::F32Sqrt => 0x91,
            Op::F32Add => 0x92,
            Op::F32Sub => 0x93,
            Op::F32Mul => 0x94,
            Op::F32Div => 0x95,
            Op::F32Min => 0x96,
            Op::F32Max => 0x97,
            Op::F32Copysign => 0x98,
            Op::F64Abs => 0x99,
            Op::F64Neg => 0x9a,
            Op::F64Ceil => 0x9b,
            Op::F64Floor => 0x9c,
            Op::F64Trunc => 0x9d,
            Op::F64Nearest => 0x9e,
            Op::F64Sqrt => 0x9f,
            Op::F64Add => 0xa0,
            Op::F64Sub => 0xa1,
            Op::F64Mul => 0xa2,
            Op::F64Div => 0xa3,
            Op::F64Min => 0xa4,
            Op::F64Max => 0xa5,
            Op::F64Copysign => 0xa6,
            Op::I32WrapI64 => 0xa7,
            Op::I32TruncF32S => 0xa8,
            Op::I32TruncF32U => 0xa9,
            Op::I32TruncF64S => 0xaa,
            Op::I32TruncF64U => 0xab,
            Op::I64ExtendI32S => 0xac,
            Op::I64ExtendI32U => 0xad,
            Op::I64TruncF32S => 0xae,
            Op::I64TruncF32U => 0xaf,
            Op::I64TruncF64S => 0xb0,
            Op::I64TruncF64U => 0xb1,
            Op::F32ConvertI32S => 0xb2,
            Op::F32ConvertI32U => 0xb3,
            Op::F32ConvertI64S => 0xb4,
            Op::F32ConvertI64U => 0xb5,
            Op::F32DemoteF64 => 0xb6,
            Op::F64ConvertI32S => 0xb7,
            Op::F64ConvertI32U => 0xb8,
            Op::F64ConvertI64S => 0xb9,
            Op::F64ConvertI64U => 0xba,
            Op::F64PromoteF32 => 0xbb,
            Op::I32ReinterpretF32 => 0xbc,
            Op::I64ReinterpretF64 => 0xbd,
            Op::F32ReinterpretI32 => 0xbe,
            Op::F64ReinterpretI64 => 0xbf,
            Op::I32Extend8S => 0xc0,
            Op::I32Extend16S => 0xc1,
            Op::I64Extend8S => 0xc2,
            Op::I64Extend16S => 0xc3,
            Op::I64Extend32S => 0xc4,
        }
    }
}

/// Every load and store. [`mem_op_byte`] is the opcode; [`natural_align`] is
/// the alignment exponent that opcode's width implies.
#[derive(Debug, Clone, Copy, PartialEq, Eq, Structural)]
pub enum MemOp {
    I32Load,
    I64Load,
    F32Load,
    F64Load,
    I32Load8S,
    I32Load8U,
    I32Load16S,
    I32Load16U,
    I64Load8S,
    I64Load8U,
    I64Load16S,
    I64Load16U,
    I64Load32S,
    I64Load32U,
    I32Store,
    I64Store,
    F32Store,
    F64Store,
    I32Store8,
    I32Store16,
    I64Store8,
    I64Store16,
    I64Store32,
}

/// The opcode of each [`MemOp`].
pub open spec fn mem_op_byte(op: MemOp) -> u8 {
    match op {
        MemOp::I32Load => 0x28,
        MemOp::I64Load => 0x29,
        MemOp::F32Load => 0x2a,
        MemOp::F64Load => 0x2b,
        MemOp::I32Load8S => 0x2c,
        MemOp::I32Load8U => 0x2d,
        MemOp::I32Load16S => 0x2e,
        MemOp::I32Load16U => 0x2f,
        MemOp::I64Load8S => 0x30,
        MemOp::I64Load8U => 0x31,
        MemOp::I64Load16S => 0x32,
        MemOp::I64Load16U => 0x33,
        MemOp::I64Load32S => 0x34,
        MemOp::I64Load32U => 0x35,
        MemOp::I32Store => 0x36,
        MemOp::I64Store => 0x37,
        MemOp::F32Store => 0x38,
        MemOp::F64Store => 0x39,
        MemOp::I32Store8 => 0x3a,
        MemOp::I32Store16 => 0x3b,
        MemOp::I64Store8 => 0x3c,
        MemOp::I64Store16 => 0x3d,
        MemOp::I64Store32 => 0x3e,
    }
}

impl MemOp {
    /// The opcode byte.
    pub fn code(self) -> (b: u8)
        ensures
            b == mem_op_byte(self),
    {
        match self {
            MemOp::I32Load => 0x28,
            MemOp::I64Load => 0x29,
            MemOp::F32Load => 0x2a,
            MemOp::F64Load => 0x2b,
            MemOp::I32Load8S => 0x2c,
            MemOp::I32Load8U => 0x2d,
            MemOp::I32Load16S => 0x2e,
            MemOp::I32Load16U => 0x2f,
            MemOp::I64Load8S => 0x30,
            MemOp::I64Load8U => 0x31,
            MemOp::I64Load16S => 0x32,
            MemOp::I64Load16U => 0x33,
            MemOp::I64Load32S => 0x34,
            MemOp::I64Load32U => 0x35,
            MemOp::I32Store => 0x36,
            MemOp::I64Store => 0x37,
            MemOp::F32Store => 0x38,
            MemOp::F64Store => 0x39,
            MemOp::I32Store8 => 0x3a,
            MemOp::I32Store16 => 0x3b,
            MemOp::I64Store8 => 0x3c,
            MemOp::I64Store16 => 0x3d,
            MemOp::I64Store32 => 0x3e,
        }
    }
}

pub fn op(out: &mut Vec<u8>, op: Op)
    ensures
        final(out)@ == old(out)@.push(op_byte(op)),
{
    out.push(op.code());
}

/// The alignment exponent of an access's width: 0 for one byte, 1 for two,
/// 2 for four, 3 for eight. A memarg above it is rejected by the load gate, so
/// it is both the default and the ceiling.
pub open spec fn natural_align(op: MemOp) -> u32 {
    match op {
        MemOp::I32Load8S | MemOp::I32Load8U | MemOp::I64Load8S | MemOp::I64Load8U
        | MemOp::I32Store8 | MemOp::I64Store8 => 0,
        MemOp::I32Load16S | MemOp::I32Load16U | MemOp::I64Load16S | MemOp::I64Load16U
        | MemOp::I32Store16 | MemOp::I64Store16 => 1,
        MemOp::I32Load | MemOp::F32Load | MemOp::I64Load32S | MemOp::I64Load32U
        | MemOp::I32Store | MemOp::F32Store | MemOp::I64Store32 => 2,
        MemOp::I64Load | MemOp::F64Load | MemOp::I64Store | MemOp::F64Store => 3,
    }
}

impl MemOp {
    pub fn natural_align(self) -> (a: u32)
        ensures
            a == natural_align(self),
    {
        match self {
            MemOp::I32Load8S | MemOp::I32Load8U | MemOp::I64Load8S | MemOp::I64Load8U
            | MemOp::I32Store8 | MemOp::I64Store8 => 0,
            MemOp::I32Load16S | MemOp::I32Load16U | MemOp::I64Load16S | MemOp::I64Load16U
            | MemOp::I32Store16 | MemOp::I64Store16 => 1,
            MemOp::I32Load | MemOp::F32Load | MemOp::I64Load32S | MemOp::I64Load32U
            | MemOp::I32Store | MemOp::F32Store | MemOp::I64Store32 => 2,
            MemOp::I64Load | MemOp::F64Load | MemOp::I64Store | MemOp::F64Store => 3,
        }
    }
}

/// A load or store: opcode, alignment exponent (never above natural), offset.
pub open spec fn mem_aligned_bytes(op: MemOp, align: u32, offset: u32) -> Seq<u8> {
    seq![mem_op_byte(op)] + leb_u32(
        if align <= natural_align(op) { align } else { natural_align(op) },
    ) + leb_u32(offset)
}

/// A load or store at its natural alignment.
pub fn mem(out: &mut Vec<u8>, mem_op: MemOp, offset: u32)
    ensures
        final(out)@ == old(out)@ + mem_aligned_bytes(mem_op, natural_align(mem_op), offset),
{
    mem_aligned(out, mem_op, mem_op.natural_align(), offset);
}

/// A load or store whose alignment hint may be below natural. Above natural is
/// a producer defect the load gate rejects, so it is clamped.
pub fn mem_aligned(out: &mut Vec<u8>, mem_op: MemOp, align: u32, offset: u32)
    ensures
        final(out)@ == old(out)@ + mem_aligned_bytes(mem_op, align, offset),
{
    out.push(mem_op.code());
    let natural = mem_op.natural_align();
    unsigned(out, if align <= natural { align } else { natural });
    unsigned(out, offset);
    assert(final(out)@ =~= old(out)@ + mem_aligned_bytes(mem_op, align, offset));
}

/// `memory.size` carries a memory index as a plain byte.
pub fn memory_size(out: &mut Vec<u8>, memory: u8)
    ensures
        final(out)@ == old(out)@ + seq![0x3fu8, memory],
{
    out.push(0x3f);
    out.push(memory);
    assert(final(out)@ =~= old(out)@ + seq![0x3fu8, memory]);
}

/// `memory.grow` carries a memory index as a plain byte.
pub fn memory_grow(out: &mut Vec<u8>, memory: u8)
    ensures
        final(out)@ == old(out)@ + seq![0x40u8, memory],
{
    out.push(0x40);
    out.push(memory);
    assert(final(out)@ =~= old(out)@ + seq![0x40u8, memory]);
}

pub open spec fn i32_const_bytes(v: i32) -> Seq<u8> {
    seq![0x41u8] + leb_s(v as int)
}

pub open spec fn i64_const_bytes(v: i64) -> Seq<u8> {
    seq![0x42u8] + leb_s(v as int)
}

/// Four bytes of `v`, least significant first.
pub open spec fn le32(v: u32) -> Seq<u8> {
    seq![(v & 0xff) as u8, ((v >> 8) & 0xff) as u8, ((v >> 16) & 0xff) as u8, ((v >> 24) & 0xff) as u8]
}

/// Eight bytes of `v`, least significant first.
pub open spec fn le64(v: u64) -> Seq<u8> {
    le32((v & 0xffff_ffff) as u32) + le32((v >> 32) as u32)
}

/// `f32.const` with the raw IEEE-754 bits, not LEB128.
pub open spec fn f32_const_bytes(bits: u32) -> Seq<u8> {
    seq![0x43u8] + le32(bits)
}

/// `f64.const` with the raw IEEE-754 bits, not LEB128.
pub open spec fn f64_const_bytes(bits: u64) -> Seq<u8> {
    seq![0x44u8] + le64(bits)
}

pub fn i32_const(out: &mut Vec<u8>, value: i32)
    ensures
        final(out)@ == old(out)@ + i32_const_bytes(value),
{
    out.push(0x41);
    signed_32(out, value);
    assert(final(out)@ =~= old(out)@ + i32_const_bytes(value));
}

pub fn i64_const(out: &mut Vec<u8>, value: i64)
    ensures
        final(out)@ == old(out)@ + i64_const_bytes(value),
{
    out.push(0x42);
    signed_64(out, value);
    assert(final(out)@ =~= old(out)@ + i64_const_bytes(value));
}

fn push_le32(out: &mut Vec<u8>, v: u32)
    ensures
        final(out)@ == old(out)@ + le32(v),
{
    out.push((v & 0xff) as u8);
    out.push(((v >> 8) & 0xff) as u8);
    out.push(((v >> 16) & 0xff) as u8);
    out.push(((v >> 24) & 0xff) as u8);
    assert(final(out)@ =~= old(out)@ + le32(v));
}

/// Floats are raw little-endian IEEE-754 bits, never LEB128.
pub fn f32_const(out: &mut Vec<u8>, bits: u32)
    ensures
        final(out)@ == old(out)@ + f32_const_bytes(bits),
{
    out.push(0x43);
    push_le32(out, bits);
    assert(final(out)@ =~= old(out)@ + f32_const_bytes(bits));
}

/// Floats are raw little-endian IEEE-754 bits, never LEB128.
pub fn f64_const(out: &mut Vec<u8>, bits: u64)
    ensures
        final(out)@ == old(out)@ + f64_const_bytes(bits),
{
    out.push(0x44);
    push_le32(out, (bits & 0xffff_ffff) as u32);
    push_le32(out, (bits >> 32) as u32);
    assert(final(out)@ =~= old(out)@ + f64_const_bytes(bits));
}

/// An opcode followed by one unsigned immediate.
pub open spec fn indexed_bytes(opcode: u8, index: u32) -> Seq<u8> {
    seq![opcode] + leb_u32(index)
}

fn indexed(out: &mut Vec<u8>, opcode: u8, index: u32)
    ensures
        final(out)@ == old(out)@ + indexed_bytes(opcode, index),
{
    out.push(opcode);
    unsigned(out, index);
    assert(final(out)@ =~= old(out)@ + indexed_bytes(opcode, index));
}

pub fn local_get(out: &mut Vec<u8>, index: u32)
    ensures
        final(out)@ == old(out)@ + indexed_bytes(0x20, index),
{
    indexed(out, 0x20, index);
}

pub fn local_set(out: &mut Vec<u8>, index: u32)
    ensures
        final(out)@ == old(out)@ + indexed_bytes(0x21, index),
{
    indexed(out, 0x21, index);
}

pub fn local_tee(out: &mut Vec<u8>, index: u32)
    ensures
        final(out)@ == old(out)@ + indexed_bytes(0x22, index),
{
    indexed(out, 0x22, index);
}

pub fn global_get(out: &mut Vec<u8>, index: u32)
    ensures
        final(out)@ == old(out)@ + indexed_bytes(0x23, index),
{
    indexed(out, 0x23, index);
}

pub fn global_set(out: &mut Vec<u8>, index: u32)
    ensures
        final(out)@ == old(out)@ + indexed_bytes(0x24, index),
{
    indexed(out, 0x24, index);
}

pub fn call(out: &mut Vec<u8>, index: u32)
    ensures
        final(out)@ == old(out)@ + indexed_bytes(0x10, index),
{
    indexed(out, 0x10, index);
}

/// `call_indirect` names a type and a table, in that order.
pub fn call_indirect(out: &mut Vec<u8>, type_index: u32, table_index: u32)
    ensures
        final(out)@ == old(out)@ + indexed_bytes(0x11, type_index) + leb_u32(table_index),
{
    indexed(out, 0x11, type_index);
    unsigned(out, table_index);
    assert(final(out)@ =~= old(out)@ + indexed_bytes(0x11, type_index) + leb_u32(table_index));
}

// -- control flow -------------------------------------------------------------

/// The result shape of a block, loop or `if`.
#[derive(Debug, Clone, Copy, PartialEq, Eq)]
pub enum BlockType {
    Empty,
    Value(ValueType),
    /// A full function type, by index.
    TypeIndex(u32),
}

/// The block type is an `s33`: the inline forms are small negative numbers
/// written as one byte, and a type index is the same field read as a
/// non-negative signed LEB128, so index 64 is `c0 00` and not the byte `40`,
/// which would mean `Empty`.
pub open spec fn block_type_bytes(ty: BlockType) -> Seq<u8> {
    match ty {
        BlockType::Empty => seq![0x40u8],
        BlockType::Value(v) => seq![value_type_byte(v)],
        BlockType::TypeIndex(index) => leb_s(index as int),
    }
}

pub fn block_type(out: &mut Vec<u8>, ty: BlockType)
    ensures
        final(out)@ == old(out)@ + block_type_bytes(ty),
{
    match ty {
        BlockType::Empty => out.push(0x40),
        BlockType::Value(v) => out.push(v.byte()),
        BlockType::TypeIndex(index) => signed_64(out, index as i64),
    }
    assert(final(out)@ =~= old(out)@ + block_type_bytes(ty));
}

pub fn block(out: &mut Vec<u8>, ty: BlockType)
    ensures
        final(out)@ == old(out)@ + seq![0x02u8] + block_type_bytes(ty),
{
    out.push(0x02);
    block_type(out, ty);
    assert(final(out)@ =~= old(out)@ + seq![0x02u8] + block_type_bytes(ty));
}

pub fn loop_(out: &mut Vec<u8>, ty: BlockType)
    ensures
        final(out)@ == old(out)@ + seq![0x03u8] + block_type_bytes(ty),
{
    out.push(0x03);
    block_type(out, ty);
    assert(final(out)@ =~= old(out)@ + seq![0x03u8] + block_type_bytes(ty));
}

pub fn if_(out: &mut Vec<u8>, ty: BlockType)
    ensures
        final(out)@ == old(out)@ + seq![0x04u8] + block_type_bytes(ty),
{
    out.push(0x04);
    block_type(out, ty);
    assert(final(out)@ =~= old(out)@ + seq![0x04u8] + block_type_bytes(ty));
}

pub fn else_(out: &mut Vec<u8>)
    ensures
        final(out)@ == old(out)@.push(0x05u8),
{
    out.push(0x05);
}

/// The `end` that closes a block, loop or `if`. The one that terminates a
/// function expression is appended by [`code_section`].
pub fn end(out: &mut Vec<u8>)
    ensures
        final(out)@ == old(out)@.push(END),
{
    out.push(END);
}

pub fn br(out: &mut Vec<u8>, depth: u32)
    ensures
        final(out)@ == old(out)@ + indexed_bytes(0x0c, depth),
{
    indexed(out, 0x0c, depth);
}

pub fn br_if(out: &mut Vec<u8>, depth: u32)
    ensures
        final(out)@ == old(out)@ + indexed_bytes(0x0d, depth),
{
    indexed(out, 0x0d, depth);
}

/// `br_table`: a vector of labels, then the default label outside the vector.
pub fn br_table(out: &mut Vec<u8>, targets: &[u32], default: u32)
    ensures
        final(out)@ == old(out)@ + seq![0x0eu8] + indices_bytes(targets@) + leb_u32(default),
{
    out.push(0x0e);
    indices(out, targets);
    unsigned(out, default);
    assert(final(out)@ =~= old(out)@ + seq![0x0eu8] + indices_bytes(targets@) + leb_u32(default));
}

// -- the integer vocabulary -----------------------------------------------------

/// One proof that two concatenations agree item by item.
pub proof fn lemma_concat_pointwise<A, B>(
    xs: Seq<A>,
    f: spec_fn(A) -> Seq<u8>,
    ys: Seq<B>,
    g: spec_fn(B) -> Seq<u8>,
)
    requires
        xs.len() == ys.len(),
        forall|i: int| 0 <= i < xs.len() ==> f(xs[i]) == g(ys[i]),
    ensures
        concat(xs, f) == concat(ys, g),
    decreases xs.len(),
{
    if xs.len() > 0 {
        lemma_concat_pointwise(xs.drop_last(), f, ys.drop_last(), g);
    }
}

/// The bytes of one instruction of the integer vocabulary.
pub open spec fn ins_bytes(ins: Ins) -> Seq<u8> {
    match ins {
        Ins::I32Const(v) => i32_const_bytes(v),
        Ins::LocalGet(index) => indexed_bytes(0x20, index),
        Ins::Call(index) => indexed_bytes(0x10, index),
        Ins::I32Add => seq![op_byte(Op::I32Add)],
        Ins::I32Sub => seq![op_byte(Op::I32Sub)],
        Ins::I32Mul => seq![op_byte(Op::I32Mul)],
        Ins::I32DivS => seq![op_byte(Op::I32DivS)],
        Ins::I32RemS => seq![op_byte(Op::I32RemS)],
    }
}

/// The bytes of an instruction sequence.
pub open spec fn code_bytes(body: Seq<Ins>) -> Seq<u8> {
    concat(body, |i: Ins| ins_bytes(i))
}

pub fn instruction(out: &mut Vec<u8>, ins: &Ins)
    ensures
        final(out)@ == old(out)@ + ins_bytes(*ins),
{
    match ins {
        Ins::I32Const(value) => i32_const(out, *value),
        Ins::LocalGet(index) => local_get(out, *index),
        Ins::Call(index) => call(out, *index),
        Ins::I32Add => op(out, Op::I32Add),
        Ins::I32Sub => op(out, Op::I32Sub),
        Ins::I32Mul => op(out, Op::I32Mul),
        Ins::I32DivS => op(out, Op::I32DivS),
        Ins::I32RemS => op(out, Op::I32RemS),
    }
    assert(final(out)@ =~= old(out)@ + ins_bytes(*ins));
}

/// Reads one instruction of the integer vocabulary from the front of `b` by
/// the WebAssembly binary format's opcode table: `i32.const` (0x41) with a
/// signed LEB128 immediate, `local.get` (0x20) and `call` (0x10) with an
/// unsigned one, and `i32.add` 0x6a, `i32.sub` 0x6b, `i32.mul` 0x6c,
/// `i32.div_s` 0x6d, `i32.rem_s` 0x6f. Gives the instruction and how many
/// bytes it took.
pub open spec fn decode_ins(b: Seq<u8>) -> Option<(Ins, nat)> {
    if b.len() == 0 {
        None
    } else {
        let opcode = b[0];
        let rest = b.drop_first();
        if opcode == 0x41 {
            match read_leb_s(rest) {
                Some((v, n)) => if i32::MIN <= v <= i32::MAX {
                    Some((Ins::I32Const(v as i32), n + 1))
                } else {
                    None
                },
                None => None,
            }
        } else if opcode == 0x20 || opcode == 0x10 {
            match read_leb_u(rest) {
                Some((v, n)) => if v <= u32::MAX {
                    Some((if opcode == 0x20 { Ins::LocalGet(v as u32) } else { Ins::Call(v as u32) }, n + 1))
                } else {
                    None
                },
                None => None,
            }
        } else if opcode == 0x6a {
            Some((Ins::I32Add, 1))
        } else if opcode == 0x6b {
            Some((Ins::I32Sub, 1))
        } else if opcode == 0x6c {
            Some((Ins::I32Mul, 1))
        } else if opcode == 0x6d {
            Some((Ins::I32DivS, 1))
        } else if opcode == 0x6f {
            Some((Ins::I32RemS, 1))
        } else {
            None
        }
    }
}

/// Every instruction encodes to what the WebAssembly binary format says it
/// is: a standard reader takes back exactly that instruction, from exactly
/// its bytes, whatever follows them.
pub proof fn law_instruction_reads_back(ins: Ins, rest: Seq<u8>)
    ensures
        decode_ins(ins_bytes(ins) + rest) == Some((ins, ins_bytes(ins).len())),
{
    let b = ins_bytes(ins) + rest;
    match ins {
        Ins::I32Const(v) => {
            assert(b.drop_first() =~= leb_s(v as int) + rest);
            lemma_leb_s_roundtrip(v as int, rest);
        },
        Ins::LocalGet(i) => {
            assert(b.drop_first() =~= leb_u32(i) + rest);
            lemma_leb_u_roundtrip(i as nat, rest);
        },
        Ins::Call(i) => {
            assert(b.drop_first() =~= leb_u32(i) + rest);
            lemma_leb_u_roundtrip(i as nat, rest);
        },
        _ => {},
    }
}

/// The encoder's value types for a list of the vocabulary's.
pub open spec fn value_types_of(ts: Seq<ValType>) -> Seq<ValueType> {
    ts.map_values(|t: ValType| value_type_of(t))
}

fn value_types_from(ts: &Vec<ValType>) -> (r: Vec<ValueType>)
    ensures
        r@ == value_types_of(ts@),
{
    let mut r: Vec<ValueType> = Vec::new();
    let mut i: usize = 0;
    while i < ts.len()
        invariant
            i <= ts.len(),
            r@ == value_types_of(ts@.take(i as int)),
        decreases ts.len() - i,
    {
        r.push(ValueType::from_val_type(ts[i]));
        assert(value_types_of(ts@.take(i + 1)) =~= value_types_of(ts@.take(i as int)).push(
            value_type_of(ts@[i as int]),
        ));
        i += 1;
    }
    assert(ts@.take(i as int) =~= ts@);
    r
}

/// The bytes of one function type of the vocabulary.
pub open spec fn func_type_bytes(ty: FuncType) -> Seq<u8> {
    sig_bytes(value_types_of(ty.params@), value_types_of(ty.results@))
}

impl Signature {
    /// The encoder's signature for a function type of the vocabulary.
    pub fn from_func_type(ty: &FuncType) -> (s: Signature)
        ensures
            s.params@ == value_types_of(ty.params@),
            s.results@ == value_types_of(ty.results@),
    {
        Signature { params: value_types_from(&ty.params), results: value_types_from(&ty.results) }
    }
}

/// The locals groups of a function of the vocabulary, in encoder types.
pub open spec fn local_groups_of(groups: Seq<(u32, ValType)>) -> Seq<(u32, ValueType)> {
    groups.map_values(|g: (u32, ValType)| (g.0, value_type_of(g.1)))
}

/// What one function of the vocabulary is inside its size prefix.
pub open spec fn func_inner_bytes(f: Func) -> Seq<u8> {
    locals_bytes(local_groups_of(f.locals@)) + code_bytes(f.body@) + seq![END]
}

/// One code entry of the vocabulary.
pub open spec fn func_entry_bytes(f: Func) -> Seq<u8> {
    leb_u32(func_inner_bytes(f).len() as u32) + func_inner_bytes(f)
}

impl FuncBody {
    /// The encoder's code entry for a function of the vocabulary: its locals
    /// translated, its instructions encoded.
    pub fn from_func(func: &Func) -> (b: FuncBody)
        ensures
            b.locals@ == local_groups_of(func.locals@),
            b.code@ == code_bytes(func.body@),
    {
        let mut code: Vec<u8> = Vec::new();
        let mut i: usize = 0;
        while i < func.body.len()
            invariant
                i <= func.body.len(),
                code@ == concat(func.body@.take(i as int), |i: Ins| ins_bytes(i)),
            decreases func.body.len() - i,
        {
            instruction(&mut code, &func.body[i]);
            proof {
                lemma_concat_step(func.body@, |i: Ins| ins_bytes(i), i as int);
            }
            i += 1;
        }
        proof {
            lemma_take_all(func.body@);
        }
        let mut locals: Vec<(u32, ValueType)> = Vec::new();
        let mut j: usize = 0;
        while j < func.locals.len()
            invariant
                j <= func.locals.len(),
                locals@ == local_groups_of(func.locals@.take(j as int)),
            decreases func.locals.len() - j,
        {
            let (count, ty) = func.locals[j];
            locals.push((count, ValueType::from_val_type(ty)));
            assert(local_groups_of(func.locals@.take(j + 1)) =~= local_groups_of(
                func.locals@.take(j as int),
            ).push((count, value_type_of(ty))));
            j += 1;
        }
        assert(func.locals@.take(j as int) =~= func.locals@);
        FuncBody { locals, code }
    }
}

/// One import of the vocabulary: always a function.
pub open spec fn import_bytes(i: Import) -> Seq<u8> {
    name_bytes(i.module@) + name_bytes(i.name@) + seq![DESCRIPTOR_FUNC] + leb_u32(i.type_index)
}

impl ImportEntry {
    /// The encoder's import entry for an import of the vocabulary.
    pub fn from_import(import: &Import) -> (e: ImportEntry)
        ensures
            e.module@ == import.module@,
            e.name@ == import.name@,
            e.desc == ImportDesc::Func(import.type_index),
    {
        ImportEntry {
            module: import.module.clone(),
            name: import.name.clone(),
            desc: ImportDesc::Func(import.type_index),
        }
    }
}

/// One export of the vocabulary: always a function.
pub open spec fn export_bytes(e: crate::ir::Export) -> Seq<u8> {
    name_bytes(e.name@) + seq![DESCRIPTOR_FUNC] + leb_u32(e.index)
}

/// The type index of each defined function, in order.
pub open spec fn type_indices_of(funcs: Seq<Func>) -> Seq<u32> {
    funcs.map_values(|f: Func| f.type_index)
}

/// The whole module of the integer vocabulary: header, then the type, import
/// (only when something is imported), function, export and code sections,
/// in that order.
pub open spec fn module_bytes(m: Module) -> Seq<u8> {
    header_bytes() + section_bytes(
        SECTION_TYPE,
        vector_bytes(m.types@.len(), concat(m.types@, |t: FuncType| func_type_bytes(t))),
    ) + (if m.imports@.len() == 0 {
        Seq::empty()
    } else {
        section_bytes(
            SECTION_IMPORT,
            vector_bytes(m.imports@.len(), concat(m.imports@, |i: Import| import_bytes(i))),
        )
    }) + section_bytes(SECTION_FUNCTION, indices_bytes(type_indices_of(m.funcs@))) + section_bytes(
        SECTION_EXPORT,
        vector_bytes(
            m.exports@.len(),
            concat(m.exports@, |e: crate::ir::Export| export_bytes(e)),
        ),
    ) + section_bytes(
        SECTION_CODE,
        vector_bytes(m.funcs@.len(), concat(m.funcs@, |f: Func| func_entry_bytes(f))),
    )
}

/// The module of the integer vocabulary as standard wasm bytes.
pub fn encode(module: &Module) -> (bytes: Vec<u8>)
    ensures
        bytes@ == module_bytes(*module),
{
    let mut types: Vec<Signature> = Vec::new();
    let mut i: usize = 0;
    while i < module.types.len()
        invariant
            i <= module.types.len(),
            types@.len() == i,
            forall|k: int|
                0 <= k < i ==> signature_bytes(#[trigger] types@[k]) == func_type_bytes(
                    module.types@[k],
                ),
        decreases module.types.len() - i,
    {
        types.push(Signature::from_func_type(&module.types[i]));
        i += 1;
    }
    proof {
        lemma_concat_pointwise(
            types@,
            |s: Signature| signature_bytes(s),
            module.types@,
            |t: FuncType| func_type_bytes(t),
        );
    }
    let mut type_indices: Vec<u32> = Vec::new();
    let mut bodies: Vec<FuncBody> = Vec::new();
    let mut i: usize = 0;
    while i < module.funcs.len()
        invariant
            i <= module.funcs.len(),
            type_indices@ == type_indices_of(module.funcs@.take(i as int)),
            bodies@.len() == i,
            forall|k: int|
                0 <= k < i ==> body_bytes(#[trigger] bodies@[k]) == func_entry_bytes(
                    module.funcs@[k],
                ),
        decreases module.funcs.len() - i,
    {
        type_indices.push(module.funcs[i].type_index);
        assert(type_indices_of(module.funcs@.take(i + 1)) =~= type_indices_of(
            module.funcs@.take(i as int),
        ).push(module.funcs@[i as int].type_index));
        let b = FuncBody::from_func(&module.funcs[i]);
        assert(body_inner_bytes(b) == func_inner_bytes(module.funcs@[i as int]));
        bodies.push(b);
        i += 1;
    }
    assert(module.funcs@.take(i as int) =~= module.funcs@);
    proof {
        lemma_concat_pointwise(
            bodies@,
            |f: FuncBody| body_bytes(f),
            module.funcs@,
            |f: Func| func_entry_bytes(f),
        );
    }
    let mut exports: Vec<ExportEntry> = Vec::new();
    let mut i: usize = 0;
    while i < module.exports.len()
        invariant
            i <= module.exports.len(),
            exports@.len() == i,
            forall|k: int|
                0 <= k < i ==> export_entry_bytes(#[trigger] exports@[k]) == export_bytes(
                    module.exports@[k],
                ),
        decreases module.exports.len() - i,
    {
        let e = &module.exports[i];
        let descriptor = match e.kind {
            ExportKind::Func => DESCRIPTOR_FUNC,
        };
        exports.push(ExportEntry { name: e.name.clone(), descriptor, index: e.index });
        i += 1;
    }
    proof {
        lemma_concat_pointwise(
            exports@,
            |e: ExportEntry| export_entry_bytes(e),
            module.exports@,
            |e: crate::ir::Export| export_bytes(e),
        );
    }
    let mut imports: Vec<ImportEntry> = Vec::new();
    let mut i: usize = 0;
    while i < module.imports.len()
        invariant
            i <= module.imports.len(),
            imports@.len() == i,
            forall|k: int|
                0 <= k < i ==> import_entry_bytes(#[trigger] imports@[k]) == import_bytes(
                    module.imports@[k],
                ),
        decreases module.imports.len() - i,
    {
        let entry = ImportEntry::from_import(&module.imports[i]);
        assert(import_entry_bytes(entry) =~= import_bytes(module.imports@[i as int]));
        imports.push(entry);
        i += 1;
    }
    proof {
        lemma_concat_pointwise(
            imports@,
            |e: ImportEntry| import_entry_bytes(e),
            module.imports@,
            |i: Import| import_bytes(i),
        );
    }

    let mut out = header();
    type_section(&mut out, types.as_slice());
    // Only when there is something to import: a module that imports nothing
    // carries no section saying so.
    if imports.len() != 0 {
        import_section(&mut out, imports.as_slice());
    }
    function_section(&mut out, type_indices.as_slice());
    export_section(&mut out, exports.as_slice());
    code_section(&mut out, bodies.as_slice());
    assert(out@ =~= module_bytes(*module));
    out
}

} // verus!
