//! The wider vocabulary: a module with a memory, globals, data and many
//! functions, over the instruction set two-word JavaScript values need, and
//! its assembly into bytes through the writers of [`crate::encode`].
//!
//! Assembly only decides which encoder writer an item goes through; the
//! writers decide the bytes.
use vstd::prelude::*;
use vstd::string::*;

use crate::encode::{
    self, body_bytes, code_section, concat, const_expr_bytes, custom_section, element_bytes,
    export_entry_bytes, export_section, function_section, global_bytes, global_section,
    header, header_bytes, i32_const_bytes, i64_const_bytes, f64_const_bytes, import_entry_bytes,
    import_section, indexed_bytes, indices_bytes, lemma_concat_pointwise, lemma_concat_step,
    lemma_take_all, locals_bytes, mem_aligned_bytes, name_bytes, op, op_byte, section_bytes,
    signature_bytes, sig_bytes, table_section, memory_section, table_section_body,
    memory_section_body, type_section, vector, vector_bytes, ConstExpr,
    Data as EncData, Element, ExportEntry, FuncBody, ImportDesc, ImportEntry, Limits, MemOp, Op,
    Signature, TableType, ValueType, DESCRIPTOR_FUNC, END, SECTION_CODE, SECTION_CUSTOM,
    SECTION_DATA, SECTION_ELEMENT, SECTION_EXPORT, SECTION_FUNCTION, SECTION_GLOBAL,
    SECTION_IMPORT, SECTION_MEMORY, SECTION_TABLE, SECTION_TYPE, data_bytes, data_section,
    element_section,
};
use crate::leb::{leb_u32, unsigned};

verus! {

/// The value types two-word values need.
#[derive(Debug, Clone, Copy, PartialEq, Eq, Structural)]
pub enum ValType {
    I32,
    I64,
    F64,
}

/// wasm 1.0's only block type this vocabulary uses.
#[derive(Debug, Clone, Copy, PartialEq, Eq, Structural)]
pub enum BlockType {
    Empty,
}

/// One instruction, named after the wasm opcode it becomes. A floating-point
/// constant is held as its IEEE-754 bit pattern.
#[derive(Debug, Clone, Copy, PartialEq, Eq, Structural)]
pub enum Ins {
    // control
    Block(BlockType),
    Loop(BlockType),
    If(BlockType),
    End,
    Br(u32),
    BrIf(u32),
    Return,
    Call(u32),
    CallIndirect(u32, u32),
    Unreachable,
    Drop,
    // variables
    LocalGet(u32),
    LocalSet(u32),
    LocalTee(u32),
    GlobalGet(u32),
    GlobalSet(u32),
    // memory, as (align exponent, offset)
    I32Load(u32, u32),
    I32Load8U(u32, u32),
    I32Store(u32, u32),
    I32Store8(u32, u32),
    I64Load(u32, u32),
    I64Store(u32, u32),
    MemorySize,
    MemoryGrow,
    // constants
    I32Const(i32),
    I64Const(i64),
    F64Const(u64),
    // i32
    I32Eqz,
    I32Eq,
    I32Ne,
    I32LtS,
    I32LtU,
    I32GeU,
    I32Add,
    I32Sub,
    I32Mul,
    I32DivS,
    I32RemS,
    I32And,
    I32Or,
    I32Shl,
    I32ShrU,
    I32Xor,
    I32ShrS,
    // i64
    I64Eq,
    I64Add,
    // f64
    F64Eq,
    F64Ne,
    F64Lt,
    F64Gt,
    F64Le,
    F64Ge,
    F64Abs,
    F64Neg,
    F64Ceil,
    F64Floor,
    F64Nearest,
    F64Sqrt,
    F64Min,
    F64Max,
    F64Add,
    F64Sub,
    F64Mul,
    F64Div,
    F64Copysign,
    F64Trunc,
    // conversions
    I32TruncF64S,
    I32WrapI64,
    I64ExtendI32U,
    F64ConvertI32S,
    F64ConvertI32U,
    F64ReinterpretI64,
    I64ReinterpretF64,
}

#[derive(Debug, Clone, PartialEq, Eq)]
pub struct FuncType {
    pub params: Vec<ValType>,
    pub results: Vec<ValType>,
}

#[derive(Debug, Clone, PartialEq, Eq)]
pub struct Import {
    pub module: String,
    pub name: String,
    pub type_index: u32,
}

/// Where a function was written: the 1-based line, and the 1-based column on
/// it in UTF-16 code units, the way an editor counts.
#[derive(Debug, Clone, Copy, PartialEq, Eq, Structural)]
pub struct Site {
    pub line: u32,
    pub column: u32,
}

/// A defined function. `name` is for the `name` custom section only; `site`
/// is for the `qjs.lines` custom section. The body does not carry its
/// terminating `end`.
#[derive(Debug, Clone)]
pub struct Func {
    pub name: Option<String>,
    pub site: Option<Site>,
    pub type_index: u32,
    pub locals: Vec<(u32, ValType)>,
    pub body: Vec<Ins>,
}

/// A function export. Only functions are exported.
#[derive(Debug, Clone, PartialEq, Eq)]
pub struct Export {
    pub name: String,
    pub index: u32,
}

/// A defined global's initial value.
#[derive(Debug, Clone, Copy, PartialEq, Eq, Structural)]
pub enum Const {
    I32(i32),
    I64(i64),
}

#[derive(Debug, Clone, Copy, PartialEq, Eq, Structural)]
pub struct Global {
    pub ty: ValType,
    pub mutable: bool,
    pub init: Const,
}

/// A defined `funcref` table.
#[derive(Debug, Clone, Copy, PartialEq, Eq)]
pub struct Table {
    pub min: u32,
    pub max: Option<u32>,
}

/// An active element segment in table 0.
#[derive(Debug, Clone, PartialEq, Eq)]
pub struct Elem {
    pub offset: u32,
    pub funcs: Vec<u32>,
}

/// An active data segment in memory 0.
#[derive(Debug, Clone, PartialEq, Eq)]
pub struct Data {
    pub offset: u32,
    pub bytes: Vec<u8>,
}

#[derive(Debug, Clone, Copy, PartialEq, Eq)]
pub struct Memory {
    pub min: u32,
    pub max: Option<u32>,
}

/// A whole module. `table` and `memory` are the sections whose presence a
/// caller chooses; every vector is emitted when it has entries.
#[derive(Debug, Clone)]
pub struct Module {
    pub types: Vec<FuncType>,
    pub imports: Vec<Import>,
    pub table: Option<Table>,
    pub memory: Option<Memory>,
    pub globals: Vec<Global>,
    pub funcs: Vec<Func>,
    pub elements: Vec<Elem>,
    pub data: Vec<Data>,
    pub exports: Vec<Export>,
}

// -- translation to the encoder's vocabulary ------------------------------------

/// The encoder's value type for each of this vocabulary's.
pub open spec fn value_type_of(ty: ValType) -> ValueType {
    match ty {
        ValType::I32 => ValueType::I32,
        ValType::I64 => ValueType::I64,
        ValType::F64 => ValueType::F64,
    }
}

fn value_type(ty: ValType) -> (t: ValueType)
    ensures
        t == value_type_of(ty),
{
    match ty {
        ValType::I32 => ValueType::I32,
        ValType::I64 => ValueType::I64,
        ValType::F64 => ValueType::F64,
    }
}

/// The encoder's block type for each of this vocabulary's.
pub open spec fn block_of(ty: BlockType) -> encode::BlockType {
    match ty {
        BlockType::Empty => encode::BlockType::Empty,
    }
}

fn block(ty: BlockType) -> (b: encode::BlockType)
    ensures
        b == block_of(ty),
{
    match ty {
        BlockType::Empty => encode::BlockType::Empty,
    }
}

/// The encoder's value types for a list of this vocabulary's.
pub open spec fn value_types_of(ts: Seq<ValType>) -> Seq<ValueType> {
    ts.map_values(|t: ValType| value_type_of(t))
}

fn value_types(ts: &Vec<ValType>) -> (r: Vec<ValueType>)
    ensures
        r@ == value_types_of(ts@),
{
    let mut r: Vec<ValueType> = Vec::new();
    let mut i: usize = 0;
    while i < ts.len()
        invariant
            i <= ts.len(),
            r@ == value_types_of(ts@.take(i as int)),
        decreases ts.len() - i,
    {
        r.push(value_type(ts[i]));
        assert(value_types_of(ts@.take(i + 1)) =~= value_types_of(ts@.take(i as int)).push(
            value_type_of(ts@[i as int]),
        ));
        i += 1;
    }
    assert(ts@.take(i as int) =~= ts@);
    r
}

/// The bytes of one function type.
pub open spec fn func_type_bytes(ty: FuncType) -> Seq<u8> {
    sig_bytes(value_types_of(ty.params@), value_types_of(ty.results@))
}

fn signature(ty: &FuncType) -> (s: Signature)
    ensures
        signature_bytes(s) == func_type_bytes(*ty),
{
    Signature { params: value_types(&ty.params), results: value_types(&ty.results) }
}

// -- instructions ---------------------------------------------------------------

/// The bytes each instruction is.
pub open spec fn ins_bytes(ins: Ins) -> Seq<u8> {
    match ins {
        Ins::Block(ty) => seq![0x02u8] + encode::block_type_bytes(block_of(ty)),
        Ins::Loop(ty) => seq![0x03u8] + encode::block_type_bytes(block_of(ty)),
        Ins::If(ty) => seq![0x04u8] + encode::block_type_bytes(block_of(ty)),
        Ins::End => seq![END],
        Ins::Br(depth) => indexed_bytes(0x0c, depth),
        Ins::BrIf(depth) => indexed_bytes(0x0d, depth),
        Ins::Call(index) => indexed_bytes(0x10, index),
        Ins::CallIndirect(ty, table) => indexed_bytes(0x11, ty) + leb_u32(table),
        Ins::LocalGet(i) => indexed_bytes(0x20, i),
        Ins::LocalSet(i) => indexed_bytes(0x21, i),
        Ins::LocalTee(i) => indexed_bytes(0x22, i),
        Ins::GlobalGet(i) => indexed_bytes(0x23, i),
        Ins::GlobalSet(i) => indexed_bytes(0x24, i),
        Ins::I32Load(align, offset) => mem_aligned_bytes(MemOp::I32Load, align, offset),
        Ins::I32Load8U(align, offset) => mem_aligned_bytes(MemOp::I32Load8U, align, offset),
        Ins::I32Store(align, offset) => mem_aligned_bytes(MemOp::I32Store, align, offset),
        Ins::I32Store8(align, offset) => mem_aligned_bytes(MemOp::I32Store8, align, offset),
        Ins::I64Load(align, offset) => mem_aligned_bytes(MemOp::I64Load, align, offset),
        Ins::I64Store(align, offset) => mem_aligned_bytes(MemOp::I64Store, align, offset),
        Ins::MemorySize => seq![0x3fu8, 0u8],
        Ins::MemoryGrow => seq![0x40u8, 0u8],
        Ins::I32Const(v) => i32_const_bytes(v),
        Ins::I64Const(v) => i64_const_bytes(v),
        Ins::F64Const(bits) => f64_const_bytes(bits),
        Ins::Return => seq![op_byte(Op::Return)],
        Ins::Unreachable => seq![op_byte(Op::Unreachable)],
        Ins::Drop => seq![op_byte(Op::Drop)],
        Ins::I32Eqz => seq![op_byte(Op::I32Eqz)],
        Ins::I32Eq => seq![op_byte(Op::I32Eq)],
        Ins::I32Ne => seq![op_byte(Op::I32Ne)],
        Ins::I32LtS => seq![op_byte(Op::I32LtS)],
        Ins::I32LtU => seq![op_byte(Op::I32LtU)],
        Ins::I32GeU => seq![op_byte(Op::I32GeU)],
        Ins::I32Add => seq![op_byte(Op::I32Add)],
        Ins::I32Sub => seq![op_byte(Op::I32Sub)],
        Ins::I32Mul => seq![op_byte(Op::I32Mul)],
        Ins::I32DivS => seq![op_byte(Op::I32DivS)],
        Ins::I32RemS => seq![op_byte(Op::I32RemS)],
        Ins::I32And => seq![op_byte(Op::I32And)],
        Ins::I32Or => seq![op_byte(Op::I32Or)],
        Ins::I32Shl => seq![op_byte(Op::I32Shl)],
        Ins::I32ShrU => seq![op_byte(Op::I32ShrU)],
        Ins::I32Xor => seq![op_byte(Op::I32Xor)],
        Ins::I32ShrS => seq![op_byte(Op::I32ShrS)],
        Ins::I64Eq => seq![op_byte(Op::I64Eq)],
        Ins::I64Add => seq![op_byte(Op::I64Add)],
        Ins::F64Eq => seq![op_byte(Op::F64Eq)],
        Ins::F64Ne => seq![op_byte(Op::F64Ne)],
        Ins::F64Lt => seq![op_byte(Op::F64Lt)],
        Ins::F64Gt => seq![op_byte(Op::F64Gt)],
        Ins::F64Le => seq![op_byte(Op::F64Le)],
        Ins::F64Ge => seq![op_byte(Op::F64Ge)],
        Ins::F64Abs => seq![op_byte(Op::F64Abs)],
        Ins::F64Neg => seq![op_byte(Op::F64Neg)],
        Ins::F64Ceil => seq![op_byte(Op::F64Ceil)],
        Ins::F64Floor => seq![op_byte(Op::F64Floor)],
        Ins::F64Nearest => seq![op_byte(Op::F64Nearest)],
        Ins::F64Sqrt => seq![op_byte(Op::F64Sqrt)],
        Ins::F64Min => seq![op_byte(Op::F64Min)],
        Ins::F64Max => seq![op_byte(Op::F64Max)],
        Ins::F64Add => seq![op_byte(Op::F64Add)],
        Ins::F64Sub => seq![op_byte(Op::F64Sub)],
        Ins::F64Mul => seq![op_byte(Op::F64Mul)],
        Ins::F64Div => seq![op_byte(Op::F64Div)],
        Ins::F64Copysign => seq![op_byte(Op::F64Copysign)],
        Ins::F64Trunc => seq![op_byte(Op::F64Trunc)],
        Ins::I32TruncF64S => seq![op_byte(Op::I32TruncF64S)],
        Ins::I32WrapI64 => seq![op_byte(Op::I32WrapI64)],
        Ins::I64ExtendI32U => seq![op_byte(Op::I64ExtendI32U)],
        Ins::F64ConvertI32S => seq![op_byte(Op::F64ConvertI32S)],
        Ins::F64ConvertI32U => seq![op_byte(Op::F64ConvertI32U)],
        Ins::F64ReinterpretI64 => seq![op_byte(Op::F64ReinterpretI64)],
        Ins::I64ReinterpretF64 => seq![op_byte(Op::I64ReinterpretF64)],
    }
}

/// Writes one instruction.
fn write(out: &mut Vec<u8>, ins: Ins)
    ensures
        final(out)@ == old(out)@ + ins_bytes(ins),
{
    match ins {
        Ins::Block(ty) => encode::block(out, block(ty)),
        Ins::Loop(ty) => encode::loop_(out, block(ty)),
        Ins::If(ty) => encode::if_(out, block(ty)),
        Ins::End => encode::end(out),
        Ins::Br(depth) => encode::br(out, depth),
        Ins::BrIf(depth) => encode::br_if(out, depth),
        Ins::Call(index) => encode::call(out, index),
        Ins::CallIndirect(ty, table) => encode::call_indirect(out, ty, table),
        Ins::LocalGet(i) => encode::local_get(out, i),
        Ins::LocalSet(i) => encode::local_set(out, i),
        Ins::LocalTee(i) => encode::local_tee(out, i),
        Ins::GlobalGet(i) => encode::global_get(out, i),
        Ins::GlobalSet(i) => encode::global_set(out, i),
        Ins::I32Load(align, offset) => encode::mem_aligned(out, MemOp::I32Load, align, offset),
        Ins::I32Load8U(align, offset) => encode::mem_aligned(out, MemOp::I32Load8U, align, offset),
        Ins::I32Store(align, offset) => encode::mem_aligned(out, MemOp::I32Store, align, offset),
        Ins::I32Store8(align, offset) => encode::mem_aligned(out, MemOp::I32Store8, align, offset),
        Ins::I64Load(align, offset) => encode::mem_aligned(out, MemOp::I64Load, align, offset),
        Ins::I64Store(align, offset) => encode::mem_aligned(out, MemOp::I64Store, align, offset),
        Ins::MemorySize => encode::memory_size(out, 0),
        Ins::MemoryGrow => encode::memory_grow(out, 0),
        Ins::I32Const(v) => encode::i32_const(out, v),
        Ins::I64Const(v) => encode::i64_const(out, v),
        Ins::F64Const(bits) => encode::f64_const(out, bits),
        Ins::Return => op(out, Op::Return),
        Ins::Unreachable => op(out, Op::Unreachable),
        Ins::Drop => op(out, Op::Drop),
        Ins::I32Eqz => op(out, Op::I32Eqz),
        Ins::I32Eq => op(out, Op::I32Eq),
        Ins::I32Ne => op(out, Op::I32Ne),
        Ins::I32LtS => op(out, Op::I32LtS),
        Ins::I32LtU => op(out, Op::I32LtU),
        Ins::I32GeU => op(out, Op::I32GeU),
        Ins::I32Add => op(out, Op::I32Add),
        Ins::I32Sub => op(out, Op::I32Sub),
        Ins::I32Mul => op(out, Op::I32Mul),
        Ins::I32DivS => op(out, Op::I32DivS),
        Ins::I32RemS => op(out, Op::I32RemS),
        Ins::I32And => op(out, Op::I32And),
        Ins::I32Or => op(out, Op::I32Or),
        Ins::I32Shl => op(out, Op::I32Shl),
        Ins::I32ShrU => op(out, Op::I32ShrU),
        Ins::I32Xor => op(out, Op::I32Xor),
        Ins::I32ShrS => op(out, Op::I32ShrS),
        Ins::I64Eq => op(out, Op::I64Eq),
        Ins::I64Add => op(out, Op::I64Add),
        Ins::F64Eq => op(out, Op::F64Eq),
        Ins::F64Ne => op(out, Op::F64Ne),
        Ins::F64Lt => op(out, Op::F64Lt),
        Ins::F64Gt => op(out, Op::F64Gt),
        Ins::F64Le => op(out, Op::F64Le),
        Ins::F64Ge => op(out, Op::F64Ge),
        Ins::F64Abs => op(out, Op::F64Abs),
        Ins::F64Neg => op(out, Op::F64Neg),
        Ins::F64Ceil => op(out, Op::F64Ceil),
        Ins::F64Floor => op(out, Op::F64Floor),
        Ins::F64Nearest => op(out, Op::F64Nearest),
        Ins::F64Sqrt => op(out, Op::F64Sqrt),
        Ins::F64Min => op(out, Op::F64Min),
        Ins::F64Max => op(out, Op::F64Max),
        Ins::F64Add => op(out, Op::F64Add),
        Ins::F64Sub => op(out, Op::F64Sub),
        Ins::F64Mul => op(out, Op::F64Mul),
        Ins::F64Div => op(out, Op::F64Div),
        Ins::F64Copysign => op(out, Op::F64Copysign),
        Ins::F64Trunc => op(out, Op::F64Trunc),
        Ins::I32TruncF64S => op(out, Op::I32TruncF64S),
        Ins::I32WrapI64 => op(out, Op::I32WrapI64),
        Ins::I64ExtendI32U => op(out, Op::I64ExtendI32U),
        Ins::F64ConvertI32S => op(out, Op::F64ConvertI32S),
        Ins::F64ConvertI32U => op(out, Op::F64ConvertI32U),
        Ins::F64ReinterpretI64 => op(out, Op::F64ReinterpretI64),
        Ins::I64ReinterpretF64 => op(out, Op::I64ReinterpretF64),
    }
    assert(final(out)@ =~= old(out)@ + ins_bytes(ins));
}

// -- custom sections --------------------------------------------------------------

/// `(function index, name)` for every defined function that has a name, in
/// index order. Defined functions are numbered after the imports.
pub open spec fn named(funcs: Seq<Func>, base: nat) -> Seq<(u32, Seq<char>)>
    decreases funcs.len(),
{
    if funcs.len() == 0 {
        Seq::empty()
    } else {
        let prev = named(funcs.drop_last(), base);
        match funcs.last().name {
            Some(n) => prev.push(((base + funcs.len() - 1) as u32, n@)),
            None => prev,
        }
    }
}

/// `(function index, site)` for every defined function that has a site, in
/// index order.
pub open spec fn sited(funcs: Seq<Func>, base: nat) -> Seq<(u32, Site)>
    decreases funcs.len(),
{
    if funcs.len() == 0 {
        Seq::empty()
    } else {
        let prev = sited(funcs.drop_last(), base);
        match funcs.last().site {
            Some(site) => prev.push(((base + funcs.len() - 1) as u32, site)),
            None => prev,
        }
    }
}

/// One entry of the function-name map.
pub open spec fn name_entry_bytes(e: (u32, Seq<char>)) -> Seq<u8> {
    leb_u32(e.0) + name_bytes(e.1)
}

/// One entry of the `qjs.lines` section: index, line, column.
pub open spec fn line_entry_bytes(e: (u32, Site)) -> Seq<u8> {
    leb_u32(e.0) + leb_u32(e.1.line) + leb_u32(e.1.column)
}

/// The `name` custom section, function names only: subsection 1, its byte
/// length, then the vector of `(index, name)`. Absent when no function has a
/// name.
pub open spec fn name_section_bytes(m: Module) -> Seq<u8> {
    let entries = named(m.funcs@, m.imports@.len());
    if entries.len() == 0 {
        Seq::empty()
    } else {
        let map = vector_bytes(entries.len(), concat(entries, |e: (u32, Seq<char>)| name_entry_bytes(e)));
        section_bytes(
            SECTION_CUSTOM,
            name_bytes("name"@) + (seq![NAME_SUBSECTION_FUNCTIONS] + leb_u32(map.len() as u32) + map),
        )
    }
}

/// The `qjs.lines` custom section: where each function was written. Absent
/// when no function has a site.
pub open spec fn lines_section_bytes(m: Module) -> Seq<u8> {
    let entries = sited(m.funcs@, m.imports@.len());
    if entries.len() == 0 {
        Seq::empty()
    } else {
        section_bytes(
            SECTION_CUSTOM,
            name_bytes("qjs.lines"@) + vector_bytes(
                entries.len(),
                concat(entries, |e: (u32, Site)| line_entry_bytes(e)),
            ),
        )
    }
}

/// The `name` section's function-name subsection id.
pub const NAME_SUBSECTION_FUNCTIONS: u8 = 1;

proof fn lemma_named_step(funcs: Seq<Func>, base: nat, i: int)
    requires
        0 <= i < funcs.len(),
    ensures
        named(funcs.take(i + 1), base) == match funcs[i].name {
            Some(n) => named(funcs.take(i), base).push(((base + i) as u32, n@)),
            None => named(funcs.take(i), base),
        },
        sited(funcs.take(i + 1), base) == match funcs[i].site {
            Some(site) => sited(funcs.take(i), base).push(((base + i) as u32, site)),
            None => sited(funcs.take(i), base),
        },
{
    assert(funcs.take(i + 1).drop_last() =~= funcs.take(i));
}

fn name_section(out: &mut Vec<u8>, module: &Module)
    requires
        module.imports@.len() + module.funcs@.len() <= usize::MAX,
    ensures
        final(out)@ == old(out)@ + name_section_bytes(*module),
{
    let ghost base = module.imports@.len();
    let ghost f = |e: (u32, Seq<char>)| name_entry_bytes(e);
    let mut count: usize = 0;
    let mut elements: Vec<u8> = Vec::new();
    let mut i: usize = 0;
    while i < module.funcs.len()
        invariant
            i <= module.funcs@.len(),
            base == module.imports@.len(),
            module.imports@.len() + module.funcs@.len() <= usize::MAX,
            count == named(module.funcs@.take(i as int), base).len(),
            count <= i,
            elements@ == concat(
                named(module.funcs@.take(i as int), base),
                |e: (u32, Seq<char>)| name_entry_bytes(e),
            ),
        decreases module.funcs.len() - i,
    {
        proof {
            lemma_named_step(module.funcs@, base, i as int);
        }
        match &module.funcs[i].name {
            Some(text) => {
                let ghost before = elements@;
                let ghost entries = named(module.funcs@.take(i as int), base);
                let index = (module.imports.len() + i) as u32;
                unsigned(&mut elements, index);
                encode::name(&mut elements, text.as_str());
                let ghost e = ((base + i) as u32, text@);
                assert(elements@ =~= before + name_entry_bytes(e));
                assert(entries.push(e).drop_last() =~= entries);
                count = count + 1;
            },
            None => {},
        }
        i += 1;
    }
    assert(module.funcs@.take(i as int) =~= module.funcs@);
    if count == 0 {
        assert(final(out)@ =~= old(out)@ + name_section_bytes(*module));
        return;
    }
    let mut map: Vec<u8> = Vec::new();
    vector(&mut map, count, elements.as_slice());
    let mut contents: Vec<u8> = Vec::new();
    contents.push(NAME_SUBSECTION_FUNCTIONS);
    unsigned(&mut contents, map.len() as u32);
    encode::extend(&mut contents, map.as_slice());
    custom_section(out, "name", contents.as_slice());
    proof {
        reveal_strlit("name");
    }
    assert(final(out)@ =~= old(out)@ + name_section_bytes(*module));
}

fn lines_section(out: &mut Vec<u8>, module: &Module)
    requires
        module.imports@.len() + module.funcs@.len() <= usize::MAX,
    ensures
        final(out)@ == old(out)@ + lines_section_bytes(*module),
{
    let ghost base = module.imports@.len();
    let mut count: usize = 0;
    let mut elements: Vec<u8> = Vec::new();
    let mut i: usize = 0;
    while i < module.funcs.len()
        invariant
            i <= module.funcs@.len(),
            base == module.imports@.len(),
            module.imports@.len() + module.funcs@.len() <= usize::MAX,
            count == sited(module.funcs@.take(i as int), base).len(),
            count <= i,
            elements@ == concat(
                sited(module.funcs@.take(i as int), base),
                |e: (u32, Site)| line_entry_bytes(e),
            ),
        decreases module.funcs.len() - i,
    {
        proof {
            lemma_named_step(module.funcs@, base, i as int);
        }
        match module.funcs[i].site {
            Some(site) => {
                let ghost before = elements@;
                let ghost entries = sited(module.funcs@.take(i as int), base);
                let index = (module.imports.len() + i) as u32;
                unsigned(&mut elements, index);
                unsigned(&mut elements, site.line);
                unsigned(&mut elements, site.column);
                let ghost e = ((base + i) as u32, site);
                assert(elements@ =~= before + line_entry_bytes(e));
                assert(entries.push(e).drop_last() =~= entries);
                count = count + 1;
            },
            None => {},
        }
        i += 1;
    }
    assert(module.funcs@.take(i as int) =~= module.funcs@);
    if count == 0 {
        assert(final(out)@ =~= old(out)@ + lines_section_bytes(*module));
        return;
    }
    let mut contents: Vec<u8> = Vec::new();
    vector(&mut contents, count, elements.as_slice());
    custom_section(out, "qjs.lines", contents.as_slice());
    proof {
        reveal_strlit("qjs.lines");
    }
    assert(final(out)@ =~= old(out)@ + lines_section_bytes(*module));
}

// -- assembly ---------------------------------------------------------------------

/// One import: always a function.
pub open spec fn import_bytes(i: Import) -> Seq<u8> {
    name_bytes(i.module@) + name_bytes(i.name@) + seq![DESCRIPTOR_FUNC] + leb_u32(i.type_index)
}

/// The encoder's global for one of this vocabulary's.
pub open spec fn global_of(g: Global) -> encode::Global {
    encode::Global {
        ty: value_type_of(g.ty),
        mutable: g.mutable,
        init: match g.init {
            Const::I32(v) => ConstExpr::I32(v),
            Const::I64(v) => ConstExpr::I64(v),
        },
    }
}

/// One export: always a function.
pub open spec fn export_bytes(e: Export) -> Seq<u8> {
    name_bytes(e.name@) + seq![DESCRIPTOR_FUNC] + leb_u32(e.index)
}

/// One element segment: active, table 0, offset, function indices.
pub open spec fn elem_bytes(e: Elem) -> Seq<u8> {
    leb_u32(0) + const_expr_bytes(ConstExpr::I32(e.offset as i32)) + indices_bytes(e.funcs@)
}

/// One data segment: active, memory 0, offset, bytes.
pub open spec fn data_seg_bytes(d: Data) -> Seq<u8> {
    leb_u32(0) + const_expr_bytes(ConstExpr::I32(d.offset as i32)) + leb_u32(
        d.bytes@.len() as u32,
    ) + d.bytes@
}

/// The encoder's locals groups for a function.
pub open spec fn local_groups_of(groups: Seq<(u32, ValType)>) -> Seq<(u32, ValueType)> {
    groups.map_values(|g: (u32, ValType)| (g.0, value_type_of(g.1)))
}

/// The bytes of an instruction sequence.
pub open spec fn code_bytes(body: Seq<Ins>) -> Seq<u8> {
    concat(body, |i: Ins| ins_bytes(i))
}

/// What one function is inside its size prefix.
pub open spec fn func_inner_bytes(f: Func) -> Seq<u8> {
    locals_bytes(local_groups_of(f.locals@)) + code_bytes(f.body@) + seq![END]
}

/// One code entry.
pub open spec fn func_entry_bytes(f: Func) -> Seq<u8> {
    leb_u32(func_inner_bytes(f).len() as u32) + func_inner_bytes(f)
}

/// `bytes` when `present`, and nothing otherwise.
pub open spec fn when(present: bool, bytes: Seq<u8>) -> Seq<u8> {
    if present { bytes } else { Seq::empty() }
}

/// The table section a module declares, if it has a table.
pub open spec fn table_bytes(t: Option<Table>) -> Seq<u8> {
    match t {
        Some(t) => section_bytes(
            SECTION_TABLE,
            table_section_body(
                seq![TableType { element: ValueType::FuncRef, limits: Limits { min: t.min, max: t.max } }],
            ),
        ),
        None => Seq::empty(),
    }
}

/// The memory section a module declares, if it has a memory.
pub open spec fn memory_bytes(m: Option<Memory>) -> Seq<u8> {
    match m {
        Some(m) => section_bytes(
            SECTION_MEMORY,
            memory_section_body(seq![Limits { min: m.min, max: m.max }]),
        ),
        None => Seq::empty(),
    }
}

/// The whole module, sections in rank order (which is not id order): type,
/// import, function, table, memory, global, export, element, code, data, then
/// the `name` and `qjs.lines` custom sections. Optional sections appear only
/// when they have something to say.
pub open spec fn module_bytes(m: Module) -> Seq<u8> {
    header_bytes()
    + section_bytes(SECTION_TYPE, vector_bytes(m.types@.len(), concat(m.types@, |t: FuncType| func_type_bytes(t))))
    + when(m.imports@.len() > 0, section_bytes(SECTION_IMPORT, vector_bytes(m.imports@.len(), concat(m.imports@, |i: Import| import_bytes(i)))))
    + section_bytes(SECTION_FUNCTION, indices_bytes(m.funcs@.map_values(|f: Func| f.type_index)))
    + table_bytes(m.table)
    + memory_bytes(m.memory)
    + when(m.globals@.len() > 0, section_bytes(SECTION_GLOBAL, vector_bytes(m.globals@.len(), concat(m.globals@, |g: Global| global_bytes(global_of(g))))))
    + section_bytes(SECTION_EXPORT, vector_bytes(m.exports@.len(), concat(m.exports@, |e: Export| export_bytes(e))))
    + when(m.elements@.len() > 0, section_bytes(SECTION_ELEMENT, vector_bytes(m.elements@.len(), concat(m.elements@, |e: Elem| elem_bytes(e)))))
    + section_bytes(SECTION_CODE, vector_bytes(m.funcs@.len(), concat(m.funcs@, |f: Func| func_entry_bytes(f))))
    + when(m.data@.len() > 0, section_bytes(SECTION_DATA, vector_bytes(m.data@.len(), concat(m.data@, |d: Data| data_seg_bytes(d)))))
    + name_section_bytes(m)
    + lines_section_bytes(m)
}

fn copy_u32s(v: &Vec<u32>) -> (r: Vec<u32>)
    ensures
        r@ == v@,
{
    let mut r: Vec<u32> = Vec::new();
    let mut i: usize = 0;
    while i < v.len()
        invariant
            i <= v.len(),
            r@ == v@.take(i as int),
        decreases v.len() - i,
    {
        r.push(v[i]);
        assert(v@.take(i + 1) =~= v@.take(i as int).push(v@[i as int]));
        i += 1;
    }
    assert(v@.take(i as int) =~= v@);
    r
}

fn func_body(f: &Func) -> (b: FuncBody)
    ensures
        body_bytes(b) == func_entry_bytes(*f),
{
    let mut code: Vec<u8> = Vec::new();
    let mut i: usize = 0;
    while i < f.body.len()
        invariant
            i <= f.body.len(),
            code@ == concat(f.body@.take(i as int), |i: Ins| ins_bytes(i)),
        decreases f.body.len() - i,
    {
        write(&mut code, f.body[i]);
        proof {
            lemma_concat_step(f.body@, |i: Ins| ins_bytes(i), i as int);
        }
        i += 1;
    }
    proof {
        lemma_take_all(f.body@);
    }
    let mut locals: Vec<(u32, ValueType)> = Vec::new();
    let mut j: usize = 0;
    while j < f.locals.len()
        invariant
            j <= f.locals.len(),
            locals@ == local_groups_of(f.locals@.take(j as int)),
        decreases f.locals.len() - j,
    {
        let (count, ty) = f.locals[j];
        locals.push((count, value_type(ty)));
        assert(local_groups_of(f.locals@.take(j + 1)) =~= local_groups_of(f.locals@.take(j as int)).push(
            (count, value_type_of(ty)),
        ));
        j += 1;
    }
    assert(f.locals@.take(j as int) =~= f.locals@);
    let b = FuncBody { locals, code };
    assert(encode::body_inner_bytes(b) == func_inner_bytes(*f));
    b
}

/// The module as standard wasm bytes.
#[verifier::rlimit(60)]
#[verifier::spinoff_prover]
pub fn assemble(module: &Module) -> (bytes: Vec<u8>)
    requires
        module.imports@.len() + module.funcs@.len() <= usize::MAX,
    ensures
        bytes@ == module_bytes(*module),
{
    let mut types: Vec<Signature> = Vec::new();
    let mut i: usize = 0;
    while i < module.types.len()
        invariant
            i <= module.types.len(),
            types@.len() == i,
            forall|k: int| 0 <= k < i ==> signature_bytes(#[trigger] types@[k]) == func_type_bytes(module.types@[k]),
        decreases module.types.len() - i,
    {
        types.push(signature(&module.types[i]));
        i += 1;
    }
    proof {
        lemma_concat_pointwise(types@, |s: Signature| signature_bytes(s), module.types@, |t: FuncType| func_type_bytes(t));
    }

    let mut imports: Vec<ImportEntry> = Vec::new();
    let mut i: usize = 0;
    while i < module.imports.len()
        invariant
            i <= module.imports.len(),
            imports@.len() == i,
            forall|k: int| 0 <= k < i ==> import_entry_bytes(#[trigger] imports@[k]) == import_bytes(module.imports@[k]),
        decreases module.imports.len() - i,
    {
        let im = &module.imports[i];
        let entry = ImportEntry { module: im.module.clone(), name: im.name.clone(), desc: ImportDesc::Func(im.type_index) };
        assert(import_entry_bytes(entry) =~= import_bytes(*im));
        imports.push(entry);
        i += 1;
    }
    proof {
        lemma_concat_pointwise(imports@, |e: ImportEntry| import_entry_bytes(e), module.imports@, |i: Import| import_bytes(i));
    }

    let mut type_indices: Vec<u32> = Vec::new();
    let mut bodies: Vec<FuncBody> = Vec::new();
    let mut i: usize = 0;
    while i < module.funcs.len()
        invariant
            i <= module.funcs.len(),
            type_indices@ == module.funcs@.take(i as int).map_values(|f: Func| f.type_index),
            bodies@.len() == i,
            forall|k: int| 0 <= k < i ==> body_bytes(#[trigger] bodies@[k]) == func_entry_bytes(module.funcs@[k]),
        decreases module.funcs.len() - i,
    {
        type_indices.push(module.funcs[i].type_index);
        assert(module.funcs@.take(i + 1).map_values(|f: Func| f.type_index) =~= module.funcs@.take(i as int).map_values(
            |f: Func| f.type_index,
        ).push(module.funcs@[i as int].type_index));
        bodies.push(func_body(&module.funcs[i]));
        i += 1;
    }
    assert(module.funcs@.take(i as int) =~= module.funcs@);
    proof {
        lemma_concat_pointwise(bodies@, |f: FuncBody| body_bytes(f), module.funcs@, |f: Func| func_entry_bytes(f));
    }

    let mut globals: Vec<encode::Global> = Vec::new();
    let mut i: usize = 0;
    while i < module.globals.len()
        invariant
            i <= module.globals.len(),
            globals@ == module.globals@.take(i as int).map_values(|g: Global| global_of(g)),
        decreases module.globals.len() - i,
    {
        let g = module.globals[i];
        let init = match g.init {
            Const::I32(v) => ConstExpr::I32(v),
            Const::I64(v) => ConstExpr::I64(v),
        };
        globals.push(encode::Global { ty: value_type(g.ty), mutable: g.mutable, init });
        assert(module.globals@.take(i + 1).map_values(|g: Global| global_of(g)) =~= module.globals@.take(i as int).map_values(
            |g: Global| global_of(g),
        ).push(global_of(g)));
        i += 1;
    }
    assert(module.globals@.take(i as int) =~= module.globals@);
    proof {
        lemma_concat_pointwise(globals@, |g: encode::Global| global_bytes(g), module.globals@, |g: Global| global_bytes(global_of(g)));
    }

    let mut exports: Vec<ExportEntry> = Vec::new();
    let mut i: usize = 0;
    while i < module.exports.len()
        invariant
            i <= module.exports.len(),
            exports@.len() == i,
            forall|k: int| 0 <= k < i ==> export_entry_bytes(#[trigger] exports@[k]) == export_bytes(module.exports@[k]),
        decreases module.exports.len() - i,
    {
        let e = &module.exports[i];
        exports.push(ExportEntry { name: e.name.clone(), descriptor: DESCRIPTOR_FUNC, index: e.index });
        i += 1;
    }
    proof {
        lemma_concat_pointwise(exports@, |e: ExportEntry| export_entry_bytes(e), module.exports@, |e: Export| export_bytes(e));
    }

    let mut elements: Vec<Element> = Vec::new();
    let mut i: usize = 0;
    while i < module.elements.len()
        invariant
            i <= module.elements.len(),
            elements@.len() == i,
            forall|k: int| 0 <= k < i ==> element_bytes(#[trigger] elements@[k]) == elem_bytes(module.elements@[k]),
        decreases module.elements.len() - i,
    {
        let e = &module.elements[i];
        let element = Element::ActiveFuncs { table: 0, offset: ConstExpr::I32(e.offset as i32), funcs: copy_u32s(&e.funcs) };
        assert(element_bytes(element) =~= elem_bytes(*e));
        elements.push(element);
        i += 1;
    }
    proof {
        lemma_concat_pointwise(elements@, |e: Element| element_bytes(e), module.elements@, |e: Elem| elem_bytes(e));
    }

    let mut data: Vec<EncData> = Vec::new();
    let mut i: usize = 0;
    while i < module.data.len()
        invariant
            i <= module.data.len(),
            data@.len() == i,
            forall|k: int| 0 <= k < i ==> data_bytes(#[trigger] data@[k]) == data_seg_bytes(module.data@[k]),
        decreases module.data.len() - i,
    {
        let d = &module.data[i];
        let mut bytes: Vec<u8> = Vec::new();
        encode::extend(&mut bytes, d.bytes.as_slice());
        let segment = EncData::Active { memory: 0, offset: ConstExpr::I32(d.offset as i32), bytes };
        assert(data_bytes(segment) =~= data_seg_bytes(*d));
        data.push(segment);
        i += 1;
    }
    proof {
        lemma_concat_pointwise(data@, |d: EncData| data_bytes(d), module.data@, |d: Data| data_seg_bytes(d));
    }

    // Rank order, which is not id order.
    let mut out = header();
    type_section(&mut out, types.as_slice());
    if imports.len() != 0 {
        import_section(&mut out, imports.as_slice());
    }
    function_section(&mut out, type_indices.as_slice());
    match module.table {
        Some(table) => {
            let mut tables: Vec<TableType> = Vec::new();
            tables.push(TableType { element: ValueType::FuncRef, limits: Limits { min: table.min, max: table.max } });
            assert(tables@ =~= seq![TableType { element: ValueType::FuncRef, limits: Limits { min: table.min, max: table.max } }]);
            table_section(&mut out, tables.as_slice());
        },
        None => {},
    }
    match module.memory {
        Some(memory) => {
            let mut memories: Vec<Limits> = Vec::new();
            memories.push(Limits { min: memory.min, max: memory.max });
            assert(memories@ =~= seq![Limits { min: memory.min, max: memory.max }]);
            memory_section(&mut out, memories.as_slice());
        },
        None => {},
    }
    if globals.len() != 0 {
        global_section(&mut out, globals.as_slice());
    }
    export_section(&mut out, exports.as_slice());
    if elements.len() != 0 {
        element_section(&mut out, elements.as_slice());
    }
    code_section(&mut out, bodies.as_slice());
    // No data-count section: it is required only by `memory.init` and
    // `data.drop`, and this vocabulary has neither.
    if data.len() != 0 {
        data_section(&mut out, data.as_slice());
    }
    name_section(&mut out, module);
    lines_section(&mut out, module);
    assert(out@ =~= module_bytes(*module));
    out
}

} // verus!
