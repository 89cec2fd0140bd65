//! Reading instructions of the wider vocabulary back from bytes by the
//! WebAssembly binary format's own opcode table, and the law that assembly
//! writes what that table says.
use vstd::prelude::*;

use crate::encode::{le32, le64};
use crate::ir::m1::{BlockType, Ins, ins_bytes};
use crate::leb::{leb_s, leb_u32, lemma_leb_s_roundtrip, lemma_leb_u_roundtrip, read_leb_s, read_leb_u};

verus! {

/// The instruction an opcode without immediates stands for.
pub open spec fn plain_op(opcode: u8) -> Option<Ins> {
    if opcode == 0x00 { Some(Ins::Unreachable) }
    else if opcode == 0x0b { Some(Ins::End) }
    else if opcode == 0x0f { Some(Ins::Return) }
    else if opcode == 0x1a { Some(Ins::Drop) }
    else if opcode == 0x45 { Some(Ins::I32Eqz) }
    else if opcode == 0x46 { Some(Ins::I32Eq) }
    else if opcode == 0x47 { Some(Ins::I32Ne) }
    else if opcode == 0x48 { Some(Ins::I32LtS) }
    else if opcode == 0x49 { Some(Ins::I32LtU) }
    else if opcode == 0x4f { Some(Ins::I32GeU) }
    else if opcode == 0x51 { Some(Ins::I64Eq) }
    else if opcode == 0x61 { Some(Ins::F64Eq) }
    else if opcode == 0x62 { Some(Ins::F64Ne) }
    else if opcode == 0x63 { Some(Ins::F64Lt) }
    else if opcode == 0x64 { Some(Ins::F64Gt) }
    else if opcode == 0x65 { Some(Ins::F64Le) }
    else if opcode == 0x66 { Some(Ins::F64Ge) }
    else if opcode == 0x6a { Some(Ins::I32Add) }
    else if opcode == 0x6b { Some(Ins::I32Sub) }
    else if opcode == 0x6c { Some(Ins::I32Mul) }
    else if opcode == 0x6d { Some(Ins::I32DivS) }
    else if opcode == 0x6f { Some(Ins::I32RemS) }
    else if opcode == 0x71 { Some(Ins::I32And) }
    else if opcode == 0x72 { Some(Ins::I32Or) }
    else if opcode == 0x73 { Some(Ins::I32Xor) }
    else if opcode == 0x74 { Some(Ins::I32Shl) }
    else if opcode == 0x75 { Some(Ins::I32ShrS) }
    else if opcode == 0x76 { Some(Ins::I32ShrU) }
    else if opcode == 0x7c { Some(Ins::I64Add) }
    else if opcode == 0x99 { Some(Ins::F64Abs) }
    else if opcode == 0x9a { Some(Ins::F64Neg) }
    else if opcode == 0x9b { Some(Ins::F64Ceil) }
    else if opcode == 0x9c { Some(Ins::F64Floor) }
    else if opcode == 0x9d { Some(Ins::F64Trunc) }
    else if opcode == 0x9e { Some(Ins::F64Nearest) }
    else if opcode == 0x9f { Some(Ins::F64Sqrt) }
    else if opcode == 0xa0 { Some(Ins::F64Add) }
    else if opcode == 0xa1 { Some(Ins::F64Sub) }
    else if opcode == 0xa2 { Some(Ins::F64Mul) }
    else if opcode == 0xa3 { Some(Ins::F64Div) }
    else if opcode == 0xa4 { Some(Ins::F64Min) }
    else if opcode == 0xa5 { Some(Ins::F64Max) }
    else if opcode == 0xa6 { Some(Ins::F64Copysign) }
    else if opcode == 0xa7 { Some(Ins::I32WrapI64) }
    else if opcode == 0xaa { Some(Ins::I32TruncF64S) }
    else if opcode == 0xad { Some(Ins::I64ExtendI32U) }
    else if opcode == 0xb7 { Some(Ins::F64ConvertI32S) }
    else if opcode == 0xb8 { Some(Ins::F64ConvertI32U) }
    else if opcode == 0xbd { Some(Ins::I64ReinterpretF64) }
    else if opcode == 0xbf { Some(Ins::F64ReinterpretI64) }
    else { None }
}

/// The instruction an opcode with one unsigned index immediate `v` stands for.
pub open spec fn indexed_op(opcode: u8, v: u32) -> Option<Ins> {
    if opcode == 0x0c { Some(Ins::Br(v)) }
    else if opcode == 0x0d { Some(Ins::BrIf(v)) }
    else if opcode == 0x10 { Some(Ins::Call(v)) }
    else if opcode == 0x20 { Some(Ins::LocalGet(v)) }
    else if opcode == 0x21 { Some(Ins::LocalSet(v)) }
    else if opcode == 0x22 { Some(Ins::LocalTee(v)) }
    else if opcode == 0x23 { Some(Ins::GlobalGet(v)) }
    else if opcode == 0x24 { Some(Ins::GlobalSet(v)) }
    else { None }
}

/// The load or store an opcode with a memarg `(align, offset)` stands for.
pub open spec fn memory_op(opcode: u8, align: u32, offset: u32) -> Option<Ins> {
    if opcode == 0x28 { Some(Ins::I32Load(align, offset)) }
    else if opcode == 0x29 { Some(Ins::I64Load(align, offset)) }
    else if opcode == 0x2d { Some(Ins::I32Load8U(align, offset)) }
    else if opcode == 0x36 { Some(Ins::I32Store(align, offset)) }
    else if opcode == 0x37 { Some(Ins::I64Store(align, offset)) }
    else if opcode == 0x3a { Some(Ins::I32Store8(align, offset)) }
    else { None }
}

/// Eight bytes, least significant first, as the number they spell.
pub open spec fn le_value(b: Seq<u8>) -> u64 {
    (b[0] as u64) | ((b[1] as u64) << 8u64) | ((b[2] as u64) << 16u64) | ((b[3] as u64) << 24u64)
        | ((b[4] as u64) << 32u64) | ((b[5] as u64) << 40u64) | ((b[6] as u64) << 48u64) | ((
    b[7] as u64) << 56u64)
}

/// An unsigned LEB128 immediate that fits `u32`, and its length.
pub open spec fn read_u32(b: Seq<u8>) -> Option<(u32, nat)> {
    match read_leb_u(b) {
        Some((v, n)) => if v <= u32::MAX { Some((v as u32, n)) } else { None },
        None => None,
    }
}

/// Reads one instruction from the front of `b` by the WebAssembly binary
/// format: its opcode, then its immediates (an empty block type is 0x40; an
/// index is unsigned LEB128; a memarg is the alignment exponent then the
/// offset; `i32.const` and `i64.const` are signed LEB128; `f64.const` is eight
/// bytes, least significant first; `memory.size` and `memory.grow` name
/// memory 0). Gives the instruction and how many bytes it took.
pub open spec fn decode_ins(b: Seq<u8>) -> Option<(Ins, nat)> {
    if b.len() == 0 {
        None
    } else {
        let opcode = b[0];
        let rest = b.drop_first();
        if plain_op(opcode) is Some {
            Some((plain_op(opcode)->0, 1))
        } else if opcode == 0x02 || opcode == 0x03 || opcode == 0x04 {
            if rest.len() > 0 && rest[0] == 0x40 {
                Some((
                    if opcode == 0x02 {
                        Ins::Block(BlockType::Empty)
                    } else if opcode == 0x03 {
                        Ins::Loop(BlockType::Empty)
                    } else {
                        Ins::If(BlockType::Empty)
                    },
                    2,
                ))
            } else {
                None
            }
        } else if indexed_op(opcode, 0) is Some {
            match read_u32(rest) {
                Some((v, n)) => Some((indexed_op(opcode, v)->0, n + 1)),
                None => None,
            }
        } else if opcode == 0x11 {
            match read_u32(rest) {
                Some((ty, n)) => match read_u32(rest.skip(n as int)) {
                    Some((table, m)) => Some((Ins::CallIndirect(ty, table), n + m + 1)),
                    None => None,
                },
                None => None,
            }
        } else if memory_op(opcode, 0, 0) is Some {
            match read_u32(rest) {
                Some((align, n)) => match read_u32(rest.skip(n as int)) {
                    Some((offset, m)) => Some((memory_op(opcode, align, offset)->0, n + m + 1)),
                    None => None,
                },
                None => None,
            }
        } else if opcode == 0x3f || opcode == 0x40 {
            if rest.len() > 0 && rest[0] == 0 {
                Some((if opcode == 0x3f { Ins::MemorySize } else { Ins::MemoryGrow }, 2))
            } else {
                None
            }
        } else if opcode == 0x41 || opcode == 0x42 {
            match read_leb_s(rest) {
                Some((v, n)) => if opcode == 0x41 && i32::MIN <= v <= i32::MAX {
                    Some((Ins::I32Const(v as i32), n + 1))
                } else if opcode == 0x42 && i64::MIN <= v <= i64::MAX {
                    Some((Ins::I64Const(v as i64), n + 1))
                } else {
                    None
                },
                None => None,
            }
        } else if opcode == 0x44 {
            if rest.len() >= 8 {
                Some((Ins::F64Const(le_value(rest.take(8))), 9))
            } else {
                None
            }
        } else {
            None
        }
    }
}

/// An alignment exponent above the natural one, brought down to it.
pub open spec fn capped(align: u32, natural: u32) -> u32 {
    if align <= natural { align } else { natural }
}

/// The instruction with any memarg alignment above the access's natural
/// alignment (2 for 32 bits, 3 for 64 bits, 0 for one byte) brought down to it.
pub open spec fn at_most_natural(ins: Ins) -> Ins {
    match ins {
        Ins::I32Load(a, o) => Ins::I32Load(capped(a, 2), o),
        Ins::I32Load8U(a, o) => Ins::I32Load8U(capped(a, 0), o),
        Ins::I32Store(a, o) => Ins::I32Store(capped(a, 2), o),
        Ins::I32Store8(a, o) => Ins::I32Store8(capped(a, 0), o),
        Ins::I64Load(a, o) => Ins::I64Load(capped(a, 3), o),
        Ins::I64Store(a, o) => Ins::I64Store(capped(a, 3), o),
        _ => ins,
    }
}

proof fn lemma_read_u32(v: u32, rest: Seq<u8>)
    ensures
        read_u32(leb_u32(v) + rest) == Some((v, leb_u32(v).len())),
{
    lemma_leb_u_roundtrip(v as nat, rest);
}

proof fn lemma_le64(v: u64)
    ensures
        le64(v).len() == 8,
        le_value(le64(v)) == v,
{
    let x = (v & 0xffff_ffff) as u32;
    let y = (v >> 32) as u32;
    let b = le64(v);
    assert(b =~= le32(x) + le32(y));
    assert(b[0] == (x & 0xff) as u8 && b[1] == ((x >> 8) & 0xff) as u8);
    assert(b[2] == ((x >> 16) & 0xff) as u8 && b[3] == ((x >> 24) & 0xff) as u8);
    assert(b[4] == (y & 0xff) as u8 && b[5] == ((y >> 8) & 0xff) as u8);
    assert(b[6] == ((y >> 16) & 0xff) as u8 && b[7] == ((y >> 24) & 0xff) as u8);
    assert(((((x & 0xff) as u8) as u64) | ((((x >> 8) & 0xff) as u8) as u64) << 8u64 | ((((x >> 16)
        & 0xff) as u8) as u64) << 16u64 | ((((x >> 24) & 0xff) as u8) as u64) << 24u64 | (((y
        & 0xff) as u8) as u64) << 32u64 | ((((y >> 8) & 0xff) as u8) as u64) << 40u64 | ((((y
        >> 16) & 0xff) as u8) as u64) << 48u64 | ((((y >> 24) & 0xff) as u8) as u64) << 56u64) == v)
        by (bit_vector)
        requires
            x == (v & 0xffff_ffff) as u32,
            y == (v >> 32) as u32,
    ;
}

proof fn lemma_immediates(ins: Ins, rest: Seq<u8>)
    requires
        !(plain_op(ins_bytes(ins)[0]) is Some),
    ensures
        decode_ins(ins_bytes(ins) + rest) == Some((at_most_natural(ins), ins_bytes(ins).len())),
{
    let b = ins_bytes(ins) + rest;
    match ins {
        Ins::Block(_) | Ins::Loop(_) | Ins::If(_) => {
            assert(b.drop_first()[0] == 0x40);
        },
        Ins::Br(v) | Ins::BrIf(v) | Ins::Call(v) | Ins::LocalGet(v) | Ins::LocalSet(v)
        | Ins::LocalTee(v) | Ins::GlobalGet(v) | Ins::GlobalSet(v) => {
            assert(b.drop_first() =~= leb_u32(v) + rest);
            lemma_read_u32(v, rest);
        },
        Ins::CallIndirect(ty, table) => {
            assert(b.drop_first() =~= leb_u32(ty) + (leb_u32(table) + rest));
            lemma_read_u32(ty, leb_u32(table) + rest);
            assert(b.drop_first().skip(leb_u32(ty).len() as int) =~= leb_u32(table) + rest);
            lemma_read_u32(table, rest);
        },
        Ins::I32Load(a, o) | Ins::I32Load8U(a, o) | Ins::I32Store(a, o) | Ins::I32Store8(a, o)
        | Ins::I64Load(a, o) | Ins::I64Store(a, o) => {
            let n = at_most_natural(ins);
            let c = match n {
                Ins::I32Load(c, _) | Ins::I32Load8U(c, _) | Ins::I32Store(c, _)
                | Ins::I32Store8(c, _) | Ins::I64Load(c, _) | Ins::I64Store(c, _) => c,
                _ => 0,
            };
            assert(b.drop_first() =~= leb_u32(c) + (leb_u32(o) + rest));
            lemma_read_u32(c, leb_u32(o) + rest);
            assert(b.drop_first().skip(leb_u32(c).len() as int) =~= leb_u32(o) + rest);
            lemma_read_u32(o, rest);
        },
        Ins::MemorySize | Ins::MemoryGrow => {
            assert(b.drop_first()[0] == 0);
        },
        Ins::I32Const(v) => {
            assert(b.drop_first() =~= leb_s(v as int) + rest);
            lemma_leb_s_roundtrip(v as int, rest);
        },
        Ins::I64Const(v) => {
            assert(b.drop_first() =~= leb_s(v as int) + rest);
            lemma_leb_s_roundtrip(v as int, rest);
        },
        Ins::F64Const(bits) => {
            lemma_le64(bits);
            assert(b.drop_first().take(8) =~= le64(bits));
        },
        _ => {},
    }
}

/// Every instruction assembles to what the WebAssembly binary format says it
/// is: a standard reader takes back exactly that instruction, from exactly its
/// bytes, whatever follows them. The one thing a reader cannot get back is an
/// alignment hint above the access's natural alignment, which is written as
/// the natural one.
#[verifier::rlimit(80)]
pub proof fn law_instruction_reads_back(ins: Ins, rest: Seq<u8>)
    ensures
        decode_ins(ins_bytes(ins) + rest) == Some((at_most_natural(ins), ins_bytes(ins).len())),
{
    let b = ins_bytes(ins) + rest;
    assert(b[0] == ins_bytes(ins)[0]);
    if plain_op(ins_bytes(ins)[0]) is Some {
        assert(ins_bytes(ins).len() == 1);
    } else {
        lemma_immediates(ins, rest);
    }
}

} // verus!
