//! Instructions of a function body.
use vstd::prelude::*;

use super::leb128::{prepend, VarInt32, VarUint32};
use super::types::BlockType;
use super::{read_u8, DecodeResult, Decoder, Error, Parse, Read};

verus! {

broadcast use super::bytes::lemma_skip_skip;

/// The instructions of a body, up to and including the `end` that closes it.
#[derive(Debug, Clone, PartialEq)]
pub struct Instructions(Vec<Instruction>);

impl View for Instructions {
    type V = Seq<Instruction>;

    closed spec fn view(&self) -> Seq<Instruction> {
        self.0@
    }
}

impl Instructions {
    /// No instructions.
    pub fn new() -> (r: Self)
        ensures
            r@ == Seq::<Instruction>::empty(),
    {
        Instructions(Vec::new())
    }

    /// The instructions.
    pub fn entries(&self) -> (r: &[Instruction])
        ensures
            r@ == self@,
    {
        self.0.as_slice()
    }
}

/// One instruction. The constants of the float instructions are kept as their
/// bit patterns.
#[derive(Debug, Clone, Copy, PartialEq, Eq, Structural)]
pub enum Instruction {
    // control instructions
    Nop,
    Unreachable,
    Block(BlockType),
    Loop(BlockType),
    If(BlockType),
    Else,
    End,
    Br(u32),
    BrIf(u32),
    BrTable,
    Return,
    Call(u32),
    CallIndirect(u32, u32),
    // variable instructions
    LocalGet(u32),
    LocalSet(u32),
    LocalTee(u32),
    GlobalGet(u32),
    GlobalSet(u32),
    // numeric instructions
    I32Const(i32),
    I64Const(i64),
    F32Const(u32),
    F64Const(u64),
    I32Eqz,
    I32Eq,
    I32Ne,
    I32LtS,
    I32LtU,
    I32GtS,
    I32GtU,
    I32LeS,
    I32LeU,
    I32GeS,
    I32GeU,
    I64Eqz,
    I64Eq,
    I64Ne,
    I64LtS,
    I64LtU,
    I64GtS,
    I64GtU,
    I64LeS,
    I64LeU,
    I64GeS,
    I64GeU,
    I32Clz,
    I32Ctz,
    I32PopCnt,
    I32Add,
    I32Sub,
}

impl View for Instruction {
    type V = Instruction;

    open spec fn view(&self) -> Instruction {
        *self
    }
}

/// The instruction opens a block.
pub open spec fn spec_is_block(i: Instruction) -> bool {
    i is Block || i is Loop || i is If
}

impl Instruction {
    /// Whether the instruction opens a block.
    pub fn is_block(&self) -> (r: bool)
        ensures
            r == spec_is_block(*self),
    {
        match self {
            Instruction::Block(_) | Instruction::Loop(_) | Instruction::If(_) => true,
            _ => false,
        }
    }

    /// Whether the instruction closes a block.
    pub fn is_terminal(&self) -> (r: bool)
        ensures
            r == (*self is End),
    {
        match self {
            Instruction::End => true,
            _ => false,
        }
    }
}

/// An instruction built from the immediate that follows the opcode byte.
pub open spec fn with_immediate<V>(p: Parse<V>, make: spec_fn(V) -> Instruction) -> Parse<Instruction> {
    match p {
        Some(Ok((v, n))) => Some(Ok((make(v), n + 1))),
        Some(Err(e)) => Some(Err(e)),
        None => None,
    }
}

/// An instruction without immediate.
pub open spec fn plain(i: Instruction) -> Parse<Instruction> {
    Some(Ok((i, 1)))
}

/// What the opcode `op` followed by the bytes `r` decodes to.
pub open spec fn parse_instruction(op: u8, r: Seq<u8>) -> Parse<Instruction> {
    if op == 0x00 {
        plain(Instruction::Unreachable)
    } else if op == 0x01 {
        plain(Instruction::Nop)
    } else if op == 0x02 {
        with_immediate(BlockType::parse(r), |b: BlockType| Instruction::Block(b))
    } else if op == 0x03 {
        with_immediate(BlockType::parse(r), |b: BlockType| Instruction::Loop(b))
    } else if op == 0x04 {
        with_immediate(BlockType::parse(r), |b: BlockType| Instruction::If(b))
    } else if op == 0x05 {
        plain(Instruction::Else)
    } else if op == 0x0b {
        plain(Instruction::End)
    } else if op == 0x0c {
        with_immediate(VarUint32::parse(r), |v: u32| Instruction::Br(v))
    } else if op == 0x0d {
        with_immediate(VarUint32::parse(r), |v: u32| Instruction::BrIf(v))
    } else if op == 0x0f {
        plain(Instruction::Return)
    } else if op == 0x10 {
        with_immediate(VarUint32::parse(r), |v: u32| Instruction::Call(v))
    } else if op == 0x11 {
        match VarUint32::parse(r) {
            Some(Ok((a, n))) => if n <= r.len() {
                match VarUint32::parse(r.skip(n as int)) {
                    Some(Ok((b, m))) => Some(Ok((Instruction::CallIndirect(a, b), n + m + 1))),
                    Some(Err(e)) => Some(Err(e)),
                    None => None,
                }
            } else {
                None
            },
            Some(Err(e)) => Some(Err(e)),
            None => None,
        }
    } else if op == 0x20 {
        with_immediate(VarUint32::parse(r), |v: u32| Instruction::LocalGet(v))
    } else if op == 0x21 {
        with_immediate(VarUint32::parse(r), |v: u32| Instruction::LocalSet(v))
    } else if op == 0x22 {
        with_immediate(VarUint32::parse(r), |v: u32| Instruction::LocalTee(v))
    } else if op == 0x23 {
        with_immediate(VarUint32::parse(r), |v: u32| Instruction::GlobalGet(v))
    } else if op == 0x24 {
        with_immediate(VarUint32::parse(r), |v: u32| Instruction::GlobalSet(v))
    } else if op == 0x41 {
        with_immediate(VarInt32::parse(r), |v: i32| Instruction::I32Const(v))
    } else if op == 0x45 {
        plain(Instruction::I32Eqz)
    } else if op == 0x46 {
        plain(Instruction::I32Eq)
    } else if op == 0x47 {
        plain(Instruction::I32Ne)
    } else if op == 0x48 {
        plain(Instruction::I32LtS)
    } else if op == 0x49 {
        plain(Instruction::I32LtU)
    } else if op == 0x4a {
        plain(Instruction::I32GtS)
    } else if op == 0x4b {
        plain(Instruction::I32GtU)
    } else if op == 0x4c {
        plain(Instruction::I32LeS)
    } else if op == 0x4d {
        plain(Instruction::I32LeU)
    } else if op == 0x4e {
        plain(Instruction::I32GeS)
    } else if op == 0x4f {
        plain(Instruction::I32GeU)
    } else if op == 0x6a {
        plain(Instruction::I32Add)
    } else {
        Some(Err(Error::InvalidSectionId(op)))
    }
}

fn decode_u32_immediate<R: Read>(reader: &mut R) -> (r: DecodeResult<u32>)
    ensures
        match VarUint32::parse(old(reader).rest()) {
            Some(Ok((v, n))) => r == Ok::<u32, Error>(v) && n <= old(reader).rest().len()
                && final(reader).rest() == old(reader).rest().skip(n as int),
            Some(Err(e)) => r matches Err(e2) && e2 == e,
            None => r matches Err(Error::Unsupported),
        },
{
    match VarUint32::decode(reader) {
        Ok(v) => Ok(v.value()),
        Err(e) => Err(e),
    }
}

impl Decoder for Instruction {
    open spec fn parse(s: Seq<u8>) -> Parse<Instruction> {
        if s.len() == 0 {
            Some(Err(Error::UnexpectedEOF))
        } else {
            parse_instruction(s[0], s.skip(1))
        }
    }

    fn decode<R: Read>(reader: &mut R) -> (res: DecodeResult<Self>) {
        let op: u8 = match read_u8(reader) {
            Ok(op) => op,
            Err(e) => {
                return Err(e);
            },
        };
        match op {
            0x00 => Ok(Instruction::Unreachable),
            0x01 => Ok(Instruction::Nop),
            0x02 => match BlockType::decode(reader) {
                Ok(b) => Ok(Instruction::Block(b)),
                Err(e) => Err(e),
            },
            0x03 => match BlockType::decode(reader) {
                Ok(b) => Ok(Instruction::Loop(b)),
                Err(e) => Err(e),
            },
            0x04 => match BlockType::decode(reader) {
                Ok(b) => Ok(Instruction::If(b)),
                Err(e) => Err(e),
            },
            0x05 => Ok(Instruction::Else),
            0x0b => Ok(Instruction::End),
            0x0c => match decode_u32_immediate(reader) {
                Ok(v) => Ok(Instruction::Br(v)),
                Err(e) => Err(e),
            },
            0x0d => match decode_u32_immediate(reader) {
                Ok(v) => Ok(Instruction::BrIf(v)),
                Err(e) => Err(e),
            },
            0x0f => Ok(Instruction::Return),
            0x10 => match decode_u32_immediate(reader) {
                Ok(v) => Ok(Instruction::Call(v)),
                Err(e) => Err(e),
            },
            0x11 => {
                let type_idx = match decode_u32_immediate(reader) {
                    Ok(v) => v,
                    Err(e) => {
                        return Err(e);
                    },
                };
                match decode_u32_immediate(reader) {
                    Ok(table_idx) => Ok(Instruction::CallIndirect(type_idx, table_idx)),
                    Err(e) => Err(e),
                }
            },
            0x20 => match decode_u32_immediate(reader) {
                Ok(v) => Ok(Instruction::LocalGet(v)),
                Err(e) => Err(e),
            },
            0x21 => match decode_u32_immediate(reader) {
                Ok(v) => Ok(Instruction::LocalSet(v)),
                Err(e) => Err(e),
            },
            0x22 => match decode_u32_immediate(reader) {
                Ok(v) => Ok(Instruction::LocalTee(v)),
                Err(e) => Err(e),
            },
            0x23 => match decode_u32_immediate(reader) {
                Ok(v) => Ok(Instruction::GlobalGet(v)),
                Err(e) => Err(e),
            },
            0x24 => match decode_u32_immediate(reader) {
                Ok(v) => Ok(Instruction::GlobalSet(v)),
                Err(e) => Err(e),
            },
            0x41 => match VarInt32::decode(reader) {
                Ok(v) => Ok(Instruction::I32Const(v.value())),
                Err(e) => Err(e),
            },
            0x45 => Ok(Instruction::I32Eqz),
            0x46 => Ok(Instruction::I32Eq),
            0x47 => Ok(Instruction::I32Ne),
            0x48 => Ok(Instruction::I32LtS),
            0x49 => Ok(Instruction::I32LtU),
            0x4a => Ok(Instruction::I32GtS),
            0x4b => Ok(Instruction::I32GtU),
            0x4c => Ok(Instruction::I32LeS),
            0x4d => Ok(Instruction::I32LeU),
            0x4e => Ok(Instruction::I32GeS),
            0x4f => Ok(Instruction::I32GeU),
            0x6a => Ok(Instruction::I32Add),
            _ => Err(Error::InvalidSectionId(op)),
        }
    }
}


/// Each decoded instruction takes at least its opcode byte.
pub proof fn lemma_instruction_consumes(s: Seq<u8>)
    ensures
        Instruction::parse(s) matches Some(Ok((_, n))) ==> 1 <= n <= s.len(),
{
    if s.len() > 0 {
        let r = s.skip(1);
        if s[0] == 0x11 {
            match VarUint32::parse(r) {
                Some(Ok((a, n))) => {
                    if n <= r.len() {
                        crate::wasm::leb128::lemma_uleb32_consumes(r.skip(n as int), 0, 0);
                    }
                },
                _ => {},
            }
        }
        crate::wasm::leb128::lemma_uleb32_consumes(r, 0, 0);
        crate::wasm::leb128::lemma_sleb32_consumes(r, 0, 0);
    }
}

/// The instructions from the front of `s`, inside `depth` open blocks: they
/// end with the `end` that closes the outermost one. A nesting deeper than a
/// `usize` counts is refused.
pub open spec fn parse_instrs(s: Seq<u8>, depth: nat) -> Parse<Seq<Instruction>>
    decreases s.len(),
{
    if depth == 0 {
        Some(Ok((Seq::empty(), 0)))
    } else {
        match Instruction::parse(s) {
            Some(Ok((ins, n))) => if 0 < n <= s.len() {
                if ins is End {
                    prepend(seq![ins], n, parse_instrs(s.skip(n as int), (depth - 1) as nat))
                } else if spec_is_block(ins) {
                    if depth + 1 > usize::MAX {
                        Some(Err(Error::InvalidUint32))
                    } else {
                        prepend(seq![ins], n, parse_instrs(s.skip(n as int), depth + 1))
                    }
                } else {
                    prepend(seq![ins], n, parse_instrs(s.skip(n as int), depth))
                }
            } else {
                None
            },
            Some(Err(e)) => Some(Err(e)),
            None => None,
        }
    }
}

impl Decoder for Instructions {
    open spec fn parse(s: Seq<u8>) -> Parse<Seq<Instruction>> {
        parse_instrs(s, 1)
    }

    fn decode<R: Read>(reader: &mut R) -> (res: DecodeResult<Self>) {
        let ghost s = reader.rest();
        let mut ret: Vec<Instruction> = Vec::new();
        let mut block_count: usize = 1;
        let ghost mut consumed: nat = 0;
        assert(s.skip(0) =~= s);
        while block_count != 0
            invariant
                s == old(reader).rest(),
                consumed <= s.len(),
                reader.rest() == s.skip(consumed as int),
                parse_instrs(s, 1) == prepend(ret@, consumed, parse_instrs(reader.rest(), block_count as nat)),
            decreases reader.rest().len(),
        {
            let ghost before = reader.rest();
            proof {
                lemma_instruction_consumes(before);
            }
            let inst = match Instruction::decode(reader) {
                Ok(i) => i,
                Err(e) => {
                    assert(Instruction::parse(before) is None ==> parse_instrs(before, block_count as nat) is None);
                    return Err(e);
                },
            };
            let ghost n = (before.len() - reader.rest().len()) as nat;
            if inst.is_terminal() {
                block_count = block_count - 1;
            } else if inst.is_block() {
                if block_count == usize::MAX {
                    return Err(Error::InvalidUint32);
                }
                block_count = block_count + 1;
            }
            proof {
                crate::wasm::leb128::lemma_prepend_push(ret@, consumed, inst, n, parse_instrs(reader.rest(), block_count as nat));
                consumed = consumed + n;
            }
            ret.push(inst);
        }
        Ok(Instructions(ret))
    }
}

/// The opcode byte the WebAssembly binary format gives each instruction.
pub open spec fn opcode_of(i: Instruction) -> u8 {
    match i {
        Instruction::Unreachable => 0x00,
        Instruction::Nop => 0x01,
        Instruction::Block(_) => 0x02,
        Instruction::Loop(_) => 0x03,
        Instruction::If(_) => 0x04,
        Instruction::Else => 0x05,
        Instruction::End => 0x0b,
        Instruction::Br(_) => 0x0c,
        Instruction::BrIf(_) => 0x0d,
        Instruction::BrTable => 0x0e,
        Instruction::Return => 0x0f,
        Instruction::Call(_) => 0x10,
        Instruction::CallIndirect(_, _) => 0x11,
        Instruction::LocalGet(_) => 0x20,
        Instruction::LocalSet(_) => 0x21,
        Instruction::LocalTee(_) => 0x22,
        Instruction::GlobalGet(_) => 0x23,
        Instruction::GlobalSet(_) => 0x24,
        Instruction::I32Const(_) => 0x41,
        Instruction::I64Const(_) => 0x42,
        Instruction::F32Const(_) => 0x43,
        Instruction::F64Const(_) => 0x44,
        Instruction::I32Eqz => 0x45,
        Instruction::I32Eq => 0x46,
        Instruction::I32Ne => 0x47,
        Instruction::I32LtS => 0x48,
        Instruction::I32LtU => 0x49,
        Instruction::I32GtS => 0x4a,
        Instruction::I32GtU => 0x4b,
        Instruction::I32LeS => 0x4c,
        Instruction::I32LeU => 0x4d,
        Instruction::I32GeS => 0x4e,
        Instruction::I32GeU => 0x4f,
        Instruction::I64Eqz => 0x50,
        Instruction::I64Eq => 0x51,
        Instruction::I64Ne => 0x52,
        Instruction::I64LtS => 0x53,
        Instruction::I64LtU => 0x54,
        Instruction::I64GtS => 0x55,
        Instruction::I64GtU => 0x56,
        Instruction::I64LeS => 0x57,
        Instruction::I64LeU => 0x58,
        Instruction::I64GeS => 0x59,
        Instruction::I64GeU => 0x5a,
        Instruction::I32Clz => 0x67,
        Instruction::I32Ctz => 0x68,
        Instruction::I32PopCnt => 0x69,
        Instruction::I32Add => 0x6a,
        Instruction::I32Sub => 0x6b,
    }
}

/// An instruction the decoder reads that takes no immediate.
pub open spec fn decoded_plain(i: Instruction) -> bool {
    i is Unreachable || i is Nop || i is Else || i is End || i is Return || i is I32Eqz || i is I32Eq || i is I32Ne
        || i is I32LtS || i is I32LtU || i is I32GtS || i is I32GtU || i is I32LeS || i is I32LeU || i is I32GeS
        || i is I32GeU || i is I32Add
}

/// Decoding gives the instruction the format assigns to the opcode byte:
/// whatever bytes follow, an instruction decoded from `s` has the opcode
/// `s[0]`, so distinct opcode bytes never decode to the same instruction;
/// and each instruction without immediate that the decoder reads is what
/// its opcode byte, alone, decodes to (`0x46` to `I32Eq`, `0x47` to `I32Ne`,
/// and so on).
pub proof fn lemma_decode_opcode(s: Seq<u8>, i: Instruction, r: Seq<u8>)
    ensures
        Instruction::parse(s) matches Some(Ok((ins, _))) ==> s.len() > 0 && opcode_of(ins) == s[0],
        decoded_plain(i) ==> Instruction::parse(seq![opcode_of(i)] + r) == Some(Ok::<(Instruction, nat), Error>((i, 1))),
{
    if decoded_plain(i) {
        assert((seq![opcode_of(i)] + r)[0] == opcode_of(i));
    }
}

/// Two byte runs that decode to the same instruction start with the same
/// opcode byte.
pub proof fn lemma_decode_distinct(s: Seq<u8>, t: Seq<u8>)
    requires
        Instruction::parse(s) matches Some(Ok((a, _))),
        Instruction::parse(t) matches Some(Ok((b, _))),
        s.len() > 0 && t.len() > 0 && s[0] != t[0],
    ensures
        Instruction::parse(s)->Some_0->Ok_0.0 != Instruction::parse(t)->Some_0->Ok_0.0,
{
    lemma_decode_opcode(s, Instruction::Nop, Seq::empty());
    lemma_decode_opcode(t, Instruction::Nop, Seq::empty());
}

} // verus!
