//! Chunks of bytecode.
use vstd::prelude::*;

use super::allocator::Reference;
use super::value::Value;

verus! {

/// An instruction of the virtual machine, with its operand.
#[derive(Debug, Clone, Copy, PartialEq, Eq, Structural)]
pub enum OpCode {
    Return,
    Print,
    JumpIfFalse(usize),
    Jump(usize),
    Loop(usize),
    Pop,
    GetGlobal(usize),
    SetGlobal(usize),
    DefineGlobal(usize),
    GetLocal(usize),
    SetLocal(usize),
    Constant(usize),
    Call(usize),
    Closure(usize),
    Nil,
    True,
    False,
    Equal,
    Greater,
    Less,
    Add,
    Subtract,
    Multiply,
    Divide,
    Negate,
    Not,
}

/// Instructions with the line of each, and the constants they refer to.
pub struct Chunk {
    pub instructions: Vec<OpCode>,
    pub values: Vec<Value>,
    pub lines: Vec<usize>,
}

impl Chunk {
    /// An empty chunk.
    pub fn new() -> (r: Self)
        ensures
            r.instructions@ == Seq::<OpCode>::empty(),
            r.values@ == Seq::<Value>::empty(),
            r.lines@ == Seq::<usize>::empty(),
    {
        Self { instructions: Vec::new(), values: Vec::new(), lines: Vec::new() }
    }

    /// Adds a constant; its index.
    pub fn add_constant(&mut self, value: Value) -> (r: usize)
        ensures
            final(self).values@ == old(self).values@.push(value),
            final(self).instructions@ == old(self).instructions@,
            final(self).lines@ == old(self).lines@,
            r == old(self).values@.len(),
    {
        self.values.push(value);
        self.values.len() - 1
    }

    /// Adds an instruction from line `line`.
    pub fn add_instruction(&mut self, op: OpCode, line: usize)
        ensures
            final(self).instructions@ == old(self).instructions@.push(op),
            final(self).lines@ == old(self).lines@.push(line),
            final(self).values@ == old(self).values@,
    {
        self.instructions.push(op);
        self.lines.push(line);
    }

    /// The string constant at `index`.
    pub fn read_string(&self, index: usize) -> (r: &Reference<String>)
        requires
            index < self.values@.len(),
            self.values@[index as int] is String,
        ensures
            self.values@[index as int] == Value::String(*r),
    {
        self.values[index].as_string()
    }
}

/// What an instruction shows beside its name when disassembled.
#[derive(Debug, Clone, Copy, PartialEq, Eq, Structural)]
pub enum Operand {
    /// Nothing.
    Simple,
    /// A number: an offset, a slot or a count.
    Byte(usize),
    /// The constant at an index.
    Constant(usize),
}

/// The name and operand of an instruction in a listing.
pub open spec fn listing_spec(op: OpCode) -> (&'static str, Operand) {
    match op {
        OpCode::Return => ("OP_RETURN", Operand::Simple),
        OpCode::Print => ("OP_PRINT", Operand::Simple),
        OpCode::JumpIfFalse(o) => ("OP_JUMP_IF_FALSE", Operand::Byte(o)),
        OpCode::Jump(o) => ("OP_JUMP", Operand::Byte(o)),
        OpCode::Loop(o) => ("OP_LOOP", Operand::Byte(o)),
        OpCode::Pop => ("OP_POP", Operand::Simple),
        OpCode::GetGlobal(i) => ("OP_GET_GLOBAL", Operand::Constant(i)),
        OpCode::SetGlobal(i) => ("OP_SET_GLOBAL", Operand::Constant(i)),
        OpCode::DefineGlobal(i) => ("OP_DEFINE_GLOBAL", Operand::Constant(i)),
        OpCode::GetLocal(i) => ("OP_GET_LOCAL", Operand::Byte(i)),
        OpCode::SetLocal(i) => ("OP_SET_LOCAL", Operand::Byte(i)),
        OpCode::Constant(i) => ("OP_CONSTANT", Operand::Constant(i)),
        OpCode::Call(n) => ("OP_CALL", Operand::Byte(n)),
        OpCode::Closure(_) => ("OP_CLOSURE", Operand::Simple),
        OpCode::Negate => ("OP_NEGATE", Operand::Simple),
        OpCode::Add => ("OP_ADD", Operand::Simple),
        OpCode::Subtract => ("OP_SUBTRACT", Operand::Simple),
        OpCode::Multiply => ("OP_MULTIPLY", Operand::Simple),
        OpCode::Divide => ("OP_DIVIDE", Operand::Simple),
        OpCode::Nil => ("OP_NIL", Operand::Simple),
        OpCode::True => ("OP_TRUE", Operand::Simple),
        OpCode::False => ("OP_FALSE", Operand::Simple),
        OpCode::Equal => ("OP_EQUAL", Operand::Simple),
        OpCode::Greater => ("OP_GREATER", Operand::Simple),
        OpCode::Less => ("OP_LESS", Operand::Simple),
        OpCode::Not => ("OP_NOT", Operand::Simple),
    }
}

/// The name and operand of `op` in a listing.
pub fn listing(op: &OpCode) -> (r: (&'static str, Operand))
    ensures
        r == listing_spec(*op),
{
    match op {
        OpCode::Return => ("OP_RETURN", Operand::Simple),
        OpCode::Print => ("OP_PRINT", Operand::Simple),
        OpCode::JumpIfFalse(o) => ("OP_JUMP_IF_FALSE", Operand::Byte(*o)),
        OpCode::Jump(o) => ("OP_JUMP", Operand::Byte(*o)),
        OpCode::Loop(o) => ("OP_LOOP", Operand::Byte(*o)),
        OpCode::Pop => ("OP_POP", Operand::Simple),
        OpCode::GetGlobal(i) => ("OP_GET_GLOBAL", Operand::Constant(*i)),
        OpCode::SetGlobal(i) => ("OP_SET_GLOBAL", Operand::Constant(*i)),
        OpCode::DefineGlobal(i) => ("OP_DEFINE_GLOBAL", Operand::Constant(*i)),
        OpCode::GetLocal(i) => ("OP_GET_LOCAL", Operand::Byte(*i)),
        OpCode::SetLocal(i) => ("OP_SET_LOCAL", Operand::Byte(*i)),
        OpCode::Constant(i) => ("OP_CONSTANT", Operand::Constant(*i)),
        OpCode::Call(n) => ("OP_CALL", Operand::Byte(*n)),
        OpCode::Closure(_) => ("OP_CLOSURE", Operand::Simple),
        OpCode::Negate => ("OP_NEGATE", Operand::Simple),
        OpCode::Add => ("OP_ADD", Operand::Simple),
        OpCode::Subtract => ("OP_SUBTRACT", Operand::Simple),
        OpCode::Multiply => ("OP_MULTIPLY", Operand::Simple),
        OpCode::Divide => ("OP_DIVIDE", Operand::Simple),
        OpCode::Nil => ("OP_NIL", Operand::Simple),
        OpCode::True => ("OP_TRUE", Operand::Simple),
        OpCode::False => ("OP_FALSE", Operand::Simple),
        OpCode::Equal => ("OP_EQUAL", Operand::Simple),
        OpCode::Greater => ("OP_GREATER", Operand::Simple),
        OpCode::Less => ("OP_LESS", Operand::Simple),
        OpCode::Not => ("OP_NOT", Operand::Simple),
    }
}

impl Chunk {
    /// The line to show for the instruction at `offset`: `None` when it is
    /// the line of the instruction before.
    pub fn line_column(&self, offset: usize) -> (r: Option<usize>)
        requires
            offset < self.lines@.len(),
        ensures
            r == if offset > 0 && self.lines@[offset as int] == self.lines@[offset - 1] {
                None
            } else {
                Some(self.lines@[offset as int])
            },
    {
        if offset > 0 && self.lines[offset] == self.lines[offset - 1] {
            None
        } else {
            Some(self.lines[offset])
        }
    }
}

} // verus!
