//! Functions and closures.
use vstd::prelude::*;

use super::allocator::Reference;
use super::chunk::Chunk;

verus! {

/// Whether code is a function body or the top-level script.
#[derive(Debug, Clone, Copy, PartialEq, Eq, Structural)]
pub enum FunctionType {
    Function,
    Script,
}

/// A function of the machine itself, bound to a global from the start:
/// `clock`, `max` and `panic`.
#[derive(Debug, Clone, Copy, PartialEq, Eq, Structural)]
pub enum NativeFn {
    Clock,
    Max,
    Panic,
}

/// A closure over a function.
pub struct Closure {
    pub func_id: Reference<Function>,
}

impl Closure {
    /// A closure over `func_id`.
    pub fn new(func_id: Reference<Function>) -> (r: Self)
        ensures
            r.func_id == func_id,
    {
        Self { func_id }
    }
}

/// A compiled function: its bytecode and its name.
pub struct Function {
    pub chunk: Chunk,
    pub name: Reference<String>,
}

impl Function {
    /// A function called `name`, with no code yet.
    pub fn new(name: Reference<String>) -> (r: Self)
        ensures
            r.name == name,
            r.chunk.instructions@ == Seq::<super::chunk::OpCode>::empty(),
            r.chunk.values@ == Seq::<super::value::Value>::empty(),
            r.chunk.lines@ == Seq::<usize>::empty(),
    {
        Self { chunk: Chunk::new(), name }
    }
}

} // verus!
