//! A Lox interpreter: scanner, compiler, object heap and bytecode machine.
pub mod allocator;
pub mod chunk;
pub mod compiler;
pub mod function;
pub mod grammar;
pub mod scanner;
pub mod token;
pub mod value;
pub mod vm;
