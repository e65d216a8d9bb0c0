//! Three small systems: a WebAssembly binary decoder, the front end and
//! heap of a Lox interpreter, and the bookkeeping of a teaching kernel.
use vstd::prelude::*;

pub mod kernel;
pub mod lox;
pub mod wasm;

verus! {

} // verus!
