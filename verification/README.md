# syskit

Three small systems, verified with Verus:

- `src/wasm`: a decoder for WebAssembly binaries (LEB128 numbers, types,
  instructions, sections, modules) and module instances with their exports.
  Each decoder is specified by a function on byte sequences.
- `src/lox`: a Lox interpreter: the scanner, the single-pass compiler to
  bytecode (each construct of the grammar specified in `grammar.rs` as a
  function on the compiler's state), the object heap with its mark-and-sweep
  collector and string interning, and a machine that runs one instruction at
  a time. Arithmetic on numbers (IEEE 754 doubles), number literals and the
  machine's own functions are handed to the caller.
- `src/kernel`: the bookkeeping of a small RISC-V kernel: Sv39 page tables
  over a pool of pages, the inode table and path elements, the log header and
  its replay, the buffer cache list, the free-block bitmap, the console ring,
  harts and processes, ELF headers, the virtio queue and control registers.

`app/` holds what the library leaves to its host: reading files, printing,
the floating-point arithmetic and the run loop of the Lox machine, and the
device registers and block I/O of the kernel. `tests/` runs the library on concrete inputs.
