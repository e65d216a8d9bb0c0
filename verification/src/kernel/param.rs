//! Sizes and limits of the kernel.
use vstd::prelude::*;

verus! {

/// Bytes in a page.
pub const PAGESIZE: usize = 4096;

/// Processes in the process table.
pub const NPROC: usize = 64;

/// Harts the kernel runs on.
pub const NCPU: usize = 8;

/// Open files a process may hold.
pub const NOFILE: usize = 16;

/// The device of the root file system.
pub const ROOTDEV: u32 = 1;

/// Blocks a file system operation may write at most.
pub const MAXOPBLOCKS: usize = 10;

/// Blocks the on-disk log may hold.
pub const LOGSIZE: usize = 30;

/// Buffers in the buffer cache.
pub const NBUF: usize = 30;

/// Bytes in a disk block.
pub const BSIZE: usize = 1024;

/// One past the highest virtual address: Sv39 addresses have 39 bits, and
/// the top bit is left clear.
pub const MAXVA: u64 = 0x40_0000_0000;

/// The trampoline page, at the top of every address space.
pub const TRAMPOLINE: u64 = 0x3f_ffff_f000;

/// The page of the trap frame, just below the trampoline.
pub const TRAPFRAME: u64 = 0x3f_ffff_e000;

/// Where the kernel is loaded, and RAM starts.
pub const KERNBASE: usize = 0x8000_0000;

/// The end of the RAM the kernel uses: 128 MiB from `KERNBASE`.
pub const PHYSTOP: usize = 0x8800_0000;

/// The core-local interruptor, which holds the timer.
pub const CLINT: usize = 0x200_0000;
/// Bytes of the CLINT registers.
pub const CLINT_MAP_SIZE: usize = 0x1_0000;

/// The UART registers.
pub const UART0: usize = 0x1000_0000;
/// Bytes of the UART registers.
pub const UART0_MAP_SIZE: usize = 4096;

/// The virtio disk's MMIO registers.
pub const VIRTIO0: usize = 0x1000_1000;
/// Bytes of the virtio registers.
pub const VIRTIO0_MAP_SIZE: usize = 4096;

/// The platform-level interrupt controller.
pub const PLIC: usize = 0x0c00_0000;
/// Bytes of the PLIC registers.
pub const PLIC_MAP_SIZE: usize = 0x40_0000;

/// The test device through which the machine is shut down.
pub const QEMU_TEST0: usize = 0x10_0000;

} // verus!
