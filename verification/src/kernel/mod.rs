//! The bookkeeping of a small RISC-V teaching kernel: page tables, the inode
//! table, the buffer cache list, the log header, processes and harts.
pub mod bio;
pub mod bmap;
pub mod elf;
pub mod console;
pub mod cpu;
pub mod file;
pub mod fs;
pub mod kvm;
pub mod layout;
pub mod log;
pub mod page_table;
pub mod param;
pub mod proc;
pub mod process;
pub mod register;
pub mod superblock;
pub mod virtio;
pub mod vm;
