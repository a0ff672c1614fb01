//! A small single-hart RISC-V kernel core: Sv39 page tables, a round-robin
//! task manager, trap classification and dispatch decisions, the system-call
//! gateway, the console line discipline and text grid, and the block layer
//! of the file system.
//!
//! Everything that touches hardware (control registers, `ecall`, MMIO,
//! frame buffers, disks) is left to the caller: the functions here compute
//! what to write and decide what to do next, from plain values.

pub mod context;
pub mod fs;
pub mod graphics;
pub mod layout;
pub mod plic;
pub mod sbi;
pub mod stdio;
pub mod syscall;
pub mod task;
pub mod trap;
pub mod vm;
