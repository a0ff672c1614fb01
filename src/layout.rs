//! Memory layout of the platform, page-number arithmetic and the
//! interrupt-controller register map.
use vstd::prelude::*;

verus! {

/// Base address of the platform-level interrupt controller.
pub const PLIC_BASE: usize = 0xc000000;
/// Size of the interrupt controller's register window.
pub const PLIC_MMAP_SIZE: usize = 0x600000;
/// Base of the per-hart supervisor enable words.
pub const PLIC_SENABLE_BASE: usize = 0xc002080;
/// Base of the per-hart supervisor priority-threshold words.
pub const PLIC_SPRIORITY_BASE: usize = 0xc201000;
/// Base of the per-hart supervisor claim/complete words.
pub const PLIC_SCLAIM_BASE: usize = 0xc201004;
/// Interrupt source number of the UART.
pub const UART0: usize = 10;
/// Interrupt source number of the first virtio device.
pub const VIRTIO0: usize = 1;

/// Base of the memory-mapped device window.
pub const MMIO_BASE: usize = 0x10000000;
/// Size of the memory-mapped device window.
pub const MMIO_MMAP_SIZE: usize = 0x8200;

/// First byte of RAM.
pub const PHY_START: u64 = 0x80000000;
/// Room left to the firmware below the kernel image.
pub const OPENSBI_SIZE: u64 = 0x200000;
/// Physical load address of the kernel image.
pub const KERNEL_BASE: u64 = 0x80200000;
/// Size of RAM.
pub const PHY_SIZE: u64 = 0x8000000;
/// One past the last byte of RAM.
pub const PHY_STOP: u64 = 0x88000000;

/// Top of the kernel-stack arena; task stacks grow down from here.
pub const KSTACKTOP: usize = 0x88000000;
/// Page size: 4 KiB.
pub const PGSIZE: u64 = 4096;
/// log2 of the page size.
pub const PGSHIFT: u64 = 12;
/// Size of one task's kernel stack.
pub const STACKSIZE: usize = 4096;
/// Number of stack slots in the kernel-stack arena.
pub const MAX_TASKS: usize = 0x88000;

/// Page-table entry bit: valid.
pub const PTE_V: u64 = 1;
/// Page-table entry bit: readable.
pub const PTE_R: u64 = 2;
/// Page-table entry bit: writable.
pub const PTE_W: u64 = 4;
/// Page-table entry bit: executable.
pub const PTE_X: u64 = 8;
/// Page-table entry bit: user accessible.
pub const PTE_U: u64 = 16;
/// Page-table entry bit: global mapping.
pub const PTE_G: u64 = 32;
/// Page-table entry bit: accessed.
pub const PTE_A: u64 = 64;
/// Page-table entry bit: dirty.
pub const PTE_D: u64 = 128;
/// Bit offset of the physical page number inside an entry.
pub const PTE_SHIFT: u64 = 10;

/// First address of the kernel's virtual window.
pub const VM_START: u64 = 0xffffffe000000000;
/// One past the last address of the kernel's virtual window.
pub const VM_END: u64 = 0xffffffff00000000;
/// Offset between a physical RAM address and its kernel virtual address.
pub const PA2VA_OFFSET: u64 = 0xffffffdf80000000;

/// Address of the priority word of interrupt source `intr_src`.
pub open spec fn plic_pri_spec(intr_src: nat) -> int {
    PLIC_BASE + intr_src * 4
}

/// Address of the priority word of an interrupt source.
pub fn plic_pri(intr_src: usize) -> (r: usize)
    requires
        intr_src <= 1024,
    ensures
        r == plic_pri_spec(intr_src as nat),
{
    PLIC_BASE + intr_src * 4
}

/// Address of the supervisor enable word of a hart.
pub fn plic_sen(hartid: usize) -> (r: usize)
    requires
        hartid <= 15872,
    ensures
        r == PLIC_SENABLE_BASE + hartid * 0x100,
{
    PLIC_SENABLE_BASE + hartid * 0x100
}

/// Address of the supervisor priority-threshold word of a hart.
pub fn plic_spri(hartid: usize) -> (r: usize)
    requires
        hartid <= 15872,
    ensures
        r == PLIC_SPRIORITY_BASE + hartid * 0x2000,
{
    PLIC_SPRIORITY_BASE + hartid * 0x2000
}

/// Address of the supervisor claim/complete word of a hart.
pub fn plic_sclaim(hartid: usize) -> (r: usize)
    requires
        hartid <= 15872,
    ensures
        r == PLIC_SCLAIM_BASE + hartid * 0x2000,
{
    PLIC_SCLAIM_BASE + hartid * 0x2000
}

/// The 9-bit index that `va` selects in a table of the given level.
pub open spec fn vpn_spec(va: u64, level: nat) -> nat {
    ((va >> ((12 + 9 * level) as u64)) & 0x1ff) as nat
}

/// A page-number digit is below 512.
pub proof fn lemma_vpn_bound(va: u64, level: nat)
    ensures
        vpn_spec(va, level) < 512,
{
    let s = (12 + 9 * level) as u64;
    assert((va >> s) & 0x1ff < 512) by (bit_vector);
}

/// Extract the virtual page number of `va` at a level of the radix tree:
/// `(va >> (12 + 9 * level)) & 0x1ff`.
pub fn vpn(va: u64, level: usize) -> (r: usize)
    requires
        level <= 2,
    ensures
        r == vpn_spec(va, level as nat),
        r < 512,
{
    let s: u64 = 12 + 9 * level as u64;
    let r = (va >> s) & 0x1ff;
    assert(r < 512) by (bit_vector)
        requires
            r == (va >> s) & 0x1ff,
    ;
    r as usize
}

/// The start of the page that holds `addr`.
pub open spec fn page_down_spec(addr: u64) -> int {
    (addr as nat) - (addr as nat) % 4096
}

/// Round an address down to its page boundary.
pub fn page_down(addr: u64) -> (r: u64)
    ensures
        r == page_down_spec(addr),
        r % 4096 == 0,
        r <= addr,
        addr - r < 4096,
{
    assert(addr & !0xfffu64 == addr - addr % 4096) by (bit_vector);
    addr & !(PGSIZE - 1)
}

/// Top of the kernel stack of task `pid`: slots are handed out downwards
/// from `KSTACKTOP`, one `STACKSIZE` each.
pub open spec fn kstack_spec(pid: nat) -> int {
    KSTACKTOP - pid * STACKSIZE
}

/// Top of the kernel stack of task `pid`.
pub fn kstack(pid: usize) -> (r: usize)
    requires
        pid < MAX_TASKS,
    ensures
        r == kstack_spec(pid as nat),
        r % 4096 == 0,
{
    KSTACKTOP - pid * STACKSIZE
}

} // verus!
