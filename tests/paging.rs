use kernel::layout::{page_down, vpn, PA2VA_OFFSET, PTE_R, PTE_V, PTE_W, PTE_X};
use kernel::vm::{PageTable, PageTableEntry};

const BASE: u64 = 0xffff_ffe0_0400_0000;

#[test]
fn vpn_matches_shifts_at_every_level() {
    // 9-bit digits 0x1a3, 0x0c5, 0x17e with a page offset 0xabc
    let va: u64 = (0x1a3u64 << 30) | (0x0c5u64 << 21) | (0x17eu64 << 12) | 0xabc;
    assert_eq!(vpn(va, 0), 0x17e);
    assert_eq!(vpn(va, 1), 0x0c5);
    assert_eq!(vpn(va, 2), 0x1a3);
    let k: u64 = 0xffff_ffe0_8020_1234;
    assert_eq!(vpn(k, 0), ((k >> 12) & 0x1ff) as usize);
    assert_eq!(vpn(k, 1), ((k >> 21) & 0x1ff) as usize);
    assert_eq!(vpn(k, 2), ((k >> 30) & 0x1ff) as usize);
}

#[test]
fn page_down_clears_the_offset() {
    assert_eq!(page_down(0x8020_1fff), 0x8020_1000);
    assert_eq!(page_down(0x8020_1000), 0x8020_1000);
    assert_eq!(page_down(0), 0);
}

#[test]
fn mapping_covers_exactly_the_range() {
    let mut pt = PageTable::new(BASE);
    let va: u64 = 0x1000_0000;
    let pa: u64 = 0x8040_0000;
    let len: u64 = 3 * 4096;
    pt.kvmmap(va, pa, len, PTE_R | PTE_W);
    for j in 0..3u64 {
        let e = pt.lookup(va + j * 4096).expect("page in range is mapped");
        assert_eq!((e.bits >> 10) << 12, pa + j * 4096);
        assert_eq!(e.bits & 0x3ff, PTE_R | PTE_W | PTE_V);
        assert!(e.is(PTE_V));
        assert!(!e.is(PTE_X));
    }
    assert!(pt.lookup(va - 4096).is_none());
    assert!(pt.lookup(va + 3 * 4096).is_none());
    assert!(pt.lookup(0x2000_0000).is_none());
}

#[test]
fn unaligned_range_rounds_to_whole_pages() {
    let mut pt = PageTable::new(BASE);
    pt.kvmmap(0x1000_0800, 0x8000_0800, 0x1000, PTE_R);
    let e0 = pt.lookup(0x1000_0000).unwrap();
    let e1 = pt.lookup(0x1000_1000).unwrap();
    assert_eq!(e0.ppn(), 0x8000_0000 >> 12);
    assert_eq!(e1.ppn(), 0x8000_1000 >> 12);
    assert!(pt.lookup(0x1000_2000).is_none());
}

#[test]
fn empty_range_maps_nothing() {
    let mut pt = PageTable::new(BASE);
    pt.kvmmap(0x1000_0000, 0x8000_0000, 0, PTE_R);
    assert!(pt.lookup(0x1000_0000).is_none());
    assert_eq!(pt.entries.len(), 512);
}

#[test]
fn mapping_twice_changes_nothing() {
    let mut pt = PageTable::new(BASE);
    pt.kvmmap(0xc00_0000, 0xc00_0000, 0x6000, PTE_R | PTE_W);
    let once = pt.entries.clone();
    pt.kvmmap(0xc00_0000, 0xc00_0000, 0x6000, PTE_R | PTE_W);
    assert_eq!(pt.entries, once);
}

#[test]
fn intermediate_tables_are_created_once_per_path() {
    let mut pt = PageTable::new(BASE);
    pt.kvmmap(0x1000_0000, 0x1000_0000, 0x2000, PTE_R);
    // root, one level-1 table, one leaf table
    assert_eq!(pt.entries.len(), 3 * 512);
    pt.kvmmap(0xc00_0000, 0xc00_0000, 0x1000, PTE_R);
    // same level-1 table (same top digit), a new leaf table
    assert_eq!(pt.entries.len(), 4 * 512);
}

#[test]
fn kernel_window_address_maps_to_ram() {
    let mut pt = PageTable::new(BASE);
    let va: u64 = 0xffff_ffe0_0020_0000;
    pt.kvmmap(va, 0x8020_0000, 0x3000, PTE_R | PTE_X);
    let e = pt.lookup(va + 0x2000).unwrap();
    assert_eq!(e.ppn() << 12, 0x8020_2000);
    assert_eq!(pt.root_ppn(), (BASE - PA2VA_OFFSET) >> 12);
}

#[test]
fn entry_encoding() {
    let mut e = PageTableEntry::default();
    assert!(!e.is(PTE_V));
    e.set_pa(0x8020_3000, PTE_R);
    assert_eq!(e.bits, (0x80203 << 10) | PTE_R | PTE_V);
    assert_eq!(e.ppn(), 0x80203);
    let mut l = PageTableEntry::default();
    l.link(BASE + 0x1000);
    assert_eq!(l.bits & 0x3ff, PTE_V);
    assert_eq!(l.va(), BASE + 0x1000);
}
