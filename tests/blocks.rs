use kernel::fs::{BitMap, Block, Dir, DirEntry, SuperBlock, BITS_PER_BLOCK, DIRENT_SIZE};

#[test]
fn bitmap_alloc_takes_the_first_clear_bit() {
    let mut b = Block::new(42);
    assert_eq!(b.blockno, 42);
    assert_eq!(b.alloc_bit(), Some(0));
    assert_eq!(b.alloc_bit(), Some(1));
    b.set(2, 1);
    assert_eq!(b.alloc_bit(), Some(3));
    b.set(1, 0);
    assert_eq!(b.get(1), 0);
    assert_eq!(b.alloc_bit(), Some(1));
    assert_eq!(b.data[0], 0b0000_1111);
}

#[test]
fn bitmap_full_block_has_no_free_bit() {
    let mut b = Block::new(0);
    for i in 0..BITS_PER_BLOCK {
        b.set(i, 1);
    }
    assert_eq!(b.alloc_bit(), None);
    b.set(8191, 0);
    assert_eq!(b.alloc_bit(), Some(8191));
}

#[test]
fn superblock_and_dir_entry() {
    let sb = SuperBlock::new();
    assert_eq!((sb.magic, sb.size, sb.ninodes), (0, 0, 0));
    let d = DirEntry::new(7, b"hello");
    assert_eq!(d.inum, 7);
    assert_eq!(&d.name[..5], b"hello");
    assert!(d.name[5..].iter().all(|b| *b == 0));
}

#[test]
fn directory_link_then_lookup() {
    let mut b = Block::new(44);
    assert_eq!(b.size(), 0);
    assert_eq!(b.dirlookup(b"init"), None);
    assert_eq!(b.dirlink(b"init", 2), Some(()));
    assert_eq!(b.size() as usize, 4 + DIRENT_SIZE);
    assert_eq!(&b.data[4..8], &[2, 0, 0, 0]);
    assert_eq!(&b.data[8..12], b"init");
    assert_eq!(b.dirlink(b"sh", 3), Some(()));
    assert_eq!(b.dirlookup(b"init"), Some(2));
    assert_eq!(b.dirlookup(b"sh"), Some(3));
    assert_eq!(b.dirlookup(b"s"), None);
    assert_eq!(b.size() as usize, 4 + 2 * DIRENT_SIZE);
}

#[test]
fn directory_link_refusals() {
    let mut b = Block::new(44);
    assert_eq!(b.dirlink(b"a_name_too_long", 5), None);
    assert_eq!(b.size(), 0);
    assert_eq!(b.dirlink(b"x", 5), Some(()));
    let before = b.data;
    assert_eq!(b.dirlink(b"x", 6), None);
    assert_eq!(b.data, before);
    let mut n = 0u32;
    loop {
        let name = format!("f{}", n);
        if b.dirlink(name.as_bytes(), 10 + n).is_none() {
            break;
        }
        n += 1;
    }
    // 4-byte header, 20-byte entries: 51 fit in 1024 bytes, "x" is one
    assert_eq!(n, 50);
    assert_eq!(b.dirlookup(b"f49"), Some(59));
}
