//! The on-disk layer of the file system: blocks, the allocation bitmap, the
//! superblock, directory entries and on-disk inodes.
use vstd::prelude::*;

verus! {

/// Block size in bytes.
pub const BSIZE: usize = 1024;
/// Bits in one bitmap block.
pub const BITS_PER_BLOCK: u32 = 8192;
/// Longest file name of a directory entry.
pub const DIRSIZ: usize = 14;
/// Direct block addresses per inode.
pub const NDIRECT: usize = 12;
/// Magic number of the superblock.
pub const FS_MAGIC: u32 = 0x10203040;
/// Number of the root directory's inode.
pub const ROOTINO: u32 = 1;

/// One disk block held in memory.
pub struct Block {
    pub data: [u8; 1024],
    /// Number of the block on disk.
    pub blockno: usize,
}

/// Bit `index` of a bitmap held in `data`, least significant bit first.
pub open spec fn bit(data: Seq<u8>, index: int) -> u8 {
    (data[index / 8] >> ((index % 8) as u8)) & 1
}

/// A block used as a bitmap of `BITS_PER_BLOCK` bits.
pub trait BitMap {
    /// The bits, in order.
    spec fn bits(&self) -> Seq<u8>;

    /// Set bit `index` to `value` (any nonzero value sets it).
    fn set(&mut self, index: u32, value: u8)
        requires
            index < BITS_PER_BLOCK,
        ensures
            bit(final(self).bits(), index as int) == if value == 0 {
                0u8
            } else {
                1u8
            },
            forall|j: int|
                0 <= j < BITS_PER_BLOCK && j != index ==> #[trigger] bit(final(self).bits(), j)
                    == bit(old(self).bits(), j),
    ;

    /// Find the first clear bit, set it, and return its index; `None`
    /// when every bit is set.
    fn alloc_bit(&mut self) -> (r: Option<u32>)
        ensures
            match r {
                Some(i) => {
                    &&& i < BITS_PER_BLOCK
                    &&& bit(old(self).bits(), i as int) == 0
                    &&& forall|j: int| 0 <= j < i ==> #[trigger] bit(old(self).bits(), j) == 1
                    &&& bit(final(self).bits(), i as int) == 1
                    &&& forall|j: int|
                        0 <= j < BITS_PER_BLOCK && j != i ==> #[trigger] bit(final(self).bits(), j)
                            == bit(old(self).bits(), j)
                },
                None => {
                    &&& forall|j: int| 0 <= j < BITS_PER_BLOCK ==> #[trigger] bit(old(self).bits(), j) == 1
                    &&& final(self).bits() == old(self).bits()
                },
            },
    ;

    /// Bit `index`.
    fn get(&self, index: u32) -> (r: u8)
        requires
            index < BITS_PER_BLOCK,
        ensures
            r == bit(self.bits(), index as int),
    ;
}

impl Block {
    /// A zero-filled block for block number `blockno`.
    pub fn new(blockno: usize) -> (r: Self)
        ensures
            r.blockno == blockno,
            forall|i: int| 0 <= i < 1024 ==> r.data[i] == 0,
    {
        Block { data: [0u8; 1024], blockno }
    }
}

/// Setting or clearing one bit of a byte leaves the other bits alone.
proof fn lemma_byte_bits(b: u8, k: u8)
    requires
        k < 8,
    ensures
        ((b | (1u8 << k)) >> k) & 1 == 1,
        ((b & !(1u8 << k)) >> k) & 1 == 0,
        forall|m: u8|
            m < 8 && m != k ==> #[trigger] (((b | (1u8 << k)) >> m) & 1) == (b >> m) & 1,
        forall|m: u8|
            m < 8 && m != k ==> #[trigger] (((b & !(1u8 << k)) >> m) & 1) == (b >> m) & 1,
{
    assert(((b | (1u8 << k)) >> k) & 1 == 1) by (bit_vector)
        requires
            k < 8,
    ;
    assert(((b & !(1u8 << k)) >> k) & 1 == 0) by (bit_vector)
        requires
            k < 8,
    ;
    assert forall|m: u8| m < 8 && m != k implies #[trigger] (((b | (1u8 << k)) >> m) & 1) == (b
        >> m) & 1 by {
        assert((((b | (1u8 << k)) >> m) & 1) == (b >> m) & 1) by (bit_vector)
            requires
                m < 8,
                k < 8,
                m != k,
        ;
    }
    assert forall|m: u8| m < 8 && m != k implies #[trigger] (((b & !(1u8 << k)) >> m) & 1) == (b
        >> m) & 1 by {
        assert((((b & !(1u8 << k)) >> m) & 1) == (b >> m) & 1) by (bit_vector)
            requires
                m < 8,
                k < 8,
                m != k,
        ;
    }
}

impl BitMap for Block {
    open spec fn bits(&self) -> Seq<u8> {
        self.data@
    }

    fn set(&mut self, index: u32, value: u8) {
        let byte = (index / 8) as usize;
        let offset = (index % 8) as u8;
        let mask: u8 = 1u8 << offset;
        let old_byte = self.data[byte];
        if value == 0 {
            self.data[byte] = old_byte & !mask;
        } else {
            self.data[byte] = old_byte | mask;
        }
        proof {
            lemma_byte_bits(old_byte, offset);
            assert forall|j: int|
                0 <= j < BITS_PER_BLOCK && j != index implies #[trigger] bit(self.data@, j) == bit(
                old(self).data@,
                j,
            ) by {
                if j / 8 == byte {
                    assert((j % 8) as u8 != offset);
                }
            }
        }
    }

    fn alloc_bit(&mut self) -> (r: Option<u32>) {
        let mut i: usize = 0;
        while i < BSIZE
            invariant
                i <= BSIZE,
                self.data@ == old(self).data@,
                forall|j: int| 0 <= j < i * 8 ==> #[trigger] bit(old(self).data@, j) == 1,
            decreases BSIZE - i,
        {
            let b = self.data[i];
            let mut k: u8 = 0;
            while k < 8
                invariant
                    k <= 8,
                    i < BSIZE,
                    b == old(self).data@[i as int],
                    self.data@ == old(self).data@,
                    forall|j: int| 0 <= j < i * 8 + k ==> #[trigger] bit(old(self).data@, j) == 1,
                decreases 8 - k,
            {
                let mask: u8 = 1u8 << k;
                if b & mask == 0 {
                    let index = (i * 8) as u32 + k as u32;
                    proof {
                        assert(((b >> k) & 1 == 0)) by (bit_vector)
                            requires
                                b & (1u8 << k) == 0,
                                k < 8,
                        ;
                        assert(index / 8 == i && index % 8 == k);
                    }
                    self.set(index, 1);
                    return Some(index);
                }
                proof {
                    assert(((b >> k) & 1 == 1)) by (bit_vector)
                        requires
                            b & (1u8 << k) != 0,
                            k < 8,
                    ;
                    let j = (i * 8 + k) as int;
                    assert(j / 8 == i && j % 8 == k);
                }
                k = k + 1;
            }
            i = i + 1;
        }
        None
    }

    fn get(&self, index: u32) -> (r: u8) {
        let byte = (index / 8) as usize;
        let offset = (index % 8) as u8;
        (self.data[byte] >> offset) & 1
    }
}

/// The file system's superblock.
#[derive(Clone, Copy, Debug, PartialEq, Eq, Structural)]
pub struct SuperBlock {
    /// Must be `FS_MAGIC`.
    pub magic: u32,
    /// Size of the file system image, in blocks.
    pub size: u32,
    /// Number of data blocks.
    pub nblocks: u32,
    /// Number of inodes.
    pub ninodes: u32,
    /// Number of log blocks.
    pub nlog: u32,
    /// First log block.
    pub logstart: u32,
    /// First inode block.
    pub inodestart: u32,
    /// First bitmap block.
    pub bmapstart: u32,
}

impl SuperBlock {
    /// A superblock with every field zero.
    pub fn new() -> (r: Self)
        ensures
            r == (SuperBlock {
                magic: 0,
                size: 0,
                nblocks: 0,
                ninodes: 0,
                nlog: 0,
                logstart: 0,
                inodestart: 0,
                bmapstart: 0,
            }),
    {
        SuperBlock {
            magic: 0,
            size: 0,
            nblocks: 0,
            ninodes: 0,
            nlog: 0,
            logstart: 0,
            inodestart: 0,
            bmapstart: 0,
        }
    }
}

/// A directory entry: an inode number and a zero-padded name.
#[derive(Clone, Copy, Debug, PartialEq, Eq)]
pub struct DirEntry {
    pub inum: u32,
    pub name: [u8; 14],
}

impl DirEntry {
    /// An entry for `name` (at most `DIRSIZ` bytes) and inode `inum`.
    pub fn new(inum: u32, name: &[u8]) -> (r: Self)
        requires
            name@.len() <= DIRSIZ,
        ensures
            r.inum == inum,
            forall|i: int| 0 <= i < name@.len() ==> r.name[i] == name@[i],
            forall|i: int| name@.len() <= i < DIRSIZ ==> r.name[i] == 0,
    {
        let mut bytes = [0u8; 14];
        let mut i: usize = 0;
        while i < name.len()
            invariant
                i <= name@.len(),
                name@.len() <= DIRSIZ,
                forall|j: int| 0 <= j < i ==> bytes[j] == name@[j],
                forall|j: int| i <= j < DIRSIZ ==> bytes[j] == 0,
            decreases name@.len() - i,
        {
            bytes[i] = name[i];
            i = i + 1;
        }
        DirEntry { inum, name: bytes }
    }
}

/// Kind of file an inode holds.
#[derive(Clone, Copy, Debug, PartialEq, Eq, Structural)]
pub enum FType {
    Dir,
    File,
    Device,
}

/// An inode as stored on disk.
#[derive(Clone, Copy, Debug)]
pub struct DInode {
    pub typ: FType,
    /// Major device number (devices only).
    pub major: u16,
    /// Minor device number (devices only).
    pub minor: u16,
    /// Number of directory links to the inode.
    pub nlink: u16,
    /// Size of the file in bytes.
    pub size: u32,
    /// Direct data block addresses, then the indirect block.
    pub addrs: [u32; 13],
}

/// Bytes of one directory entry in a block: the inode number (4 bytes,
/// little-endian), the zero-padded name, and 2 bytes of padding.
pub const DIRENT_SIZE: usize = 20;

/// The little-endian 32-bit number at byte `o` of `d`.
pub open spec fn le_u32(d: Seq<u8>, o: int) -> int {
    d[o] + 256 * d[o + 1] + 65536 * d[o + 2] + 16777216 * d[o + 3]
}

/// Byte `k` (0 to 3) of `v` in little-endian order.
pub open spec fn le_byte(v: int, k: int) -> u8 {
    (if k == 0 {
        v % 256
    } else if k == 1 {
        (v / 256) % 256
    } else if k == 2 {
        (v / 65536) % 256
    } else {
        (v / 16777216) % 256
    }) as u8
}

/// One past the last byte of a directory block's entries: the size kept in
/// its first 4 bytes, at most the block.
pub open spec fn dir_end(d: Seq<u8>) -> int {
    if le_u32(d, 0) > BSIZE {
        BSIZE as int
    } else {
        le_u32(d, 0)
    }
}

/// Where the next entry goes: after the size field, or at the end of the
/// entries.
pub open spec fn dir_append_at(d: Seq<u8>) -> int {
    if le_u32(d, 0) < 4 {
        4
    } else {
        le_u32(d, 0)
    }
}

/// The 14 name bytes at byte `o` of `d` spell `name`, padded with zeros.
pub open spec fn name_at(d: Seq<u8>, o: int, name: Seq<u8>) -> bool {
    &&& name.len() <= DIRSIZ
    &&& forall|i: int|
        0 <= i < DIRSIZ ==> #[trigger] d[o + i] == if i < name.len() {
            name[i]
        } else {
            0u8
        }
}

/// Looking `name` up among the entries from byte `off` on: the first entry
/// with that name gives its inode number; an entry with inode number 0 ends
/// the directory.
pub open spec fn lookup_spec(d: Seq<u8>, name: Seq<u8>, off: int, end: int) -> Option<u32>
    decreases end - off,
{
    if off + DIRENT_SIZE > end || off < 0 {
        None
    } else if le_u32(d, off) == 0 {
        None
    } else if name_at(d, off + 4, name) {
        Some(le_u32(d, off) as u32)
    } else {
        lookup_spec(d, name, off + DIRENT_SIZE, end)
    }
}

/// Some entry from byte `off` on has name `name`.
pub open spec fn has_name(d: Seq<u8>, name: Seq<u8>, off: int, end: int) -> bool
    decreases end - off,
{
    if off + DIRENT_SIZE > end || off < 0 {
        false
    } else {
        name_at(d, off + 4, name) || has_name(d, name, off + DIRENT_SIZE, end)
    }
}

/// `post` is `pre` with the entry (`inum`, `name`) written at byte `at` and
/// the size field set to `at + DIRENT_SIZE`.
pub open spec fn linked(pre: Seq<u8>, post: Seq<u8>, at: int, inum: u32, name: Seq<u8>) -> bool {
    &&& post.len() == pre.len()
    &&& forall|i: int|
        0 <= i < pre.len() ==> #[trigger] post[i] == if i < 4 {
            le_byte(at + DIRENT_SIZE, i)
        } else if at <= i < at + 4 {
            le_byte(inum as int, i - at)
        } else if at + 4 <= i < at + 4 + DIRSIZ {
            if i - at - 4 < name.len() {
                name[i - at - 4]
            } else {
                0u8
            }
        } else if at + 4 + DIRSIZ <= i < at + DIRENT_SIZE {
            0u8
        } else {
            pre[i]
        }
}

/// A block holding directory entries.
pub trait Dir {
    /// The block's bytes.
    spec fn bytes(&self) -> Seq<u8>;

    /// The size field: bytes used by the directory, header included.
    fn size(&self) -> (r: u32)
        ensures
            r == le_u32(self.bytes(), 0),
    ;

    /// The inode number of the entry named `name`, if there is one.
    fn dirlookup(&self, name: &[u8]) -> (r: Option<u32>)
        ensures
            r == lookup_spec(self.bytes(), name@, 4, dir_end(self.bytes())),
    ;

    /// Append the entry (`name`, `inum`). Refused (and nothing changes)
    /// when the name is longer than `DIRSIZ`, is in the directory already,
    /// or the block has no room for another entry.
    fn dirlink(&mut self, name: &[u8], inum: u32) -> (r: Option<()>)
        ensures
            ({
                let pre = old(self).bytes();
                let at = dir_append_at(pre);
                if name@.len() > DIRSIZ || has_name(pre, name@, 4, dir_end(pre)) || at
                    + DIRENT_SIZE > BSIZE {
                    r is None && final(self).bytes() == pre
                } else {
                    r is Some && linked(pre, final(self).bytes(), at, inum, name@)
                }
            }),
    ;
}

impl Block {
    /// The little-endian 32-bit number at byte `o`.
    fn read_u32(&self, o: usize) -> (r: u32)
        requires
            o + 4 <= BSIZE,
        ensures
            r == le_u32(self.data@, o as int),
    {
        (self.data[o] as u32) + (self.data[o + 1] as u32) * 256 + (self.data[o + 2] as u32)
            * 65536 + (self.data[o + 3] as u32) * 16777216
    }

    /// Write `v` little-endian at byte `o`.
    fn write_u32(&mut self, o: usize, v: u32)
        requires
            o + 4 <= BSIZE,
        ensures
            forall|i: int|
                0 <= i < BSIZE ==> #[trigger] final(self).data@[i] == if o <= i < o + 4 {
                    le_byte(v as int, i - o)
                } else {
                    old(self).data@[i]
                },
            final(self).blockno == old(self).blockno,
    {
        self.data[o] = (v % 256) as u8;
        self.data[o + 1] = ((v / 256) % 256) as u8;
        self.data[o + 2] = ((v / 65536) % 256) as u8;
        self.data[o + 3] = ((v / 16777216) % 256) as u8;
    }

    /// Whether the 14 name bytes at byte `o` spell `name`, padded with zeros.
    fn name_matches(&self, o: usize, name: &[u8]) -> (r: bool)
        requires
            o + DIRSIZ <= BSIZE,
        ensures
            r == name_at(self.data@, o as int, name@),
    {
        if name.len() > DIRSIZ {
            return false;
        }
        let mut i: usize = 0;
        while i < DIRSIZ
            invariant
                i <= DIRSIZ,
                name@.len() <= DIRSIZ,
                o + DIRSIZ <= BSIZE,
                forall|j: int|
                    0 <= j < i ==> #[trigger] self.data@[o + j] == if j < name@.len() {
                        name@[j]
                    } else {
                        0u8
                    },
            decreases DIRSIZ - i,
        {
            let want: u8 = if i < name.len() {
                name[i]
            } else {
                0
            };
            if self.data[o + i] != want {
                return false;
            }
            i = i + 1;
        }
        true
    }
}

impl Dir for Block {
    open spec fn bytes(&self) -> Seq<u8> {
        self.data@
    }

    fn size(&self) -> (r: u32) {
        self.read_u32(0)
    }

    fn dirlookup(&self, name: &[u8]) -> (r: Option<u32>) {
        let size = self.read_u32(0);
        let end: usize = if size as usize > BSIZE {
            BSIZE
        } else {
            size as usize
        };
        let mut off: usize = 4;
        while off + DIRENT_SIZE <= end
            invariant
                end <= BSIZE,
                end == dir_end(self.data@),
                4 <= off <= BSIZE,
                lookup_spec(self.data@, name@, 4, end as int) == lookup_spec(
                    self.data@,
                    name@,
                    off as int,
                    end as int,
                ),
            decreases end - off,
        {
            let inum = self.read_u32(off);
            if inum == 0 {
                return None;
            }
            if self.name_matches(off + 4, name) {
                return Some(inum);
            }
            off = off + DIRENT_SIZE;
        }
        None
    }

    fn dirlink(&mut self, name: &[u8], inum: u32) -> (r: Option<()>) {
        if name.len() > DIRSIZ {
            return None;
        }
        let size = self.read_u32(0);
        let end: usize = if size as usize > BSIZE {
            BSIZE
        } else {
            size as usize
        };
        let mut off: usize = 4;
        while off + DIRENT_SIZE <= end
            invariant
                end <= BSIZE,
                end == dir_end(self.data@),
                4 <= off <= BSIZE,
                self.data@ == old(self).data@,
                has_name(self.data@, name@, 4, end as int) == has_name(
                    self.data@,
                    name@,
                    off as int,
                    end as int,
                ),
            decreases end - off,
        {
            if self.name_matches(off + 4, name) {
                return None;
            }
            off = off + DIRENT_SIZE;
        }
        let at: usize = if size < 4 {
            4
        } else if size as usize > BSIZE {
            BSIZE
        } else {
            size as usize
        };
        if at + DIRENT_SIZE > BSIZE {
            return None;
        }
        let ghost pre = self.data@;
        self.write_u32(at, inum);
        let mut i: usize = 0;
        while i < DIRENT_SIZE - 4
            invariant
                i <= DIRENT_SIZE - 4,
                at + DIRENT_SIZE <= BSIZE,
                at >= 4,
                name@.len() <= DIRSIZ,
                forall|j: int|
                    0 <= j < BSIZE ==> #[trigger] self.data@[j] == if at <= j < at + 4 {
                        le_byte(inum as int, j - at)
                    } else if at + 4 <= j < at + 4 + i {
                        if j - at - 4 < name@.len() {
                            name@[j - at - 4]
                        } else {
                            0u8
                        }
                    } else {
                        pre[j]
                    },
            decreases DIRENT_SIZE - 4 - i,
        {
            let b: u8 = if i < name.len() {
                name[i]
            } else {
                0
            };
            self.data[at + 4 + i] = b;
            i = i + 1;
        }
        self.write_u32(0, (at + DIRENT_SIZE) as u32);
        Some(())
    }
}

} // verus!
