//! Sv39 page tables: a radix tree of three levels, each table 512 entries
//! of 64 bits, mapping the kernel's virtual window onto physical memory.
//!
//! The tables live in one arena owned by `PageTable`: table `t` occupies
//! entries `512 * t .. 512 * t + 512` and sits at kernel virtual address
//! `base + 4096 * t`. Table 0 is the root.
use vstd::prelude::*;

use crate::layout::{lemma_vpn_bound, page_down, page_down_spec, vpn, vpn_spec, KERNEL_BASE, MMIO_BASE,
    MMIO_MMAP_SIZE, PA2VA_OFFSET, PGSIZE, PHY_STOP, PLIC_BASE, PLIC_MMAP_SIZE, PTE_R, PTE_V, PTE_W, PTE_X};

verus! {

/// Entries per table.
pub const ENTRIES: usize = 512;

/// A Sv39 page-table entry: flag bits 0..10, physical page number above.
#[derive(Clone, Copy, Debug, PartialEq, Eq, Structural)]
pub struct PageTableEntry {
    pub bits: u64,
}

/// The entry is valid.
pub open spec fn valid(e: PageTableEntry) -> bool {
    e.bits & PTE_V != 0
}

/// The entry that links to the table at kernel virtual address `next`.
pub open spec fn link_bits(next: u64) -> u64 {
    ((((next - PA2VA_OFFSET) as u64) >> 12u64) << 10u64) | 1u64
}

/// The leaf entry that maps onto the page at `pa` with permission bits `flag`.
pub open spec fn leaf_bits(pa: u64, flag: u64) -> u64 {
    ((pa >> 12u64) << 10u64) | flag | 1u64
}

/// The kernel virtual address that an entry points to.
pub open spec fn entry_va(bits: u64) -> int {
    ((bits >> 10u64) as int) * 4096 + PA2VA_OFFSET
}

impl PageTableEntry {
    /// An empty, invalid entry.
    pub fn default() -> (r: Self)
        ensures
            r.bits == 0,
    {
        PageTableEntry { bits: 0 }
    }

    /// Link the entry to the next-level table at kernel virtual address `next`.
    pub fn link(&mut self, next: u64)
        requires
            next >= PA2VA_OFFSET,
        ensures
            final(self).bits == link_bits(next),
    {
        let ppn = (next - PA2VA_OFFSET) >> 12;
        self.bits = (ppn << 10) | PTE_V;
    }

    /// Make the entry a leaf for the page at `pa` with permission bits `flag`.
    pub fn set_pa(&mut self, pa: u64, flag: u64)
        ensures
            final(self).bits == leaf_bits(pa, flag),
    {
        let ppn = pa >> 12;
        self.bits = (ppn << 10) | flag | PTE_V;
    }

    /// Whether any of the bits of `flag` is set.
    pub fn is(&self, flag: u64) -> (r: bool)
        ensures
            r == (self.bits & flag != 0),
    {
        self.bits & flag != 0
    }

    /// The physical page number held in the entry.
    pub fn ppn(&self) -> (r: u64)
        ensures
            r == self.bits >> 10u64,
    {
        self.bits >> 10
    }

    /// The kernel virtual address the entry points to.
    pub fn va(&self) -> (r: u64)
        requires
            entry_va(self.bits) <= u64::MAX,
        ensures
            r == entry_va(self.bits),
    {
        let p = self.ppn();
        let b = self.bits;
        assert(p < 0x40000000000000) by (bit_vector)
            requires
                p == b >> 10u64,
        ;
        p * 4096 + PA2VA_OFFSET
    }
}

/// Facts about an entry made by `link`.
proof fn lemma_link_bits(next: u64)
    requires
        next >= PA2VA_OFFSET,
        next % 4096 == 0,
    ensures
        link_bits(next) & PTE_V != 0,
        entry_va(link_bits(next)) == next,
{
    let x = (next - PA2VA_OFFSET) as u64;
    assert(x % 4096 == 0);
    assert(x & 0xfff == 0) by (bit_vector)
        requires
            x % 4096 == 0,
    ;
    let b = link_bits(next);
    assert(b & 1 != 0 && (b >> 10u64) == x >> 12u64) by (bit_vector)
        requires
            b == ((x >> 12u64) << 10u64) | 1u64,
    ;
    assert((x >> 12u64) as int * 4096 == x) by {
        assert((x >> 12u64) * 4096 == x) by (bit_vector)
            requires
                x & 0xfff == 0,
        ;
    }
}

/// Every table of the Sv39 radix tree rooted at table 0.
pub struct PageTable {
    /// Table `t`'s entry `i` is `entries[512 * t + i]`.
    pub entries: Vec<PageTableEntry>,
    /// Kernel virtual address of table 0; table `t` follows at `base + 4096 * t`.
    pub base: u64,
    /// The level of each table: 2 for the root, 0 for tables of leaves.
    pub levels: Ghost<Seq<nat>>,
}

impl PageTable {
    /// Number of tables in the arena.
    pub open spec fn ntables(&self) -> nat {
        self.levels@.len()
    }

    /// Entry `i` of table `t`.
    pub open spec fn entry(&self, t: nat, i: nat) -> PageTableEntry {
        self.entries@[(t * 512 + i) as int]
    }

    /// Entry `i` of table `t`, where a table not yet in the arena reads as
    /// all zero entries.
    pub open spec fn prior_entry(&self, t: nat, i: nat) -> PageTableEntry {
        if t < self.ntables() {
            self.entry(t, i)
        } else {
            PageTableEntry { bits: 0 }
        }
    }

    /// The entry at slot `i` of table `t` of `post` is what it was in `pre`
    /// if that was valid, and otherwise links a table that `pre` did not have.
    pub open spec fn walk_step(pre: PageTable, post: PageTable, t: nat, i: nat) -> bool {
        if valid(pre.prior_entry(t, i)) {
            post.entry(t, i) == pre.prior_entry(t, i)
        } else {
            &&& post.child(post.entry(t, i)) >= pre.ntables()
            &&& post.entry(t, i).bits == link_bits(
                (post.base + post.child(post.entry(t, i)) * 4096) as u64,
            )
        }
    }

    /// The table that an entry of a non-leaf table links to.
    pub open spec fn child(&self, e: PageTableEntry) -> nat {
        ((entry_va(e.bits) - self.base) / 4096) as nat
    }

    /// Kernel virtual address of table `t`.
    pub open spec fn table_va(&self, t: nat) -> int {
        self.base + t * 4096
    }

    /// Entry `i` of table `t` is a link from a non-leaf table.
    pub open spec fn is_link(&self, t: nat, i: nat) -> bool {
        t < self.ntables() && i < 512 && self.levels@[t as int] >= 1 && valid(self.entry(t, i))
    }

    /// The arena is a well-formed radix tree: every valid entry of a
    /// non-leaf table links to a table one level down, and no two links
    /// share a table.
    pub open spec fn wf(&self) -> bool {
        &&& self.entries@.len() == self.ntables() * 512
        &&& self.ntables() >= 1
        &&& self.levels@[0] == 2
        &&& forall|t: int| 1 <= t < self.ntables() ==> #[trigger] self.levels@[t] < 2
        &&& self.base % 4096 == 0
        &&& self.base >= PA2VA_OFFSET
        &&& self.base + self.ntables() * 4096 <= u64::MAX
        &&& forall|t: nat, i: nat|
            #[trigger] self.is_link(t, i) ==> {
                let c = self.child(self.entry(t, i));
                &&& c < self.ntables()
                &&& self.levels@[c as int] + 1 == self.levels@[t as int]
                &&& self.entry(t, i).bits == link_bits((self.base + c * 4096) as u64)
            }
        &&& forall|t1: nat, i1: nat, t2: nat, i2: nat|
            #[trigger] self.is_link(t1, i1) && #[trigger] self.is_link(t2, i2) && self.child(
                self.entry(t1, i1),
            ) == self.child(self.entry(t2, i2)) ==> t1 == t2 && i1 == i2
    }

    /// Tables that can still be added before the arena's addresses run out.
    pub open spec fn room(&self) -> int {
        (u64::MAX - self.base) / 4096 - self.ntables()
    }

    /// The table and slot of the leaf entry that `va` resolves through, if
    /// the two non-leaf entries on its way are valid.
    pub open spec fn leaf_slot(&self, va: u64) -> Option<(nat, nat)> {
        let e2 = self.entry(0, vpn_spec(va, 2));
        if !valid(e2) {
            None
        } else {
            let e1 = self.entry(self.child(e2), vpn_spec(va, 1));
            if !valid(e1) {
                None
            } else {
                Some((self.child(e1), vpn_spec(va, 0)))
            }
        }
    }

    /// The valid leaf entry that `va` translates through, if any.
    pub open spec fn translate(&self, va: u64) -> Option<PageTableEntry> {
        match self.leaf_slot(va) {
            Some((t, i)) => if valid(self.entry(t, i)) {
                Some(self.entry(t, i))
            } else {
                None
            },
            None => None,
        }
    }

    /// An arena holding only an empty root table at kernel virtual address `base`.
    pub fn new(base: u64) -> (r: Self)
        requires
            base % 4096 == 0,
            base >= PA2VA_OFFSET,
            base <= u64::MAX - 4096,
        ensures
            r.wf(),
            r.base == base,
            r.ntables() == 1,
            forall|va: u64| r.translate(va) == None::<PageTableEntry>,
    {
        let ghost root_level: Seq<nat> = seq![2nat];
        let mut r = PageTable { entries: Vec::new(), base, levels: Ghost(root_level) };
        r.push_empty_table();
        assert forall|t: nat, i: nat| #[trigger] r.is_link(t, i) implies false by {
            assert(r.entry(t, i).bits == 0);
            assert(0u64 & 1u64 == 0) by (bit_vector);
        }
        assert forall|va: u64| r.translate(va) == None::<PageTableEntry> by {
            lemma_vpn_bound(va, 2);
            assert(r.entry(0, vpn_spec(va, 2)).bits == 0);
            assert(0u64 & 1u64 == 0) by (bit_vector);
        }
        r
    }

    /// Append 512 empty entries to the arena.
    fn push_empty_table(&mut self)
        requires
            old(self).entries@.len() % 512 == 0,
        ensures
            final(self).entries@.len() == old(self).entries@.len() + 512,
            forall|j: int|
                0 <= j < old(self).entries@.len() ==> #[trigger] final(self).entries@[j]
                    == old(self).entries@[j],
            forall|j: int|
                old(self).entries@.len() <= j < final(self).entries@.len() ==> (
                #[trigger] final(self).entries@[j]).bits == 0,
            final(self).base == old(self).base,
            final(self).levels == old(self).levels,
    {
        let mut k: usize = 0;
        while k < ENTRIES
            invariant
                k <= ENTRIES,
                self.entries@.len() == old(self).entries@.len() + k,
                forall|j: int|
                    0 <= j < old(self).entries@.len() ==> #[trigger] self.entries@[j] == old(self).entries@[j],
                forall|j: int|
                    old(self).entries@.len() <= j < self.entries@.len() ==> (
                    #[trigger] self.entries@[j]).bits == 0,
                self.base == old(self).base,
                self.levels == old(self).levels,
            decreases ENTRIES - k,
        {
            self.entries.push(PageTableEntry::default());
            k = k + 1;
        }
    }

    /// Where a link of a well-formed arena points.
    proof fn lemma_link_target(&self, t: nat, i: nat)
        requires
            self.wf(),
            self.is_link(t, i),
        ensures
            self.child(self.entry(t, i)) < self.ntables(),
            entry_va(self.entry(t, i).bits) == self.base + self.child(self.entry(t, i)) * 4096,
    {
        let c = self.child(self.entry(t, i));
        let next = (self.base + c * 4096) as u64;
        assert(next % 4096 == 0) by {
            vstd::arithmetic::div_mod::lemma_mod_multiples_basic(c as int, 4096);
            vstd::arithmetic::div_mod::lemma_add_mod_noop(self.base as int, (c * 4096) as int, 4096);
        }
        lemma_link_bits(next);
    }

    /// Link the invalid entry `i` of non-leaf table `t` to a new empty table,
    /// one level down; return the new table's index. No translation changes.
    fn link_new(&mut self, t: usize, i: usize) -> (c: usize)
        requires
            old(self).wf(),
            old(self).room() >= 1,
            t < old(self).ntables(),
            i < 512,
            old(self).levels@[t as int] >= 1,
            !valid(old(self).entry(t as nat, i as nat)),
        ensures
            final(self).wf(),
            c == old(self).ntables(),
            final(self).ntables() == old(self).ntables() + 1,
            final(self).base == old(self).base,
            final(self).levels@ == old(self).levels@.push((old(self).levels@[t as int] - 1) as nat),
            final(self).is_link(t as nat, i as nat),
            final(self).child(final(self).entry(t as nat, i as nat)) == c,
            forall|u: nat, j: nat|
                u < old(self).ntables() && j < 512 && (u != t || j != i) ==> #[trigger] final(
                self).entry(u, j) == old(self).entry(u, j),
            final(self).entry(t as nat, i as nat).bits == link_bits((old(self).base + c * 4096) as u64),
            forall|j: nat| j < 512 ==> (#[trigger] final(self).entry(c as nat, j)).bits == 0,
            forall|va: u64| #[trigger] final(self).translate(va) == old(self).translate(va),
    {
        let ghost pre = *self;
        let n = self.entries.len() / ENTRIES;
        proof {
            assert(n == pre.ntables());
            assert(self.base + (n + 1) * 4096 <= u64::MAX) by {
                vstd::arithmetic::div_mod::lemma_fundamental_div_mod(
                    (u64::MAX - self.base) as int,
                    4096,
                );
            }
        }
        let next = self.base + (n as u64) * PGSIZE;
        let mut e = PageTableEntry::default();
        e.link(next);
        self.entries.set(t * ENTRIES + i, e);
        let ghost lv = (self.levels@[t as int] - 1) as nat;
        self.levels = Ghost(self.levels@.push(lv));
        self.push_empty_table();
        proof {
            let post = *self;
            assert(next % 4096 == 0) by {
                vstd::arithmetic::div_mod::lemma_mod_multiples_basic(n as int, 4096);
                vstd::arithmetic::div_mod::lemma_add_mod_noop(self.base as int, (n * 4096) as int, 4096);
            }
            lemma_link_bits(next);
            assert((n * 4096) / 4096 == n) by {
                vstd::arithmetic::div_mod::lemma_div_multiples_vanish(n as int, 4096);
            }
            assert(post.entry(t as nat, i as nat) == e);
            assert(post.child(e) == n);
            lemma_zero_invalid();
            assert forall|u: nat, j: nat|
                u < pre.ntables() && j < 512 && (u != t || j != i) implies #[trigger] post.entry(
                u,
                j,
            ) == pre.entry(u, j) by {
                assert(u * 512 + j != t * 512 + i);
            }
            assert forall|j: nat| j < 512 implies !valid(#[trigger] post.entry(n as nat, j)) by {
                assert(post.entry(n as nat, j).bits == 0);
            }
            assert forall|u: nat, j: nat| #[trigger] post.is_link(u, j) implies {
                let c = post.child(post.entry(u, j));
                &&& c < post.ntables()
                &&& post.levels@[c as int] + 1 == post.levels@[u as int]
                &&& post.entry(u, j).bits == link_bits((post.base + c * 4096) as u64)
            } by {
                if u == n {
                    assert(!valid(post.entry(n as nat, j)));
                } else if u == t && j == i {
                } else {
                    assert(pre.is_link(u, j));
                }
            }
            assert forall|t1: nat, i1: nat, t2: nat, i2: nat|
                #[trigger] post.is_link(t1, i1) && #[trigger] post.is_link(t2, i2) && post.child(
                    post.entry(t1, i1),
                ) == post.child(post.entry(t2, i2)) implies t1 == t2 && i1 == i2 by {
                if t1 == n {
                    assert(!valid(post.entry(n as nat, i1)));
                }
                if t2 == n {
                    assert(!valid(post.entry(n as nat, i2)));
                }
                if (t1 == t && i1 == i) && !(t2 == t && i2 == i) {
                    assert(pre.is_link(t2, i2));
                    pre.lemma_link_target(t2, i2);
                } else if !(t1 == t && i1 == i) && (t2 == t && i2 == i) {
                    assert(pre.is_link(t1, i1));
                    pre.lemma_link_target(t1, i1);
                } else if !(t1 == t && i1 == i) && !(t2 == t && i2 == i) {
                    assert(pre.is_link(t1, i1));
                    assert(pre.is_link(t2, i2));
                }
            }
            assert(post.wf());
            assert(post.levels@.subrange(0, pre.ntables() as int) =~= pre.levels@);
            assert forall|va: u64| #[trigger] post.translate(va) == pre.translate(va) by {
                pre.lemma_translate_after_link(post, t as nat, i as nat, va);
            }
        }
        n
    }

    /// The index of the table that link `i` of table `t` points to.
    fn child_index(&self, t: usize, i: usize) -> (c: usize)
        requires
            self.wf(),
            self.is_link(t as nat, i as nat),
        ensures
            c == self.child(self.entry(t as nat, i as nat)),
            c < self.ntables(),
    {
        proof {
            self.lemma_link_target(t as nat, i as nat);
            let c = self.child(self.entry(t as nat, i as nat));
            vstd::arithmetic::div_mod::lemma_div_multiples_vanish(c as int, 4096);
        }
        let len = self.entries.len();
        assert(t * 512 + i < len);
        let e = self.entries[t * ENTRIES + i];
        ((e.va() - self.base) / PGSIZE) as usize
    }

    /// Walk the tree for `va`, linking a new empty table wherever a
    /// non-leaf entry on the way is invalid; return the table and slot of
    /// its leaf entry. No translation changes, and nothing at all when the
    /// way was complete already.
    fn get_pte(&mut self, va: u64) -> (r: (usize, usize))
        requires
            old(self).wf(),
            old(self).room() >= 2,
        ensures
            final(self).wf(),
            final(self).base == old(self).base,
            final(self).ntables() <= old(self).ntables() + 2,
            final(self).leaf_slot(va) == Some((r.0 as nat, r.1 as nat)),
            r.0 < final(self).ntables(),
            final(self).levels@[r.0 as int] == 0,
            r.1 == vpn_spec(va, 0),
            forall|a: u64| #[trigger] final(self).translate(a) == old(self).translate(a),
            old(self).leaf_slot(va) is Some ==> final(self).entries@ == old(self).entries@
                && final(self).levels@ == old(self).levels@,
            PageTable::walk_step(*old(self), *final(self), 0, vpn_spec(va, 2)),
            PageTable::walk_step(
                *old(self),
                *final(self),
                final(self).child(final(self).entry(0, vpn_spec(va, 2))),
                vpn_spec(va, 1),
            ),
            forall|u: nat, j: nat|
                u < final(self).ntables() && j < 512 && !(u == 0 && j == vpn_spec(va, 2)) && !(u
                    == final(self).child(final(self).entry(0, vpn_spec(va, 2))) && j == vpn_spec(
                    va,
                    1,
                )) ==> #[trigger] final(self).entry(u, j) == old(self).prior_entry(u, j),
    {
        let ghost pre = *self;
        let v2 = vpn(va, 2);
        let e2 = self.entries[v2];
        proof {
            assert(e2 == self.entry(0, v2 as nat));
        }
        let t1 = if e2.is(PTE_V) {
            self.child_index(0, v2)
        } else {
            proof {
                vstd::arithmetic::div_mod::lemma_fundamental_div_mod(
                    (u64::MAX - self.base) as int,
                    4096,
                );
            }
            self.link_new(0, v2)
        };
        let ghost mid = *self;
        proof {
            assert(mid.is_link(0, v2 as nat));
            assert(mid.levels@[t1 as int] == 1);
            assert(mid.room() >= 1) by {
                vstd::arithmetic::div_mod::lemma_fundamental_div_mod(
                    (u64::MAX - self.base) as int,
                    4096,
                );
            }
        }
        let v1 = vpn(va, 1);
        let len = self.entries.len();
        assert(t1 * 512 + v1 < len);
        let e1 = self.entries[t1 * ENTRIES + v1];
        proof {
            assert(e1 == self.entry(t1 as nat, v1 as nat));
        }
        let t0 = if e1.is(PTE_V) {
            self.child_index(t1, v1)
        } else {
            self.link_new(t1, v1)
        };
        proof {
            assert(self.entry(0, v2 as nat) == mid.entry(0, v2 as nat));
            assert(self.is_link(t1 as nat, v1 as nat));
            lemma_vpn_bound(va, 1);
            assert(mid.prior_entry(t1 as nat, v1 as nat) == pre.prior_entry(t1 as nat, v1 as nat));
            assert forall|u: nat, j: nat|
                u < self.ntables() && j < 512 && !(u == 0 && j == v2) && !(u == t1 && j == v1)
                    implies #[trigger] self.entry(u, j) == pre.prior_entry(u, j) by {
                assert(self.entry(u, j) == mid.prior_entry(u, j));
                assert(mid.prior_entry(u, j) == pre.prior_entry(u, j));
            }
        }
        (t0, vpn(va, 0))
    }

    /// The valid leaf entry that `va` translates through, if any.
    pub fn lookup(&self, va: u64) -> (r: Option<PageTableEntry>)
        requires
            self.wf(),
        ensures
            r == self.translate(va),
    {
        let v2 = vpn(va, 2);
        let e2 = self.entries[v2];
        proof {
            assert(e2 == self.entry(0, v2 as nat));
        }
        if !e2.is(PTE_V) {
            return None;
        }
        proof {
            assert(self.is_link(0, v2 as nat));
        }
        let t1 = self.child_index(0, v2);
        let v1 = vpn(va, 1);
        let len = self.entries.len();
        assert(t1 * 512 + v1 < len);
        let e1 = self.entries[t1 * ENTRIES + v1];
        proof {
            assert(e1 == self.entry(t1 as nat, v1 as nat));
        }
        if !e1.is(PTE_V) {
            return None;
        }
        proof {
            assert(self.levels@[t1 as int] == 1);
            assert(self.is_link(t1 as nat, v1 as nat));
        }
        let t0 = self.child_index(t1, v1);
        let v0 = vpn(va, 0);
        assert(t0 * 512 + v0 < len);
        let e0 = self.entries[t0 * ENTRIES + v0];
        proof {
            assert(e0 == self.entry(t0 as nat, v0 as nat));
        }
        if e0.is(PTE_V) {
            Some(e0)
        } else {
            None
        }
    }

    /// The physical page number of the root table, which activation writes
    /// into the address-translation register.
    pub fn root_ppn(&self) -> (r: u64)
        requires
            self.wf(),
        ensures
            r == (self.base - PA2VA_OFFSET) / 4096,
    {
        (self.base - PA2VA_OFFSET) / PGSIZE
    }

    /// Linking one invalid non-leaf entry to a fresh empty table changes
    /// no translation.
    proof fn lemma_translate_after_link(&self, post: PageTable, t: nat, i: nat, va: u64)
        requires
            self.wf(),
            post.wf(),
            post.base == self.base,
            post.ntables() == self.ntables() + 1,
            post.levels@.subrange(0, self.ntables() as int) == self.levels@,
            t < self.ntables(),
            i < 512,
            self.levels@[t as int] >= 1,
            !valid(self.entry(t, i)),
            post.child(post.entry(t, i)) == self.ntables(),
            forall|u: nat, j: nat|
                u < self.ntables() && j < 512 && (u != t || j != i) ==> #[trigger] post.entry(u, j)
                    == self.entry(u, j),
            forall|j: nat| j < 512 ==> !valid(#[trigger] post.entry(self.ntables(), j)),
        ensures
            post.translate(va) == self.translate(va),
    {
        lemma_vpn_bound(va, 2);
        lemma_vpn_bound(va, 1);
        lemma_vpn_bound(va, 0);
        let v2 = vpn_spec(va, 2);
        let v1 = vpn_spec(va, 1);
        let v0 = vpn_spec(va, 0);
        assert(self.levels@[0] == 2);
        if t == 0 && i == v2 {
        } else {
            assert(post.entry(0, v2) == self.entry(0, v2));
            let e2 = self.entry(0, v2);
            if valid(e2) {
                assert(self.is_link(0, v2));
                self.lemma_link_target(0, v2);
                let t1 = self.child(e2);
                assert(self.levels@[t1 as int] == 1);
                if t == t1 && i == v1 {
                } else {
                    assert(post.entry(t1, v1) == self.entry(t1, v1));
                    let e1 = self.entry(t1, v1);
                    if valid(e1) {
                        assert(self.is_link(t1, v1));
                        self.lemma_link_target(t1, v1);
                        let t0 = self.child(e1);
                        assert(self.levels@[t0 as int] == 0);
                        assert(post.entry(t0, v0) == self.entry(t0, v0));
                    }
                }
            }
        }
    }
}

/// An all-zero entry is invalid.
proof fn lemma_zero_invalid()
    ensures
        !valid(PageTableEntry { bits: 0 }),
{
    assert(0u64 & 1u64 == 0) by (bit_vector);
}

/// The 27 bits of a virtual address that the three levels of the tree read.
pub open spec fn page_key(va: u64) -> u64 {
    (va >> 12u64) & 0x7ffffffu64
}

/// Number of pages that the range `[va, va + size)` touches.
pub open spec fn npages(va: u64, size: u64) -> nat {
    if size == 0 {
        0
    } else {
        ((page_down_spec((va + size - 1) as u64) - page_down_spec(va)) / 4096 + 1) as nat
    }
}

/// The `j`-th page of a range that starts at `addr`.
pub open spec fn page_at(addr: u64, j: nat) -> u64 {
    (page_down_spec(addr) + j * 4096) as u64
}

/// The leaf entry that maps onto the `j`-th page from `pa`.
pub open spec fn leaf_at(pa: u64, j: nat, flag: u64) -> PageTableEntry {
    PageTableEntry { bits: leaf_bits(page_at(pa, j), flag) }
}

impl PageTable {
    /// Every page of `[va, va + size)` translates to the matching page from
    /// `pa`, with permission bits `flag`.
    pub open spec fn mapped(&self, va: u64, pa: u64, size: u64, flag: u64) -> bool {
        forall|j: nat|
            j < npages(va, size) ==> #[trigger] self.translate(page_at(va, j)) == Some(
                leaf_at(pa, j, flag),
            )
    }

    /// `post` is `pre` after mapping `[va, va + size)` onto `pa` with `flag`:
    /// the range is mapped, no address on another page changed its
    /// translation, and a range that was mapped already left every table as
    /// it was.
    pub open spec fn map_post(pre: PageTable, post: PageTable, va: u64, pa: u64, size: u64, flag: u64) -> bool {
        &&& post.wf()
        &&& post.base == pre.base
        &&& post.mapped(va, pa, size, flag)
        &&& forall|a: u64|
            (forall|j: nat| j < npages(va, size) ==> page_key(a) != #[trigger] page_key(page_at(va, j)))
                ==> #[trigger] post.translate(a) == pre.translate(a)
        &&& pre.mapped(va, pa, size, flag) ==> post.entries@ == pre.entries@ && post.levels@
            == pre.levels@
    }

    /// Map every page of `[va, va + size)` onto the pages from `pa`, with
    /// permission bits `flag` (below the page number, with at least one of
    /// read, write and execute), creating the missing tables on the way.
    /// Both ends are rounded to whole pages; a range of length 0 maps nothing.
    #[verifier::rlimit(50)]
    pub fn kvmmap(&mut self, va: u64, pa: u64, size: u64, flag: u64)
        requires
            old(self).wf(),
            va <= u64::MAX - size,
            pa <= u64::MAX - size - 4096,
            size <= 0x7ffffff000,
            old(self).room() >= 2 * npages(va, size),
            flag < 1024,
            flag & 0xe != 0,
        ensures
            PageTable::map_post(*old(self), *final(self), va, pa, size, flag),
            final(self).ntables() <= old(self).ntables() + 2 * npages(va, size),
    {
        if size == 0 {
            return;
        }
        let start = page_down(va);
        let last = page_down(va + size - 1);
        let pstart = page_down(pa);
        let n = (last - start) / PGSIZE + 1;
        proof {
            assert(n == npages(va, size));
            vstd::arithmetic::div_mod::lemma_fundamental_div_mod((last - start) as int, 4096);
            assert(n <= 0x8000000);
        }
        let ghost pre = *self;
        let mut k: u64 = 0;
        while k < n
            invariant
                self.wf(),
                self.base == pre.base,
                pre.wf(),
                k <= n,
                n == npages(va, size),
                n <= 0x8000000,
                start == page_down_spec(va),
                pstart == page_down_spec(pa),
                start + (n - 1) * 4096 <= last,
                last <= va + size - 1,
                pstart <= pa,
                pa <= u64::MAX - size - 4096,
                va - start < 4096,
                pre.room() >= 2 * n,
                self.ntables() <= pre.ntables() + 2 * k,
                forall|j: nat|
                    j < k ==> #[trigger] self.translate(page_at(va, j)) == Some(leaf_at(pa, j, flag)),
                forall|a: u64|
                    (forall|j: nat| j < k ==> page_key(a) != #[trigger] page_key(page_at(va, j)))
                        ==> #[trigger] self.translate(a) == pre.translate(a),
                pre.mapped(va, pa, size, flag) ==> self.entries@ == pre.entries@ && self.levels@
                    == pre.levels@,
            decreases n - k,
        {
            proof {
                assert(k * 4096 <= (n - 1) * 4096) by (nonlinear_arith)
                    requires
                        k < n,
                ;
            }
            let addr = start + k * PGSIZE;
            let p = pstart + k * PGSIZE;
            let ghost before = *self;
            proof {
                assert(addr == page_at(va, k as nat));
                assert(p == page_at(pa, k as nat));
                assert(self.room() >= 2);
            }
            let (t, i) = self.get_pte(addr);
            let ghost walked = *self;
            let mut e = PageTableEntry::default();
            e.set_pa(p, flag);
            let len = self.entries.len();
            proof {
                lemma_vpn_bound(addr, 0);
                assert(t * 512 + i < len);
            }
            self.entries.set(t * ENTRIES + i, e);
            proof {
                lemma_leaf_valid(p, flag);
                walked.lemma_set_leaf(*self, t as nat, i as nat, e);
                assert(self.translate(addr) == Some(e));
                assert forall|j: nat| j < k + 1 implies #[trigger] self.translate(page_at(va, j))
                    == Some(leaf_at(pa, j, flag)) by {
                    if j < k {
                        lemma_distinct_keys(start, j, k as nat, n as nat);
                        walked.lemma_other_slot(page_at(va, j), addr, t as nat, i as nat);
                    }
                }
                assert forall|a: u64|
                    (forall|j: nat| j < k + 1 ==> page_key(a) != #[trigger] page_key(page_at(va, j)))
                        implies #[trigger] self.translate(a) == pre.translate(a) by {
                    assert(page_key(a) != page_key(page_at(va, k as nat)));
                    walked.lemma_other_slot(a, addr, t as nat, i as nat);
                    assert(forall|j: nat| j < k ==> page_key(a) != #[trigger] page_key(page_at(va, j)));
                }
                if pre.mapped(va, pa, size, flag) {
                    assert(before.translate(addr) == Some(leaf_at(pa, k as nat, flag)));
                    assert(walked.entry(t as nat, i as nat) == e);
                    assert(self.entries@ =~= walked.entries@);
                }
            }
            k = k + 1;
        }
    }

    /// Setting a leaf entry of a level-0 table keeps the tree well formed,
    /// and the entry is what the addresses through that slot translate to.
    proof fn lemma_set_leaf(&self, post: PageTable, t: nat, i: nat, e: PageTableEntry)
        requires
            self.wf(),
            t < self.ntables(),
            i < 512,
            self.levels@[t as int] == 0,
            valid(e),
            post.base == self.base,
            post.levels == self.levels,
            post.entries@ == self.entries@.update((t * 512 + i) as int, e),
        ensures
            post.wf(),
            forall|a: u64|
                #[trigger] self.leaf_slot(a) == Some((t, i)) ==> post.translate(a) == Some(e),
            forall|a: u64|
                #[trigger] self.leaf_slot(a) != Some((t, i)) ==> post.translate(a) == self.translate(a),
    {
        assert forall|u: nat, j: nat| u < self.ntables() && j < 512 && (u != t || j != i) implies #[trigger] post.entry(u, j) == self.entry(u, j) by {
            assert(u * 512 + j != t * 512 + i);
        }
        assert forall|u: nat, j: nat| #[trigger] post.is_link(u, j) implies self.is_link(u, j) && post.entry(u, j) == self.entry(u, j) by {
            assert(u != t);
        }
        assert forall|u: nat, j: nat| #[trigger] self.is_link(u, j) implies post.is_link(u, j) by {
            assert(u != t);
        }
        assert forall|a: u64| #[trigger] post.leaf_slot(a) == self.leaf_slot(a) by {
            lemma_vpn_bound(a, 2);
            lemma_vpn_bound(a, 1);
            let e2 = self.entry(0, vpn_spec(a, 2));
            assert(self.levels@[0] == 2);
            assert(post.entry(0, vpn_spec(a, 2)) == e2);
            if valid(e2) {
                assert(self.is_link(0, vpn_spec(a, 2)));
                let t1 = self.child(e2);
                assert(self.levels@[t1 as int] == 1);
                assert(post.entry(t1, vpn_spec(a, 1)) == self.entry(t1, vpn_spec(a, 1)));
            }
        }
        assert forall|a: u64| #[trigger] self.leaf_slot(a) != Some((t, i)) implies post.translate(a) == self.translate(a) by {
            assert(post.leaf_slot(a) == self.leaf_slot(a));
            if let Some((u, j)) = self.leaf_slot(a) {
                self.lemma_leaf_slot_bounds(a);
                assert(post.entry(u, j) == self.entry(u, j));
            }
        }
        assert forall|a: u64| #[trigger] self.leaf_slot(a) == Some((t, i)) implies post.translate(a) == Some(e) by {
            assert(post.leaf_slot(a) == self.leaf_slot(a));
            assert(post.entry(t, i) == e);
        }
    }

    /// A leaf slot lies in a level-0 table of the arena.
    proof fn lemma_leaf_slot_bounds(&self, a: u64)
        requires
            self.wf(),
            self.leaf_slot(a) is Some,
        ensures
            self.leaf_slot(a).unwrap().0 < self.ntables(),
            self.leaf_slot(a).unwrap().1 < 512,
            self.levels@[self.leaf_slot(a).unwrap().0 as int] == 0,
    {
        lemma_vpn_bound(a, 2);
        lemma_vpn_bound(a, 1);
        lemma_vpn_bound(a, 0);
        let e2 = self.entry(0, vpn_spec(a, 2));
        assert(self.is_link(0, vpn_spec(a, 2)));
        let t1 = self.child(e2);
        assert(self.is_link(t1, vpn_spec(a, 1)));
    }

    /// Two addresses that resolve through the same leaf slot are on pages
    /// with the same key; so one on another page keeps its translation when
    /// that slot is set.
    proof fn lemma_other_slot(&self, a: u64, b: u64, t: nat, i: nat)
        requires
            self.wf(),
            self.leaf_slot(b) == Some((t, i)),
            page_key(a) != page_key(b),
        ensures
            self.leaf_slot(a) != Some((t, i)),
    {
        if self.leaf_slot(a) == Some((t, i)) {
            lemma_vpn_bound(a, 2);
            lemma_vpn_bound(a, 1);
            lemma_vpn_bound(b, 2);
            lemma_vpn_bound(b, 1);
            let ea = self.entry(0, vpn_spec(a, 2));
            let eb = self.entry(0, vpn_spec(b, 2));
            assert(self.is_link(0, vpn_spec(a, 2)));
            assert(self.is_link(0, vpn_spec(b, 2)));
            let ta = self.child(ea);
            let tb = self.child(eb);
            assert(self.is_link(ta, vpn_spec(a, 1)));
            assert(self.is_link(tb, vpn_spec(b, 1)));
            assert(ta == tb && vpn_spec(a, 1) == vpn_spec(b, 1));
            assert(vpn_spec(a, 2) == vpn_spec(b, 2));
            lemma_key_of_digits(a, b);
        }
    }
}

/// A leaf entry is valid.
proof fn lemma_leaf_valid(pa: u64, flag: u64)
    ensures
        valid(PageTableEntry { bits: leaf_bits(pa, flag) }),
{
    assert((((pa >> 12u64) << 10u64) | flag | 1u64) & 1u64 != 0) by (bit_vector);
}

/// Equal digits at all three levels make equal page keys.
proof fn lemma_key_of_digits(a: u64, b: u64)
    requires
        vpn_spec(a, 0) == vpn_spec(b, 0),
        vpn_spec(a, 1) == vpn_spec(b, 1),
        vpn_spec(a, 2) == vpn_spec(b, 2),
    ensures
        page_key(a) == page_key(b),
{
    assert((a >> 12u64) & 0x1ff == (b >> 12u64) & 0x1ff);
    assert((a >> 21u64) & 0x1ff == (b >> 21u64) & 0x1ff);
    assert((a >> 30u64) & 0x1ff == (b >> 30u64) & 0x1ff);
    assert((a >> 12u64) & 0x7ffffffu64 == (b >> 12u64) & 0x7ffffffu64) by (bit_vector)
        requires
            (a >> 12u64) & 0x1ff == (b >> 12u64) & 0x1ff,
            (a >> 21u64) & 0x1ff == (b >> 21u64) & 0x1ff,
            (a >> 30u64) & 0x1ff == (b >> 30u64) & 0x1ff,
    ;
}

/// The key of a page-aligned address is its page number modulo 2^27.
proof fn lemma_key_of_page(x: u64)
    ensures
        page_key(x) == (x / 4096) % 0x8000000,
{
    vstd::bits::lemma_u64_shr_is_div(x, 12);
    vstd::arithmetic::power2::lemma2_to64();
    let y = x >> 12u64;
    assert(y & 0x7ffffffu64 == y % 0x8000000) by (bit_vector);
}

/// Fewer than 2^27 consecutive pages have distinct keys.
proof fn lemma_distinct_keys(start: u64, j: nat, k: nat, n: nat)
    requires
        start % 4096 == 0,
        j < k < n,
        n <= 0x8000000,
        start + (n - 1) * 4096 <= u64::MAX,
    ensures
        page_key((start + j * 4096) as u64) != page_key((start + k * 4096) as u64),
{
    let q = start / 4096;
    vstd::arithmetic::div_mod::lemma_fundamental_div_mod(start as int, 4096);
    assert(start + j * 4096 <= u64::MAX) by (nonlinear_arith)
        requires
            j < n,
            start + (n - 1) * 4096 <= u64::MAX,
    ;
    assert(start + k * 4096 <= u64::MAX) by (nonlinear_arith)
        requires
            k < n,
            start + (n - 1) * 4096 <= u64::MAX,
    ;
    let xj = (start + j * 4096) as u64;
    let xk = (start + k * 4096) as u64;
    lemma_key_of_page(xj);
    lemma_key_of_page(xk);
    assert(xj as int == 4096 * (q + j));
    assert(xk as int == 4096 * (q + k));
    vstd::arithmetic::div_mod::lemma_div_multiples_vanish(q + j, 4096);
    vstd::arithmetic::div_mod::lemma_div_multiples_vanish(q + k, 4096);
    vstd::arithmetic::div_mod::lemma_mod_equivalence(q + k, q + j, 0x8000000);
    vstd::arithmetic::div_mod::lemma_small_mod((k - j) as nat, 0x8000000);
}

/// The physical address that an entry holds.
pub open spec fn entry_pa(bits: u64) -> int {
    ((bits >> 10u64) as int) * 4096
}

/// The flag bits of an entry, below the physical page number.
pub open spec fn entry_flags(bits: u64) -> u64 {
    bits & 0x3ffu64
}

/// Mapping the same range onto the same pages with the same permissions
/// twice leaves the tables exactly as mapping it once did.
pub proof fn lemma_map_idempotent(
    s0: PageTable,
    s1: PageTable,
    s2: PageTable,
    va: u64,
    pa: u64,
    size: u64,
    flag: u64,
)
    requires
        PageTable::map_post(s0, s1, va, pa, size, flag),
        PageTable::map_post(s1, s2, va, pa, size, flag),
    ensures
        s2.entries@ == s1.entries@,
        s2.levels@ == s1.levels@,
        s2.base == s1.base,
{
}

/// Mapping `[va, va + size)` onto `pa` makes every page of the range
/// resolve to the matching physical page with the permission bits `flag`
/// (and the valid bit), and every address on another page that was
/// unmapped stays unmapped.
pub proof fn lemma_map_coverage(s0: PageTable, s1: PageTable, va: u64, pa: u64, size: u64, flag: u64)
    requires
        flag < 1024,
        va <= u64::MAX - size,
        pa <= u64::MAX - size - 4096,
        forall|a: u64|
            (forall|j: nat| j < npages(va, size) ==> page_key(a) != #[trigger] page_key(page_at(va, j)))
                ==> #[trigger] s0.translate(a) == None::<PageTableEntry>,
        PageTable::map_post(s0, s1, va, pa, size, flag),
    ensures
        forall|j: nat|
            j < npages(va, size) ==> {
                &&& #[trigger] s1.translate(page_at(va, j)) is Some
                &&& entry_pa(s1.translate(page_at(va, j)).unwrap().bits) == page_down_spec(pa) + j * 4096
                &&& entry_flags(s1.translate(page_at(va, j)).unwrap().bits) == flag | 1u64
            },
        forall|a: u64|
            (forall|j: nat| j < npages(va, size) ==> page_key(a) != #[trigger] page_key(page_at(va, j)))
                ==> #[trigger] s1.translate(a) == None::<PageTableEntry>,
{
    assert forall|j: nat| j < npages(va, size) implies {
        &&& #[trigger] s1.translate(page_at(va, j)) is Some
        &&& entry_pa(s1.translate(page_at(va, j)).unwrap().bits) == page_down_spec(pa) + j * 4096
        &&& entry_flags(s1.translate(page_at(va, j)).unwrap().bits) == flag | 1u64
    } by {
        assert(s1.translate(page_at(va, j)) == Some(leaf_at(pa, j, flag)));
        let p = page_at(pa, j);
        assert(page_down_spec(pa) % 4096 == 0) by {
            vstd::arithmetic::div_mod::lemma_fundamental_div_mod(pa as int, 4096);
            vstd::arithmetic::div_mod::lemma_mod_multiples_basic(pa as int / 4096, 4096);
        }
        assert(p == page_down_spec(pa) + j * 4096) by {
            let d = page_down_spec((va + size - 1) as u64) - page_down_spec(va);
            assert(j * 4096 <= d) by {
                vstd::arithmetic::div_mod::lemma_fundamental_div_mod(d, 4096);
                assert(j * 4096 <= (d / 4096) * 4096) by (nonlinear_arith)
                    requires
                        j <= d / 4096,
                ;
            }
        }
        assert(p % 4096 == 0) by {
            vstd::arithmetic::div_mod::lemma_mod_multiples_basic(j as int, 4096);
            vstd::arithmetic::div_mod::lemma_add_mod_noop(page_down_spec(pa), (j * 4096) as int, 4096);
        }
        lemma_leaf_decode(p, flag);
    }
}

/// A leaf entry holds back the page and the flags it was made from.
proof fn lemma_leaf_decode(p: u64, flag: u64)
    requires
        p % 4096 == 0,
        flag < 1024,
    ensures
        entry_pa(leaf_bits(p, flag)) == p,
        entry_flags(leaf_bits(p, flag)) == flag | 1u64,
{
    assert(p & 0xfff == 0) by (bit_vector)
        requires
            p % 4096 == 0,
    ;
    let b = leaf_bits(p, flag);
    assert((b >> 10u64) * 4096 == p && b & 0x3ffu64 == flag | 1u64) by (bit_vector)
        requires
            b == ((p >> 12u64) << 10u64) | flag | 1u64,
            p & 0xfff == 0,
            flag < 1024,
    ;
    assert(((b >> 10u64) as int) * 4096 == p) by {
        assert((b >> 10u64) < 0x40000000000000) by (bit_vector);
    }
}

/// A range of `size` bytes touches at most `size / 4096 + 2` pages.
proof fn lemma_npages_bound(va: u64, size: u64)
    requires
        va <= u64::MAX - size,
    ensures
        npages(va, size) <= size / 4096 + 2,
{
    if size > 0 {
        let lo = page_down_spec(va);
        let hi = page_down_spec((va + size - 1) as u64);
        let d = hi - lo;
        assert(0 <= d <= size + 4095);
        assert(d / 4096 <= (size + 4095) / 4096) by {
            vstd::arithmetic::div_mod::lemma_div_is_ordered(d, size + 4095, 4096);
        }
        assert((size + 4095) / 4096 <= size / 4096 + 1) by {
            vstd::arithmetic::div_mod::lemma_fundamental_div_mod(size as int, 4096);
            vstd::arithmetic::div_mod::lemma_fundamental_div_mod(size + 4095, 4096);
        }
    }
}

/// Where the linker placed the kernel image's sections, at their kernel
/// virtual addresses: text, then read-only data, then everything else.
#[derive(Clone, Copy, Debug, PartialEq, Eq, Structural)]
pub struct KernelImage {
    pub stext: u64,
    pub srodata: u64,
    pub sdata: u64,
}

impl KernelImage {
    /// Sections in order, the image loaded at `KERNEL_BASE` and within RAM.
    pub open spec fn wf(&self) -> bool {
        &&& self.stext <= self.srodata <= self.sdata
        &&& self.sdata - self.stext <= PHY_STOP - KERNEL_BASE
        &&& self.sdata <= u64::MAX - (PHY_STOP - KERNEL_BASE)
    }
}

/// The five mappings of `init`, one after the other, through the
/// intermediate states `s1` to `s4`.
pub open spec fn kernel_map_steps(
    pre: PageTable,
    s1: PageTable,
    s2: PageTable,
    s3: PageTable,
    s4: PageTable,
    post: PageTable,
    image: KernelImage,
) -> bool {
    &&& PageTable::map_post(pre, s1, PLIC_BASE as u64, PLIC_BASE as u64, PLIC_MMAP_SIZE as u64, PTE_R | PTE_W)
    &&& PageTable::map_post(s1, s2, MMIO_BASE as u64, MMIO_BASE as u64, MMIO_MMAP_SIZE as u64, PTE_R | PTE_W)
    &&& PageTable::map_post(s2, s3, image.stext, KERNEL_BASE, (image.srodata - image.stext) as u64, PTE_R | PTE_X)
    &&& PageTable::map_post(s3, s4, image.srodata, (KERNEL_BASE + (image.srodata - image.stext)) as u64, (image.sdata - image.srodata) as u64, PTE_R)
    &&& PageTable::map_post(s4, post, image.sdata, (KERNEL_BASE + (image.sdata - image.stext)) as u64, (PHY_STOP - (KERNEL_BASE + (image.sdata - image.stext))) as u64, PTE_R | PTE_W)
}

/// Tables that `init` may add.
pub const INIT_TABLES: u64 = 70000;

/// Install the kernel's mappings: the interrupt controller and the device
/// window onto themselves, read-write; the kernel text read-execute, its
/// read-only data read-only, and the rest of RAM after it read-write, each
/// onto its physical place from `KERNEL_BASE` on.
pub fn init(pt: &mut PageTable, image: &KernelImage)
    requires
        old(pt).wf(),
        old(pt).room() >= INIT_TABLES,
        image.wf(),
    ensures
        exists|s1: PageTable, s2: PageTable, s3: PageTable, s4: PageTable|
            #[trigger] kernel_map_steps(*old(pt), s1, s2, s3, s4, *final(pt), *image),
{
    let txt_pa = KERNEL_BASE;
    let txt_len = image.srodata - image.stext;
    let rod_pa = txt_pa + txt_len;
    let rod_len = image.sdata - image.srodata;
    let rest_pa = rod_pa + rod_len;
    let rest_len = PHY_STOP - rest_pa;
    proof {
        lemma_npages_bound(PLIC_BASE as u64, PLIC_MMAP_SIZE as u64);
        lemma_npages_bound(MMIO_BASE as u64, MMIO_MMAP_SIZE as u64);
        lemma_npages_bound(image.stext, txt_len);
        lemma_npages_bound(image.srodata, rod_len);
        lemma_npages_bound(image.sdata, rest_len);
        assert(txt_len / 4096 + rod_len / 4096 + rest_len / 4096 <= 0x7e00) by {
            vstd::arithmetic::div_mod::lemma_fundamental_div_mod(txt_len as int, 4096);
            vstd::arithmetic::div_mod::lemma_fundamental_div_mod(rod_len as int, 4096);
            vstd::arithmetic::div_mod::lemma_fundamental_div_mod(rest_len as int, 4096);
        }
    }
    proof {
        assert((2u64 | 4u64) & 0xe != 0 && (2u64 | 8u64) & 0xe != 0 && 2u64 & 0xe != 0) by (bit_vector);
        assert((2u64 | 4u64) < 1024 && (2u64 | 8u64) < 1024) by (bit_vector);
    }
    let ghost s0 = *pt;
    pt.kvmmap(PLIC_BASE as u64, PLIC_BASE as u64, PLIC_MMAP_SIZE as u64, PTE_R | PTE_W);
    let ghost s1 = *pt;
    pt.kvmmap(MMIO_BASE as u64, MMIO_BASE as u64, MMIO_MMAP_SIZE as u64, PTE_R | PTE_W);
    let ghost s2 = *pt;
    pt.kvmmap(image.stext, txt_pa, txt_len, PTE_R | PTE_X);
    let ghost s3 = *pt;
    pt.kvmmap(image.srodata, rod_pa, rod_len, PTE_R);
    let ghost s4 = *pt;
    pt.kvmmap(image.sdata, rest_pa, rest_len, PTE_R | PTE_W);
    proof {
        assert(kernel_map_steps(s0, s1, s2, s3, s4, *pt, *image));
    }
}

} // verus!
