//! The address-space manager: one four-level page-table tree built out of
//! frames handed out by the frame allocator. Each node is a frame of 512
//! entries; a non-leaf entry points at a child table, a leaf entry carries a
//! physical frame and its permission flags. An entry, once present, is never
//! overwritten unless the replacement is the identical mapping.

use vstd::prelude::*;

use crate::frame::{FrameAllocator, PAGE_SIZE};
use crate::system::{MemoryFlags, MemoryMapError};

verus! {

/// One entry of a page-table node: empty, a pointer to a child table (by its
/// position in the owning address space's table arena), or a leaf mapping.
#[derive(Clone, Copy, PartialEq, Eq, Structural, Debug)]
pub enum Entry {
    Empty,
    Table(usize),
    Leaf(u64, MemoryFlags),
}

/// One page-table node: the physical address of the frame that holds it, its
/// level in the tree (3 for the root down to 0 for the tables that hold leaf
/// mappings), and its 512 entries.
pub struct TableNode {
    pub phys: u64,
    pub level: usize,
    pub entries: Vec<Entry>,
}

/// One address space: a tree of page-table nodes rooted at `tables[0]`,
/// together with the frame allocator that feeds it. The tree maps virtual
/// pages to physical frames with permission flags.
pub struct AddressSpace {
    pub tables: Vec<TableNode>,
    pub alloc: FrameAllocator,
}

/// The 9-bit table index that a virtual address selects at the given level
/// of the walk: bits 39..47 at level 3 down to bits 12..20 at level 0.
pub open spec fn index_at(v: u64, level: int) -> int {
    if level == 3 {
        ((v as int) / 0x80_0000_0000) % 512
    } else if level == 2 {
        ((v as int) / 0x4000_0000) % 512
    } else if level == 1 {
        ((v as int) / 0x20_0000) % 512
    } else {
        ((v as int) / 0x1000) % 512
    }
}

/// Two virtual addresses select the same slot of the tree: all four walk
/// indices agree. Addresses of one page always share their slot.
pub open spec fn same_slot(a: u64, b: u64) -> bool {
    &&& index_at(a, 3) == index_at(b, 3)
    &&& index_at(a, 2) == index_at(b, 2)
    &&& index_at(a, 1) == index_at(b, 1)
    &&& index_at(a, 0) == index_at(b, 0)
}

/// A virtual address the four-level tree can hold without aliasing: the
/// canonical form the hardware accepts, lower or upper half.
pub open spec fn canonical(v: u64) -> bool {
    v < 0x8000_0000_0000 || v >= 0xffff_8000_0000_0000
}

/// Computes the walk index of `v` at `level`.
pub fn index_of(v: u64, level: usize) -> (r: usize)
    requires
        level <= 3,
    ensures
        r == index_at(v, level as int),
        r < 512,
{
    let shifted: u64 = if level == 3 {
        v / 0x80_0000_0000
    } else if level == 2 {
        v / 0x4000_0000
    } else if level == 1 {
        v / 0x20_0000
    } else {
        v / 0x1000
    };
    (shifted % 512) as usize
}

/// After a fresh, all-empty child table is hung off one previously empty
/// entry, every walk of the tree ends as it ended before: the walk either
/// never meets the changed entry, or it used to stop at the empty entry and
/// now stops one step later inside the empty child.
proof fn lemma_lookup_after_fresh_child(
    pre: AddressSpace,
    post: AddressSpace,
    t: int,
    i: int,
    nc: int,
    w: u64,
)
    requires
        pre.wf(),
        0 <= t < pre.tables.len(),
        0 <= i < 512,
        pre.ent(t, i) == Entry::Empty,
        post.tables.len() == pre.tables.len() + 1,
        nc == pre.tables.len(),
        post.tables[nc].entries.len() == 512,
        forall|j: int| 0 <= j < 512 ==> post.tables[nc].entries[j] == Entry::Empty,
        post.ent(t, i) == Entry::Table(nc as usize),
        forall|x: int, j: int|
            0 <= x < pre.tables.len() && 0 <= j < 512 && !(x == t && j == i) ==> post.ent(x, j)
                == pre.ent(x, j),
    ensures
        post.lookup(w) == pre.lookup(w),
{
    let i3 = index_at(w, 3);
    let i2 = index_at(w, 2);
    let i1 = index_at(w, 1);
    let i0 = index_at(w, 0);
    assert(pre.table_wf(0));
    if t == 0 && i == i3 {
        assert(post.tables[nc].entries[i2] == Entry::Empty);
    } else {
        assert(post.ent(0, i3) == pre.ent(0, i3));
        match pre.ent(0, i3) {
            Entry::Table(c3) => {
                assert(pre.entry_wf(0, i3));
                let c3 = c3 as int;
                assert(pre.table_wf(c3));
                if t == c3 && i == i2 {
                    assert(post.tables[nc].entries[i1] == Entry::Empty);
                } else {
                    assert(post.ent(c3, i2) == pre.ent(c3, i2));
                    match pre.ent(c3, i2) {
                        Entry::Table(c2) => {
                            assert(pre.entry_wf(c3, i2));
                            let c2 = c2 as int;
                            assert(pre.table_wf(c2));
                            if t == c2 && i == i1 {
                                assert(post.tables[nc].entries[i0] == Entry::Empty);
                            } else {
                                assert(post.ent(c2, i1) == pre.ent(c2, i1));
                                match pre.ent(c2, i1) {
                                    Entry::Table(c1) => {
                                        assert(pre.entry_wf(c2, i1));
                                        let c1 = c1 as int;
                                        assert(pre.table_wf(c1));
                                        if t == c1 && i == i0 {
                                            assert(post.lookup(w) is None);
                                        } else {
                                            assert(post.ent(c1, i0) == pre.ent(c1, i0));
                                        }
                                    },
                                    _ => {},
                                }
                            }
                        },
                        _ => {},
                    }
                }
            },
            _ => {},
        }
    }
}

/// How many whole pages a mapping request of `length` bytes covers: the
/// length rounded up to whole pages.
pub open spec fn spec_page_count(length: u64) -> int {
    (length / PAGE_SIZE) as int + if length % PAGE_SIZE != 0 {
        1int
    } else {
        0int
    }
}

/// The address of the `k`-th page of a range starting at `base`.
pub open spec fn page_addr(base: u64, k: int) -> u64 {
    (base + k * PAGE_SIZE) as u64
}

/// The virtual range `[to, to + length)` lies inside one canonical half of
/// the address space, so its pages exist in the four-level tree and no two
/// of them share a slot.
pub open spec fn spec_mappable(to: u64, length: u64) -> bool {
    ||| to + length <= 0x8000_0000_0000
    ||| (to >= 0xffff_8000_0000_0000 && to + length <= 0x1_0000_0000_0000_0000)
}

/// A mapping request that the tree accepts: both addresses page-aligned and
/// every page of the range either not mapped yet or already mapped to the
/// identical target.
pub open spec fn spec_map_accepts(
    s: AddressSpace,
    from: u64,
    to: u64,
    length: u64,
    flags: MemoryFlags,
) -> bool {
    &&& from % PAGE_SIZE == 0
    &&& to % PAGE_SIZE == 0
    &&& forall|k: int|
        0 <= k < spec_page_count(length) ==> (#[trigger] s.lookup(page_addr(to, k))) is None
            || s.lookup(page_addr(to, k)) == Some((page_addr(from, k), flags))
}

/// What a successful mapping request does to the tree: every page of the
/// range maps to its target, and every slot outside the range is untouched.
pub open spec fn spec_map_applied(
    pre: AddressSpace,
    post: AddressSpace,
    from: u64,
    to: u64,
    length: u64,
    flags: MemoryFlags,
) -> bool {
    &&& forall|k: int|
        0 <= k < spec_page_count(length) ==> #[trigger] post.lookup(page_addr(to, k)) == Some(
            (page_addr(from, k), flags),
        )
    &&& forall|w: u64|
        (forall|k: int| 0 <= k < spec_page_count(length) ==> !same_slot(w, page_addr(to, k)))
            ==> #[trigger] post.lookup(w) == pre.lookup(w)
}

/// Every page index below the page count stays inside the byte range.
proof fn lemma_page_in_range(length: u64, k: int)
    requires
        0 <= k < spec_page_count(length),
    ensures
        k * PAGE_SIZE < length,
{
    vstd::arithmetic::div_mod::lemma_fundamental_div_mod(length as int, PAGE_SIZE as int);
}

/// Offsetting an aligned base by whole pages keeps it aligned.
proof fn lemma_page_aligned(base: u64, k: int)
    requires
        base % PAGE_SIZE == 0,
        0 <= k,
        base + k * PAGE_SIZE <= u64::MAX,
    ensures
        page_addr(base, k) % PAGE_SIZE == 0,
{
    vstd::arithmetic::div_mod::lemma_mod_multiples_vanish(k, base as int, PAGE_SIZE as int);
}

/// Distinct canonical page-aligned addresses select distinct slots: the four
/// walk indices together with canonicity and alignment determine the address.
pub proof fn lemma_slot_injective(a: u64, b: u64)
    requires
        a % PAGE_SIZE == 0,
        b % PAGE_SIZE == 0,
        canonical(a),
        canonical(b),
        same_slot(a, b),
    ensures
        a == b,
{
    assert((a % 4096 == 0 && b % 4096 == 0 && (a < 0x8000_0000_0000 || a
        >= 0xffff_8000_0000_0000) && (b < 0x8000_0000_0000 || b >= 0xffff_8000_0000_0000) && a
        / 0x80_0000_0000 % 512 == b / 0x80_0000_0000 % 512 && a / 0x4000_0000 % 512 == b
        / 0x4000_0000 % 512 && a / 0x20_0000 % 512 == b / 0x20_0000 % 512 && a / 0x1000 % 512 == b
        / 0x1000 % 512) ==> a == b) by (bit_vector);
}

/// Two distinct pages of one mappable range never share a slot.
proof fn lemma_pages_distinct_slots(to: u64, length: u64, j: int, k: int)
    requires
        spec_mappable(to, length),
        to % PAGE_SIZE == 0,
        0 <= j < spec_page_count(length),
        0 <= k < spec_page_count(length),
        j != k,
    ensures
        !same_slot(page_addr(to, j), page_addr(to, k)),
{
    lemma_page_in_range(length, j);
    lemma_page_in_range(length, k);
    lemma_page_aligned(to, j);
    lemma_page_aligned(to, k);
    if same_slot(page_addr(to, j), page_addr(to, k)) {
        lemma_slot_injective(page_addr(to, j), page_addr(to, k));
        assert(false);
    }
}

/// Every page of a mappable range is canonical.
proof fn lemma_page_canonical(to: u64, length: u64, k: int)
    requires
        spec_mappable(to, length),
        0 <= k < spec_page_count(length),
    ensures
        canonical(page_addr(to, k)),
        to + k * PAGE_SIZE < 0x1_0000_0000_0000_0000,
{
    lemma_page_in_range(length, k);
}

/// The slot of page `k` is untouched while pages before `k` are applied.
proof fn lemma_slot_still_fresh(
    pre: AddressSpace,
    mid: AddressSpace,
    to: u64,
    length: u64,
    k: int,
)
    requires
        to % PAGE_SIZE == 0,
        spec_mappable(to, length),
        0 <= k < spec_page_count(length),
        forall|w: u64|
            (forall|j: int| 0 <= j < k ==> !same_slot(w, page_addr(to, j))) ==> #[trigger] mid.lookup(w)
                == pre.lookup(w),
    ensures
        mid.lookup(page_addr(to, k)) == pre.lookup(page_addr(to, k)),
{
    assert forall|j: int| 0 <= j < k implies !same_slot(page_addr(to, k), page_addr(to, j)) by {
        lemma_pages_distinct_slots(to, length, k, j);
    }
}

/// Applying page `k` extends the applied prefix by one and keeps every slot
/// outside the whole prefix untouched.
proof fn lemma_map_step(
    pre: AddressSpace,
    mid: AddressSpace,
    post: AddressSpace,
    from: u64,
    to: u64,
    length: u64,
    flags: MemoryFlags,
    k: int,
)
    requires
        from % PAGE_SIZE == 0,
        to % PAGE_SIZE == 0,
        spec_mappable(to, length),
        0 <= k < spec_page_count(length),
        forall|j: int|
            0 <= j < k ==> #[trigger] mid.lookup(page_addr(to, j)) == Some(
                (page_addr(from, j), flags),
            ),
        forall|w: u64|
            (forall|j: int| 0 <= j < k ==> !same_slot(w, page_addr(to, j))) ==> #[trigger] mid.lookup(w)
                == pre.lookup(w),
        post.lookup(page_addr(to, k)) == Some((page_addr(from, k), flags)),
        forall|w: u64|
            !same_slot(w, page_addr(to, k)) ==> #[trigger] post.lookup(w) == mid.lookup(w),
    ensures
        forall|j: int|
            0 <= j < k + 1 ==> #[trigger] post.lookup(page_addr(to, j)) == Some(
                (page_addr(from, j), flags),
            ),
        forall|w: u64|
            (forall|j: int| 0 <= j < k + 1 ==> !same_slot(w, page_addr(to, j)))
                ==> #[trigger] post.lookup(w) == pre.lookup(w),
{
    assert forall|j: int| 0 <= j < k + 1 implies #[trigger] post.lookup(page_addr(to, j)) == Some(
        (page_addr(from, j), flags),
    ) by {
        if j < k {
            lemma_pages_distinct_slots(to, length, j, k);
            assert(post.lookup(page_addr(to, j)) == mid.lookup(page_addr(to, j)));
        }
    }
    assert forall|w: u64|
        (forall|j: int| 0 <= j < k + 1 ==> !same_slot(w, page_addr(to, j))) implies #[trigger] post.lookup(
        w,
    ) == pre.lookup(w) by {
        if forall|j: int| 0 <= j < k + 1 ==> !same_slot(w, page_addr(to, j)) {
            assert(!same_slot(w, page_addr(to, k as int)));
            assert(post.lookup(w) == mid.lookup(w));
            assert(forall|j: int| 0 <= j < k ==> !same_slot(w, page_addr(to, j)));
        }
    }
}

/// Two spaces whose tables hold entry-for-entry the same contents resolve
/// every address alike, whatever their frames' physical addresses are.
proof fn lemma_lookup_same_entries(s1: AddressSpace, s2: AddressSpace, w: u64)
    requires
        s1.wf(),
        s2.tables.len() == s1.tables.len(),
        forall|x: int|
            0 <= x < s1.tables.len() ==> (#[trigger] s2.tables[x].entries)@ == s1.tables[x].entries@,
    ensures
        s2.lookup(w) == s1.lookup(w),
{
    assert(s1.table_wf(0));
    match s1.ent(0, index_at(w, 3)) {
        Entry::Table(c3) => {
            assert(s1.entry_wf(0, index_at(w, 3)));
            let c3 = c3 as int;
            assert(s1.table_wf(c3));
            match s1.ent(c3, index_at(w, 2)) {
                Entry::Table(c2) => {
                    assert(s1.entry_wf(c3, index_at(w, 2)));
                    let c2 = c2 as int;
                    assert(s1.table_wf(c2));
                    match s1.ent(c2, index_at(w, 1)) {
                        Entry::Table(c1) => {
                            assert(s1.entry_wf(c2, index_at(w, 1)));
                            let c1 = c1 as int;
                            assert(s1.table_wf(c1));
                            assert(s2.ent(c1, index_at(w, 0)) == s1.ent(c1, index_at(w, 0)));
                        },
                        _ => {},
                    }
                },
                _ => {},
            }
        },
        _ => {},
    }
}

/// Idempotent re-mapping: a request that was just applied in full is
/// accepted again, and applying it again changes no mapping at all.
pub proof fn lemma_remap_idempotent(
    pre: AddressSpace,
    mid: AddressSpace,
    post: AddressSpace,
    from: u64,
    to: u64,
    length: u64,
    flags: MemoryFlags,
)
    requires
        spec_map_applied(pre, mid, from, to, length, flags),
        spec_map_applied(mid, post, from, to, length, flags),
        from % PAGE_SIZE == 0,
        to % PAGE_SIZE == 0,
    ensures
        spec_map_accepts(mid, from, to, length, flags),
        forall|w: u64| #[trigger] post.lookup(w) == mid.lookup(w),
{
    assert forall|w: u64| #[trigger] post.lookup(w) == mid.lookup(w) by {
        if exists|k: int|
            0 <= k < spec_page_count(length) && #[trigger] same_slot(w, page_addr(to, k)) {
            let k = choose|k: int|
                0 <= k < spec_page_count(length) && #[trigger] same_slot(w, page_addr(to, k));
            lemma_lookup_same_slot(mid, w, page_addr(to, k));
            lemma_lookup_same_slot(post, w, page_addr(to, k));
        } else {
            assert(forall|k: int|
                0 <= k < spec_page_count(length) ==> !#[trigger] same_slot(w, page_addr(to, k)));
        }
    }
}

/// Mapping a different target over an existing page is rejected; and since a
/// rejected request changes nothing, an identical retry is rejected again.
pub proof fn lemma_conflicting_remap_rejected(
    s: AddressSpace,
    from: u64,
    to: u64,
    length: u64,
    flags: MemoryFlags,
    k: int,
)
    requires
        0 <= k < spec_page_count(length),
        s.lookup(page_addr(to, k)) is Some,
        s.lookup(page_addr(to, k)) != Some((page_addr(from, k), flags)),
    ensures
        !spec_map_accepts(s, from, to, length, flags),
{
}

/// A walk reads only the slot its address selects: two addresses of the same
/// slot always resolve to the same mapping.
pub proof fn lemma_lookup_same_slot(s: AddressSpace, a: u64, b: u64)
    requires
        same_slot(a, b),
    ensures
        s.lookup(a) == s.lookup(b),
{
}

/// After one leaf entry of the slot of `virt` is changed, every walk that is
/// not of that slot ends as it ended before: either it diverges from the
/// changed path at some level, or — by uniqueness of parents — it would have
/// to share all four indices with `virt`.
proof fn lemma_lookup_after_leaf_set(
    pre: AddressSpace,
    post: AddressSpace,
    virt: u64,
    c3: int,
    c2: int,
    c1: int,
    w: u64,
)
    requires
        pre.wf(),
        pre.points_to(0, index_at(virt, 3), c3),
        pre.points_to(c3, index_at(virt, 2), c2),
        pre.points_to(c2, index_at(virt, 1), c1),
        post.tables.len() == pre.tables.len(),
        forall|x: int, j: int|
            0 <= x < pre.tables.len() && 0 <= j < 512 && !(x == c1 && j == index_at(virt, 0))
                ==> post.ent(x, j) == pre.ent(x, j),
        !same_slot(w, virt),
    ensures
        post.lookup(w) == pre.lookup(w),
{
    let i3 = index_at(virt, 3);
    let i2 = index_at(virt, 2);
    let i1 = index_at(virt, 1);
    let i0 = index_at(virt, 0);
    let j3 = index_at(w, 3);
    let j2 = index_at(w, 2);
    let j1 = index_at(w, 1);
    let j0 = index_at(w, 0);
    assert(pre.table_wf(0));
    assert(pre.entry_wf(0, i3));
    assert(pre.table_wf(c3));
    assert(pre.entry_wf(c3, i2));
    assert(pre.table_wf(c2));
    assert(pre.entry_wf(c2, i1));
    assert(pre.tables[c1].level == 0);
    assert(1 <= c1);
    assert(post.ent(0, j3) == pre.ent(0, j3));
    match pre.ent(0, j3) {
        Entry::Table(d3) => {
            assert(pre.entry_wf(0, j3));
            let d3 = d3 as int;
            assert(pre.table_wf(d3));
            assert(pre.tables[d3].level == 2);
            assert(post.ent(d3, j2) == pre.ent(d3, j2));
            match pre.ent(d3, j2) {
                Entry::Table(d2) => {
                    assert(pre.entry_wf(d3, j2));
                    let d2 = d2 as int;
                    assert(pre.table_wf(d2));
                    assert(pre.tables[d2].level == 1);
                    assert(post.ent(d2, j1) == pre.ent(d2, j1));
                    match pre.ent(d2, j1) {
                        Entry::Table(d1) => {
                            assert(pre.entry_wf(d2, j1));
                            let d1 = d1 as int;
                            assert(pre.table_wf(d1));
                            assert(pre.tables[d1].level == 0);
                            if d1 == c1 && j0 == i0 {
                                // the whole parent chain is then forced to
                                // coincide with the chain of `virt`
                                assert(pre.points_to(d2, j1, c1));
                                assert(pre.points_to(c2, i1, c1));
                                assert(d2 == c2 && j1 == i1);
                                assert(pre.points_to(d3, j2, c2));
                                assert(pre.points_to(c3, i2, c2));
                                assert(d3 == c3 && j2 == i2);
                                assert(pre.points_to(0, j3, c3));
                                assert(pre.points_to(0, i3, c3));
                                assert(j3 == i3);
                                assert(same_slot(w, virt));
                                assert(false);
                            } else {
                                assert(post.ent(d1, j0) == pre.ent(d1, j0));
                            }
                        },
                        _ => {},
                    }
                },
                _ => {},
            }
        },
        _ => {},
    }
}

impl AddressSpace {
    /// The entry of table `t` at index `i`.
    pub open spec fn ent(self, t: int, i: int) -> Entry {
        self.tables[t].entries[i]
    }

    /// Table `t`, in isolation, is a well-formed node: 512 entries, a
    /// page-aligned frame, children one level below it and leaves only at
    /// level 0.
    pub open spec fn table_wf(self, t: int) -> bool {
        &&& self.tables[t].entries.len() == 512
        &&& self.tables[t].level <= 3
        &&& self.tables[t].phys % PAGE_SIZE == 0
        &&& forall|i: int| 0 <= i < 512 ==> self.entry_wf(t, i)
    }

    /// The entry of table `t` at index `i` is well-formed.
    pub open spec fn entry_wf(self, t: int, i: int) -> bool {
        match self.tables[t].entries[i] {
            Entry::Empty => true,
            Entry::Table(c) => {
                &&& self.tables[t].level >= 1
                &&& 1 <= c < self.tables.len()
                &&& self.tables[c as int].level == self.tables[t].level - 1
            },
            Entry::Leaf(p, f) => {
                &&& self.tables[t].level == 0
                &&& p % PAGE_SIZE == 0
            },
        }
    }

    /// Entry `i` of table `t` points at child table `c`.
    pub open spec fn points_to(self, t: int, i: int, c: int) -> bool {
        &&& 0 <= t < self.tables.len()
        &&& 0 <= i < 512
        &&& self.tables[t].entries[i] matches Entry::Table(cc) && cc as int == c
    }

    /// Every table has at most one parent entry: the tree has no sharing, so
    /// a mutation through one path is invisible to every other path.
    pub open spec fn parents_unique(self) -> bool {
        forall|t1: int, i1: int, t2: int, i2: int, c: int|
            #![trigger self.points_to(t1, i1, c), self.points_to(t2, i2, c)]
            self.points_to(t1, i1, c) && self.points_to(t2, i2, c) ==> t1 == t2 && i1 == i2
    }

    /// The whole address space is well-formed.
    pub open spec fn wf(self) -> bool {
        &&& self.alloc.wf()
        &&& 1 <= self.tables.len()
        &&& self.tables[0].level == 3
        &&& forall|t: int| 0 <= t < self.tables.len() ==> #[trigger] self.table_wf(t)
        &&& self.parents_unique()
    }

    /// The mapping the tree holds for the page of virtual address `v`: the
    /// result of the four-step walk, `None` wherever it meets an empty entry.
    pub open spec fn lookup(self, v: u64) -> Option<(u64, MemoryFlags)> {
        match self.tables[0].entries[index_at(v, 3)] {
            Entry::Table(c3) => match self.tables[c3 as int].entries[index_at(v, 2)] {
                Entry::Table(c2) => match self.tables[c2 as int].entries[index_at(v, 1)] {
                    Entry::Table(c1) => match self.tables[c1 as int].entries[index_at(v, 0)] {
                        Entry::Leaf(p, f) => Some((p, f)),
                        _ => None,
                    },
                    _ => None,
                },
                _ => None,
            },
            _ => None,
        }
    }

    /// The physical address of the root frame: what activation installs in
    /// the hardware's table-base register.
    pub open spec fn spec_root_phys(self) -> u64 {
        self.tables[0].phys
    }

    /// A fresh, empty address space: allocates the root frame from the given
    /// allocator and initializes it as an empty table.
    pub fn new(alloc: FrameAllocator) -> (r: AddressSpace)
        requires
            alloc.wf(),
            alloc.spec_next() < alloc.spec_end(),
        ensures
            r.wf(),
            forall|v: u64| r.lookup(v) is None,
            r.spec_root_phys() == alloc.spec_next(),
            r.alloc.spec_next() == alloc.spec_next() + PAGE_SIZE,
            r.alloc.spec_end() == alloc.spec_end(),
            r.alloc.spec_offset() == alloc.spec_offset(),
            r.tables.len() == 1,
    {
        let mut alloc = alloc;
        let phys = alloc.allocate();
        let mut entries: Vec<Entry> = Vec::new();
        let mut k: usize = 0;
        while k < 512
            invariant
                k <= 512,
                entries.len() == k,
                forall|i: int| 0 <= i < k ==> entries[i] == Entry::Empty,
            decreases 512 - k,
        {
            entries.push(Entry::Empty);
            k = k + 1;
        }
        let root = TableNode { phys, level: 3, entries };
        let mut tables: Vec<TableNode> = Vec::new();
        tables.push(root);
        let r = AddressSpace { tables, alloc };
        proof {
            assert forall|t: int| 0 <= t < r.tables.len() implies #[trigger] r.table_wf(t) by {
                assert forall|i: int| 0 <= i < 512 implies r.entry_wf(t, i) by {
                    assert(r.tables[t].entries[i] == Entry::Empty);
                }
            }
            assert forall|v: u64| r.lookup(v) is None by {
                assert(r.tables[0].entries[index_at(v, 3)] == Entry::Empty);
            }
        }
        r
    }

    /// 512 empty entries: the contents of a freshly allocated, zero-filled
    /// table frame.
    fn empty_entries() -> (r: Vec<Entry>)
        ensures
            r.len() == 512,
            forall|i: int| 0 <= i < 512 ==> r[i] == Entry::Empty,
    {
        let mut entries: Vec<Entry> = Vec::new();
        let mut k: usize = 0;
        while k < 512
            invariant
                k <= 512,
                entries.len() == k,
                forall|i: int| 0 <= i < k ==> entries[i] == Entry::Empty,
            decreases 512 - k,
        {
            entries.push(Entry::Empty);
            k = k + 1;
        }
        entries
    }

    /// Walks one level down from table `t` at index `i`, allocating the
    /// intermediate table on demand: afterwards the entry points at a child
    /// one level below `t`, and no mapping of the tree has changed.
    fn ensure_child(&mut self, t: usize, i: usize) -> (c: usize)
        requires
            old(self).wf(),
            t < old(self).tables.len(),
            i < 512,
            old(self).tables[t as int].level >= 1,
            old(self).alloc.spec_next() < old(self).alloc.spec_end(),
        ensures
            final(self).wf(),
            final(self).alloc.spec_end() == old(self).alloc.spec_end(),
            final(self).alloc.spec_offset() == old(self).alloc.spec_offset(),
            old(self).alloc.spec_next() <= final(self).alloc.spec_next()
                <= old(self).alloc.spec_next() + PAGE_SIZE,
            old(self).tables.len() <= final(self).tables.len(),
            1 <= c < final(self).tables.len(),
            final(self).tables[c as int].level == old(self).tables[t as int].level - 1,
            final(self).ent(t as int, i as int) == Entry::Table(c),
            forall|x: int| 0 <= x < old(self).tables.len() ==> final(self).tables[x].level
                == old(self).tables[x].level && final(self).tables[x].phys == old(
            self,
            ).tables[x].phys,
            forall|x: int, j: int|
                0 <= x < old(self).tables.len() && 0 <= j < 512 && !(x == t && j == i)
                    ==> final(self).ent(x, j) == old(self).ent(x, j),
            forall|w: u64| final(self).lookup(w) == old(self).lookup(w),
    {
        proof {
            assert(self.table_wf(t as int));
            assert(self.entry_wf(t as int, i as int));
        }
        let e = self.tables[t].entries[i];
        match e {
            Entry::Table(c) => c,
            Entry::Leaf(p, f) => {
                proof {
                    assert(false);
                }
                0
            },
            Entry::Empty => {
                let phys = self.alloc.allocate();
                let entries = Self::empty_entries();
                let level = self.tables[t].level - 1;
                let nc = self.tables.len();
                self.tables.push(TableNode { phys, level, entries });
                let node = &mut self.tables[t];
                node.entries[i] = Entry::Table(nc);
                proof {
                    let pre = *old(self);
                    let post = *self;
                    assert forall|x: int, j: int|
                        0 <= x < pre.tables.len() && 0 <= j < 512 && !(x == t && j == i)
                            implies post.ent(x, j) == pre.ent(x, j) by {
                        assert(pre.table_wf(x));
                    }
                    // every old table keeps its shape; the new one is empty
                    assert forall|x: int| 0 <= x < post.tables.len()
                        implies #[trigger] post.table_wf(x) by {
                        if x < pre.tables.len() {
                            assert(pre.table_wf(x));
                            assert forall|j: int| 0 <= j < 512 implies post.entry_wf(x, j) by {
                                if x == t && j == i {
                                } else {
                                    assert(pre.entry_wf(x, j));
                                    assert(post.ent(x, j) == pre.ent(x, j));
                                }
                            }
                        } else {
                            assert(x == nc);
                            assert forall|j: int| 0 <= j < 512 implies post.entry_wf(x, j) by {
                                assert(post.tables[x].entries[j] == Entry::Empty);
                            }
                        }
                    }
                    // no table gained a second parent
                    assert forall|t1: int, i1: int, t2: int, i2: int, cx: int|
                        post.points_to(t1, i1, cx) && post.points_to(t2, i2, cx) implies t1 == t2
                        && i1 == i2 by {
                        if post.points_to(t1, i1, cx) && post.points_to(t2, i2, cx) {
                            if t1 == nc {
                                assert(post.tables[t1].entries[i1] == Entry::Empty);
                                assert(false);
                            }
                            if t2 == nc {
                                assert(post.tables[t2].entries[i2] == Entry::Empty);
                                assert(false);
                            }
                            if t1 == t && i1 == i {
                                assert(cx == nc);
                            } else {
                                assert(post.ent(t1, i1) == pre.ent(t1, i1));
                                assert(pre.points_to(t1, i1, cx));
                                assert(pre.table_wf(t1));
                                assert(pre.entry_wf(t1, i1));
                                assert(cx < pre.tables.len());
                            }
                            if t2 == t && i2 == i {
                                assert(cx == nc);
                            } else {
                                assert(post.ent(t2, i2) == pre.ent(t2, i2));
                                assert(pre.points_to(t2, i2, cx));
                                assert(pre.table_wf(t2));
                                assert(pre.entry_wf(t2, i2));
                                assert(cx < pre.tables.len());
                            }
                        }
                    }
                    assert(post.wf());
                    // the fresh table is empty, so every walk still ends as before
                    assert forall|w: u64| post.lookup(w) == pre.lookup(w) by {
                        lemma_lookup_after_fresh_child(pre, post, t as int, i as int, nc as int, w);
                    }
                }
                nc
            },
        }
    }

    /// Maps one page: hangs `Leaf(phys, flags)` into the slot of `virt`,
    /// allocating the intermediate tables on demand. Re-mapping the identical
    /// target is accepted as a no-op; a different target is a conflict and
    /// changes no mapping.
    pub fn map_page(&mut self, phys: u64, virt: u64, flags: MemoryFlags) -> (r: Result<
        (),
        MemoryMapError,
    >)
        requires
            old(self).wf(),
            phys % PAGE_SIZE == 0,
            virt % PAGE_SIZE == 0,
            old(self).alloc.spec_end() - old(self).alloc.spec_next() >= 3 * PAGE_SIZE,
        ensures
            final(self).wf(),
            final(self).alloc.spec_end() == old(self).alloc.spec_end(),
            final(self).alloc.spec_offset() == old(self).alloc.spec_offset(),
            old(self).alloc.spec_next() <= final(self).alloc.spec_next() <= old(
                self,
            ).alloc.spec_next() + 3 * PAGE_SIZE,
            final(self).spec_root_phys() == old(self).spec_root_phys(),
            r is Ok <==> (old(self).lookup(virt) is None || old(self).lookup(virt) == Some(
                (phys, flags),
            )),
            r is Ok ==> final(self).lookup(virt) == Some((phys, flags)) && (forall|w: u64|
                !same_slot(w, virt) ==> final(self).lookup(w) == old(self).lookup(w)),
            r is Err ==> r == Err::<(), MemoryMapError>(MemoryMapError::AlreadyMapped(virt, phys))
                && (forall|w: u64| final(self).lookup(w) == old(self).lookup(w)),
    {
        let ghost s0 = *old(self);
        let i3 = index_of(virt, 3);
        let i2 = index_of(virt, 2);
        let i1 = index_of(virt, 1);
        let i0 = index_of(virt, 0);
        let c3 = self.ensure_child(0, i3);
        let ghost s1 = *self;
        proof {
            assert(s0.table_wf(0));
            assert(s1.tables[c3 as int].level == 2);
        }
        let c2 = self.ensure_child(c3, i2);
        let ghost s2 = *self;
        let c1 = self.ensure_child(c2, i1);
        let ghost s3 = *self;
        proof {
            // the chain of `virt` stands in s3, and levels tell its tables apart
            assert(s2.tables[c3 as int].level == 2);
            assert(s2.tables[c2 as int].level == 1);
            assert(s3.tables[c3 as int].level == 2);
            assert(s3.tables[c2 as int].level == 1);
            assert(s3.tables[c1 as int].level == 0);
            assert(s3.ent(0, i3 as int) == Entry::Table(c3));
            assert(s3.ent(c3 as int, i2 as int) == Entry::Table(c2));
            assert(s3.ent(c2 as int, i1 as int) == Entry::Table(c1));
            assert(forall|w: u64| s3.lookup(w) == s0.lookup(w));
            assert(s3.table_wf(c1 as int));
        }
        let e = self.tables[c1].entries[i0];
        match e {
            Entry::Empty => {
                proof {
                    assert(s3.lookup(virt) is None);
                }
                let node = &mut self.tables[c1];
                node.entries[i0] = Entry::Leaf(phys, flags);
                proof {
                    let post = *self;
                    assert forall|x: int, j: int|
                        0 <= x < s3.tables.len() && 0 <= j < 512 && !(x == c1 && j == i0)
                            implies post.ent(x, j) == s3.ent(x, j) by {
                        assert(s3.table_wf(x));
                    }
                    assert forall|x: int| 0 <= x < post.tables.len()
                        implies #[trigger] post.table_wf(x) by {
                        assert(s3.table_wf(x));
                        assert forall|j: int| 0 <= j < 512 implies post.entry_wf(x, j) by {
                            if x == c1 && j == i0 {
                            } else {
                                assert(s3.entry_wf(x, j));
                                assert(post.ent(x, j) == s3.ent(x, j));
                            }
                        }
                    }
                    assert forall|t1: int, ii1: int, t2: int, ii2: int, cx: int|
                        post.points_to(t1, ii1, cx) && post.points_to(t2, ii2, cx) implies t1 == t2
                        && ii1 == ii2 by {
                        if post.points_to(t1, ii1, cx) && post.points_to(t2, ii2, cx) {
                            assert(post.ent(t1, ii1) == s3.ent(t1, ii1));
                            assert(post.ent(t2, ii2) == s3.ent(t2, ii2));
                            assert(s3.points_to(t1, ii1, cx));
                            assert(s3.points_to(t2, ii2, cx));
                        }
                    }
                    assert(post.wf());
                    assert(post.ent(0, i3 as int) == Entry::Table(c3));
                    assert(post.ent(c3 as int, i2 as int) == Entry::Table(c2));
                    assert(post.ent(c2 as int, i1 as int) == Entry::Table(c1));
                    assert(post.ent(c1 as int, i0 as int) == Entry::Leaf(phys, flags));
                    assert(post.lookup(virt) == Some((phys, flags)));
                    assert forall|w: u64| !same_slot(w, virt) implies post.lookup(w) == s3.lookup(
                        w,
                    ) by {
                        assert(s3.points_to(0, index_at(virt, 3), c3 as int));
                        assert(s3.points_to(c3 as int, index_at(virt, 2), c2 as int));
                        assert(s3.points_to(c2 as int, index_at(virt, 1), c1 as int));
                        lemma_lookup_after_leaf_set(
                            s3,
                            post,
                            virt,
                            c3 as int,
                            c2 as int,
                            c1 as int,
                            w,
                        );
                    }
                }
                Ok(())
            },
            Entry::Leaf(p, f) => {
                proof {
                    assert(s3.lookup(virt) == Some((p, f)));
                }
                if p == phys && f == flags {
                    Ok(())
                } else {
                    Err(MemoryMapError::AlreadyMapped(virt, phys))
                }
            },
            Entry::Table(_) => {
                proof {
                    assert(s3.entry_wf(c1 as int, i0 as int));
                    assert(false);
                }
                Err(MemoryMapError::AlreadyMapped(virt, phys))
            },
        }
    }

    /// Maps the physical range starting at `from` onto the virtual range
    /// starting at `to`, `length` bytes rounded up to whole pages, one leaf
    /// entry per page, allocating every needed intermediate table on demand.
    ///
    /// The request is validated before any table is touched: a non-aligned
    /// address is rejected with `InvalidAlignment`, a page already mapped to
    /// a different target with `AlreadyMapped`; a rejected request changes
    /// nothing. Re-mapping an identical range is accepted and is a no-op.
    #[verifier::rlimit(100)]
    pub fn map(&mut self, from: u64, to: u64, length: u64, flags: MemoryFlags) -> (r: Result<
        (),
        MemoryMapError,
    >)
        requires
            old(self).wf(),
            spec_mappable(to, length),
            from + length <= 0x10_0000_0000_0000,
            old(self).alloc.spec_end() - old(self).alloc.spec_next() >= 3 * PAGE_SIZE
                * spec_page_count(length),
        ensures
            final(self).wf(),
            final(self).alloc.spec_end() == old(self).alloc.spec_end(),
            final(self).alloc.spec_offset() == old(self).alloc.spec_offset(),
            final(self).spec_root_phys() == old(self).spec_root_phys(),
            r is Ok <==> spec_map_accepts(*old(self), from, to, length, flags),
            r is Ok ==> spec_map_applied(*old(self), *final(self), from, to, length, flags),
            r is Err ==> *final(self) == *old(self),
            from % PAGE_SIZE != 0 ==> r == Err::<(), MemoryMapError>(
                MemoryMapError::InvalidAlignment(from),
            ),
            from % PAGE_SIZE == 0 && to % PAGE_SIZE != 0 ==> r == Err::<(), MemoryMapError>(
                MemoryMapError::InvalidAlignment(to),
            ),
            r matches Err(MemoryMapError::AlreadyMapped(v, p)) ==> exists|k: int|
                0 <= k < spec_page_count(length) && v == page_addr(to, k) && p == page_addr(
                    from,
                    k,
                ) && (#[trigger] old(self).lookup(page_addr(to, k))) is Some && old(self).lookup(
                    page_addr(to, k),
                ) != Some((page_addr(from, k), flags)),
    {
        if from % PAGE_SIZE != 0 {
            return Err(MemoryMapError::InvalidAlignment(from));
        }
        if to % PAGE_SIZE != 0 {
            return Err(MemoryMapError::InvalidAlignment(to));
        }
        let pages: u64 = length / PAGE_SIZE + (
        if length % PAGE_SIZE != 0 {
            1
        } else {
            0
        });
        let ghost pre = *old(self);
        // validation pass: nothing is mutated until the whole range is known
        // to be conflict-free
        let mut k: u64 = 0;
        while k < pages
            invariant
                *self == pre,
                pre.wf(),
                to % PAGE_SIZE == 0,
                from % PAGE_SIZE == 0,
                spec_mappable(to, length),
                from + length <= 0x10_0000_0000_0000,
                pages == spec_page_count(length),
                k <= pages,
                forall|j: int|
                    0 <= j < k ==> (#[trigger] pre.lookup(page_addr(to, j))) is None
                        || pre.lookup(page_addr(to, j)) == Some((page_addr(from, j), flags)),
            decreases pages - k,
        {
            proof {
                lemma_page_in_range(length, k as int);
            }
            let vp = to + k * PAGE_SIZE;
            let pp = from + k * PAGE_SIZE;
            match self.translate(vp) {
                Some((p, f)) => {
                    if !(p == pp && f == flags) {
                        proof {
                            assert(pre.lookup(page_addr(to, k as int)) is Some);
                            assert(pre.lookup(page_addr(to, k as int)) != Some(
                                (page_addr(from, k as int), flags),
                            ));
                        }
                        return Err(MemoryMapError::AlreadyMapped(vp, pp));
                    }
                },
                None => {},
            }
            k = k + 1;
        }
        proof {
            assert(spec_map_accepts(pre, from, to, length, flags));
        }
        // apply pass: each page is hung into its own slot
        let mut k: u64 = 0;
        while k < pages
            invariant
                self.wf(),
                self.alloc.spec_end() == pre.alloc.spec_end(),
                self.alloc.spec_offset() == pre.alloc.spec_offset(),
                self.spec_root_phys() == pre.spec_root_phys(),
                self.alloc.spec_end() - self.alloc.spec_next() >= 3 * PAGE_SIZE * (pages - k),
                pre.wf(),
                to % PAGE_SIZE == 0,
                from % PAGE_SIZE == 0,
                spec_mappable(to, length),
                from + length <= 0x10_0000_0000_0000,
                pages == spec_page_count(length),
                k <= pages,
                spec_map_accepts(pre, from, to, length, flags),
                forall|j: int|
                    0 <= j < k ==> #[trigger] self.lookup(page_addr(to, j)) == Some(
                        (page_addr(from, j), flags),
                    ),
                forall|w: u64|
                    (forall|j: int| 0 <= j < k ==> !same_slot(w, page_addr(to, j)))
                        ==> #[trigger] self.lookup(w) == pre.lookup(w),
            decreases pages - k,
        {
            proof {
                lemma_page_in_range(length, k as int);
                lemma_page_aligned(to, k as int);
                lemma_page_aligned(from, k as int);
                lemma_page_canonical(to, length, k as int);
            }
            let vp = to + k * PAGE_SIZE;
            let pp = from + k * PAGE_SIZE;
            let ghost mid = *self;
            proof {
                // the slot of page k is untouched so far, so its mapping is
                // still what validation saw
                lemma_slot_still_fresh(pre, mid, to, length, k as int);
                assert(3 * PAGE_SIZE * (pages - k) >= 3 * PAGE_SIZE) by (nonlinear_arith)
                    requires
                        pages - k >= 1,
                ;
                assert(self.alloc.spec_end() - self.alloc.spec_next() >= 3 * PAGE_SIZE);
            }
            let res = self.map_page(pp, vp, flags);
            proof {
                assert(res is Ok);
                lemma_map_step(pre, mid, *self, from, to, length, flags, k as int);
            }
            match res {
                Ok(()) => {},
                Err(e) => {
                    return Err(e);
                },
            }
            proof {
                assert(3 * PAGE_SIZE * (pages - (k + 1)) == 3 * PAGE_SIZE * (pages - k) - 3
                    * PAGE_SIZE) by (nonlinear_arith);
            }
            k = k + 1;
        }
        Ok(())
    }

    /// Activation's computed part: the root-frame physical address to
    /// install as the current core's active table. The caller must perform
    /// the install and invalidate every cached translation of that core
    /// before relying on the mappings; installing a partially built table
    /// is unsafe, so only a well-formed space offers it.
    pub fn activate(&self) -> (r: u64)
        requires
            self.wf(),
        ensures
            r == self.spec_root_phys(),
    {
        self.tables[0].phys
    }

    /// The physical address of the root frame.
    pub fn root_phys(&self) -> (r: u64)
        requires
            self.wf(),
        ensures
            r == self.spec_root_phys(),
    {
        self.tables[0].phys
    }

    /// Derives a new address space from this one: a fresh root frame is
    /// allocated from the given allocator and filled with the root's
    /// contents, so the new space holds exactly the mappings of this one
    /// while being independently owned. Used to give a user process the
    /// kernel's own mappings as its starting point.
    pub fn clone_shallow(&self, alloc: FrameAllocator) -> (r: AddressSpace)
        requires
            self.wf(),
            alloc.wf(),
            alloc.spec_next() < alloc.spec_end(),
        ensures
            r.wf(),
            forall|w: u64| #[trigger] r.lookup(w) == self.lookup(w),
            r.spec_root_phys() == alloc.spec_next(),
            r.alloc.spec_next() == alloc.spec_next() + PAGE_SIZE,
            r.alloc.spec_end() == alloc.spec_end(),
            r.alloc.spec_offset() == alloc.spec_offset(),
    {
        let mut alloc = alloc;
        let root_phys = alloc.allocate();
        let mut tables: Vec<TableNode> = Vec::new();
        let mut t: usize = 0;
        while t < self.tables.len()
            invariant
                self.wf(),
                t <= self.tables.len(),
                tables.len() == t,
                root_phys % PAGE_SIZE == 0,
                forall|x: int|
                    0 <= x < t ==> (#[trigger] tables[x]).level == self.tables[x].level
                        && tables[x].entries@ == self.tables[x].entries@ && tables[x].phys == (
                    if x == 0 {
                        root_phys
                    } else {
                        self.tables[x].phys
                    }),
            decreases self.tables.len() - t,
        {
            proof {
                assert(self.table_wf(t as int));
            }
            let mut entries: Vec<Entry> = Vec::new();
            let mut j: usize = 0;
            while j < 512
                invariant
                    j <= 512,
                    entries.len() == j,
                    t < self.tables.len(),
                    self.tables[t as int].entries.len() == 512,
                    forall|i: int| 0 <= i < j ==> entries[i] == self.tables[t as int].entries[i],
                decreases 512 - j,
            {
                entries.push(self.tables[t].entries[j]);
                j = j + 1;
            }
            proof {
                assert(entries@ =~= self.tables[t as int].entries@);
            }
            let phys = if t == 0 {
                root_phys
            } else {
                self.tables[t].phys
            };
            let level = self.tables[t].level;
            tables.push(TableNode { phys, level, entries });
            t = t + 1;
        }
        let r = AddressSpace { tables, alloc };
        proof {
            assert forall|x: int| 0 <= x < r.tables.len() implies #[trigger] r.table_wf(x) by {
                assert(self.table_wf(x));
                assert forall|j: int| 0 <= j < 512 implies r.entry_wf(x, j) by {
                    assert(self.entry_wf(x, j));
                    assert(r.ent(x, j) == self.ent(x, j));
                }
            }
            assert forall|t1: int, i1: int, t2: int, i2: int, c: int|
                r.points_to(t1, i1, c) && r.points_to(t2, i2, c) implies t1 == t2 && i1 == i2 by {
                if r.points_to(t1, i1, c) && r.points_to(t2, i2, c) {
                    assert(r.ent(t1, i1) == self.ent(t1, i1));
                    assert(r.ent(t2, i2) == self.ent(t2, i2));
                    assert(self.points_to(t1, i1, c));
                    assert(self.points_to(t2, i2, c));
                }
            }
            assert(r.wf());
            assert forall|w: u64| #[trigger] r.lookup(w) == self.lookup(w) by {
                lemma_lookup_same_entries(*self, r, w);
            }
        }
        r
    }

    /// Reads the mapping of the page of `v` back out of the tree.
    pub fn translate(&self, v: u64) -> (r: Option<(u64, MemoryFlags)>)
        requires
            self.wf(),
        ensures
            r == self.lookup(v),
    {
        proof {
            assert(self.table_wf(0));
        }
        let i3 = index_of(v, 3);
        match self.tables[0].entries[i3] {
            Entry::Table(c3) => {
                proof {
                    assert(self.entry_wf(0, i3 as int));
                    assert(self.table_wf(c3 as int));
                }
                let i2 = index_of(v, 2);
                match self.tables[c3].entries[i2] {
                    Entry::Table(c2) => {
                        proof {
                            assert(self.entry_wf(c3 as int, i2 as int));
                            assert(self.table_wf(c2 as int));
                        }
                        let i1 = index_of(v, 1);
                        match self.tables[c2].entries[i1] {
                            Entry::Table(c1) => {
                                proof {
                                    assert(self.entry_wf(c2 as int, i1 as int));
                                    assert(self.table_wf(c1 as int));
                                }
                                let i0 = index_of(v, 0);
                                match self.tables[c1].entries[i0] {
                                    Entry::Leaf(p, f) => Some((p, f)),
                                    _ => None,
                                }
                            },
                            _ => None,
                        }
                    },
                    _ => None,
                }
            },
            _ => None,
        }
    }
}

} // verus!
