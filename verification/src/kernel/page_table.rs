//! Sv39 page tables: three levels of 512 entries, each table one physical
//! page. The tables of one address space come from a pool of pages at known
//! physical addresses; table 0 of the pool is the root.
use vstd::prelude::*;

use super::param::{PAGESIZE, TRAMPOLINE, TRAPFRAME};

verus! {

/// The flag bits of a page table entry.
#[derive(Clone, Copy, PartialEq, Eq, Structural, Debug)]
pub struct PteFlag {
    bits: usize,
}

impl View for PteFlag {
    type V = usize;

    closed spec fn view(&self) -> usize {
        self.bits
    }
}

/// Bits that name a flag: the low eight bits of an entry.
pub open spec fn flag_bits_ok(bits: usize) -> bool {
    bits < 256
}

impl PteFlag {
    /// The flags whose bits are set in `bits`; other bits are dropped.
    pub fn from_bits_truncate(bits: usize) -> (f: PteFlag)
        ensures
            f@ == bits & 0xff,
    {
        PteFlag { bits: bits & 0xff }
    }

    /// The entry is valid.
    pub fn valid() -> (f: PteFlag)
        ensures
            f@ == 1,
    {
        PteFlag { bits: 1 }
    }

    /// The page may be read.
    pub fn read() -> (f: PteFlag)
        ensures
            f@ == 2,
    {
        PteFlag { bits: 2 }
    }

    /// The page may be written.
    pub fn write() -> (f: PteFlag)
        ensures
            f@ == 4,
    {
        PteFlag { bits: 4 }
    }

    /// The page may be executed.
    pub fn exec() -> (f: PteFlag)
        ensures
            f@ == 8,
    {
        PteFlag { bits: 8 }
    }

    /// The page may be reached from user mode.
    pub fn user() -> (f: PteFlag)
        ensures
            f@ == 16,
    {
        PteFlag { bits: 16 }
    }

    /// The mapping is global.
    pub fn glob() -> (f: PteFlag)
        ensures
            f@ == 32,
    {
        PteFlag { bits: 32 }
    }

    /// The page has been accessed.
    pub fn acces() -> (f: PteFlag)
        ensures
            f@ == 64,
    {
        PteFlag { bits: 64 }
    }

    /// The page has been written to.
    pub fn dirty() -> (f: PteFlag)
        ensures
            f@ == 128,
    {
        PteFlag { bits: 128 }
    }

    /// The bits of the flags.
    pub fn bits(&self) -> (r: usize)
        ensures
            r == self@,
    {
        self.bits
    }

    /// The flags of either.
    pub fn union(self, other: PteFlag) -> (f: PteFlag)
        ensures
            f@ == self@ | other@,
    {
        PteFlag { bits: self.bits | other.bits }
    }

    /// Whether every flag of `other` is set here.
    pub fn contains(&self, other: PteFlag) -> (r: bool)
        ensures
            r == (self@ & other@ == other@),
    {
        self.bits & other.bits == other.bits
    }
}

/// Something that fills one physical page and can be made zeroed.
pub trait Page: Sized {
    /// Every byte is zero.
    spec fn is_zeroed(&self) -> bool;

    /// A fresh page of zeros.
    fn new_zeroed() -> (p: Self)
        ensures
            p.is_zeroed(),
    ;
}

/// A page of data.
pub struct SinglePage {
    data: Vec<u8>,
}

impl SinglePage {
    /// The bytes of the page.
    pub closed spec fn bytes(&self) -> Seq<u8> {
        self.data@
    }

    /// The bytes of the page.
    pub fn data(&self) -> (r: &[u8])
        ensures
            r@ == self.bytes(),
    {
        self.data.as_slice()
    }
}

impl Page for SinglePage {
    open spec fn is_zeroed(&self) -> bool {
        self.bytes().len() == PAGESIZE && forall|i: int| 0 <= i < PAGESIZE ==> self.bytes()[i] == 0
    }

    fn new_zeroed() -> (p: SinglePage) {
        let mut data: Vec<u8> = Vec::new();
        let mut i: usize = 0;
        while i < PAGESIZE
            invariant
                i <= PAGESIZE,
                data@.len() == i,
                forall|j: int| 0 <= j < i ==> data@[j] == 0,
            decreases PAGESIZE - i,
        {
            data.push(0);
            i += 1;
        }
        SinglePage { data }
    }
}

/// A 9-bit index into a page table.
pub struct PageTableIndex(u16);

impl View for PageTableIndex {
    type V = u16;

    closed spec fn view(&self) -> u16 {
        self.0
    }
}

impl PageTableIndex {
    /// The index as a number below 512.
    pub fn as_usize(&self) -> (r: usize)
        ensures
            r == self@,
    {
        self.0 as usize
    }
}

/// An entry of a page table: a physical page number (44 bits) above ten bits
/// of flags.
#[derive(Clone, Copy, Debug)]
pub struct PageTableEntry {
    data: usize,
}

impl View for PageTableEntry {
    type V = usize;

    closed spec fn view(&self) -> usize {
        self.data
    }
}

/// The entry is valid: its lowest bit is set.
pub open spec fn pte_valid(data: usize) -> bool {
    data % 2 == 1
}

/// The entry maps a page: it allows reading, writing or executing.
pub open spec fn pte_leaf(data: usize) -> bool {
    data & 0xe != 0
}

/// The physical page number of an entry.
pub open spec fn pte_ppn(data: usize) -> nat {
    (data / 1024) as nat
}

/// What `set_addr` writes.
pub open spec fn pte_data(addr: usize, perm: usize) -> usize {
    addr | (perm | 1)
}

/// The address bits of an entry for the page at physical address `pa`.
pub open spec fn pte_addr(pa: usize) -> usize {
    (pa >> 12usize) << 10usize
}

proof fn lemma_valid_bit(data: usize)
    ensures
        (data & 1 != 0) == pte_valid(data),
{
    assert((data & 1 != 0) == (data % 2 == 1)) by (bit_vector);
}

impl PageTableEntry {
    /// An empty entry.
    pub fn new() -> (e: PageTableEntry)
        ensures
            e@ == 0,
    {
        PageTableEntry { data: 0 }
    }

    /// Whether the entry is valid.
    pub fn is_valid(&self) -> (r: bool)
        ensures
            r == pte_valid(self@),
    {
        proof {
            lemma_valid_bit(self.data);
        }
        (self.data & 1) > 0
    }

    /// Whether the entry maps a page rather than a next-level table.
    pub fn is_leaf(&self) -> (r: bool)
        ensures
            r == pte_leaf(self@),
    {
        (self.data & 0xe) > 0
    }

    /// Points the entry at `addr` (already in entry form) with `perm`, and
    /// makes it valid.
    pub fn set_addr(&mut self, addr: usize, perm: PteFlag)
        ensures
            final(self)@ == pte_data(addr, perm@),
    {
        self.data = addr | (perm.bits | 1);
    }

    /// The physical address of the page the entry points at.
    pub fn as_page_addr(&self) -> (r: usize)
        ensures
            r == (self@ >> 10usize) << 12usize,
    {
        (self.data >> 10) << 12
    }
}

/// The index into the table of `level` that `va` takes.
fn get_index(va: usize, level: usize) -> (r: PageTableIndex)
    requires
        level <= 2,
    ensures
        r@ == (va >> ((12 + level * 9) as usize)) & 0x1ff,
{
    let shift: usize = 12 + level * 9;
    let v: usize = (va >> shift) & 0x1ff;
    assert(v < 512) by (bit_vector)
        requires
            v == (va >> shift) & 0x1ff,
    ;
    PageTableIndex(v as u16)
}

/// The entry form of the physical address `pa`.
fn as_pte_addr(pa: usize) -> (r: usize)
    ensures
        r == pte_addr(pa),
{
    (pa >> 12) << 10
}

/// Whether `align` is a power of two.
pub open spec fn is_power_of_two(align: usize) -> bool {
    align > 0 && align & ((align - 1) as usize) == 0
}

/// `addr` rounded down to a multiple of `align`.
fn align_down(addr: usize, align: usize) -> (r: usize)
    requires
        is_power_of_two(align),
    ensures
        r == addr & !((align - 1) as usize),
{
    addr & !(align - 1)
}

/// `addr` rounded up to a multiple of `align`.
fn align_up(addr: usize, align: usize) -> (r: usize)
    requires
        is_power_of_two(align),
        addr + align - 1 <= usize::MAX,
    ensures
        r == ((addr + align - 1) as usize) & !((align - 1) as usize),
{
    (addr + (align - 1)) & !(align - 1)
}


/// Entries in a page table.
pub const ENTRIES: usize = 512;

/// The virtual page number `va` falls in, as the three indices see it: bits
/// 12 to 38 of the address, one of 2^27.
pub open spec fn vpn_of(va: nat) -> nat {
    (va / 4096) % 0x800_0000
}

/// What `set_addr` writes into the last-level entry for the page at `pa`.
pub open spec fn leaf_data(pa: usize, perm: usize) -> usize {
    pte_data(pte_addr(pa), perm)
}

/// Why a mapping was refused.
#[derive(Clone, Copy, PartialEq, Eq, Structural, Debug)]
pub enum MapError {
    /// A page of the range is mapped already.
    Remap,
    /// No page was left for a table that the walk needed.
    OutOfMemory,
}

impl MapError {
    /// The message the kernel reports.
    pub fn message(&self) -> (r: &'static str)
        ensures
            *self == MapError::Remap ==> r == "map_pages: remap",
            *self == MapError::OutOfMemory ==> r == "map_pages: not enough memory for new page table",
    {
        match self {
            MapError::Remap => "map_pages: remap",
            MapError::OutOfMemory => "map_pages: not enough memory for new page table",
        }
    }
}

/// An address space as the tables describe it: the last-level entries by
/// virtual page number, the root entries in use, the middle entries in use
/// (by virtual page number divided by 512), and the pages left in the pool.
pub ghost struct PageTableView {
    pub leaves: Map<nat, usize>,
    pub tops: Set<nat>,
    pub mids: Set<nat>,
    pub free: nat,
}

/// The walk for virtual page `vpn`: the tables it adds on the way down, and
/// whether it reached the last level. A table it added before it ran out of
/// pages stays.
pub open spec fn walk_view(v: PageTableView, vpn: nat) -> (PageTableView, bool) {
    let m = vpn / 512;
    let k = m / 512;
    if !v.tops.contains(k) && v.free == 0 {
        (v, false)
    } else {
        let w = if v.tops.contains(k) {
            v
        } else {
            PageTableView { tops: v.tops.insert(k), free: (v.free - 1) as nat, ..v }
        };
        if w.mids.contains(m) {
            (w, true)
        } else if w.free == 0 {
            (w, false)
        } else {
            (PageTableView { mids: w.mids.insert(m), free: (w.free - 1) as nat, ..w }, true)
        }
    }
}

/// Mapping `n` pages from `va` onto the pages from `pa`, one page after the
/// other: the address space after it, and the outcome. It stops at the first
/// page it cannot map; the pages before it stay mapped.
pub open spec fn map_view(v: PageTableView, va: nat, n: nat, pa: nat, perm: usize) -> (
    PageTableView,
    Result<(), MapError>,
)
    decreases n,
{
    if n == 0 {
        (v, Ok(()))
    } else {
        let vpn = vpn_of(va);
        let (w, reached) = walk_view(v, vpn);
        if !reached {
            (w, Err(MapError::OutOfMemory))
        } else if w.leaves.contains_key(vpn) {
            (w, Err(MapError::Remap))
        } else {
            map_view(
                PageTableView { leaves: w.leaves.insert(vpn, leaf_data(pa as usize, perm)), ..w },
                va + 4096,
                (n - 1) as nat,
                pa + 4096,
                perm,
            )
        }
    }
}

/// The first address of the page `va` falls in.
pub open spec fn page_start(va: nat) -> nat {
    (va - va % 4096) as nat
}

/// The end of the last page that the `size` bytes from `va` touch.
pub open spec fn page_end(va: nat, size: nat) -> nat {
    page_start(va + size + 4095)
}

/// The pages that the `size` bytes from `va` touch.
pub open spec fn page_count(va: nat, size: nat) -> nat {
    ((page_end(va, size) - page_start(va)) / 4096) as nat
}

/// The tables of one address space. Table `t` of the pool sits at physical
/// address `base + t * PAGESIZE`; table 0 is the root. The pool has room for
/// `limit` tables.
pub struct PageTable {
    tables: Vec<Vec<PageTableEntry>>,
    base: usize,
    limit: usize,
    levels: Ghost<Seq<int>>,
}

impl PageTable {
    spec fn len(&self) -> int {
        self.tables@.len() as int
    }

    spec fn ent(&self, t: int, i: int) -> usize {
        self.tables@[t]@[i]@
    }

    /// The table an upper-level entry points at.
    spec fn child(&self, e: usize) -> int {
        e / 1024 - self.base / 4096
    }

    spec fn upper(&self, t: int, i: int) -> bool {
        &&& 0 <= t < self.len()
        &&& 0 <= i < 512
        &&& self.levels@[t] > 0
        &&& pte_valid(self.ent(t, i))
    }

    /// The pool's layout, and the tables form a tree of three levels below
    /// the root: each valid upper entry points at a later table one level
    /// down, and no two entries point at the same table.
    pub closed spec fn wf(&self) -> bool {
        &&& 1 <= self.len() <= self.limit
        &&& self.base % 4096 == 0
        &&& self.base + self.limit * 4096 <= usize::MAX
        &&& self.levels@.len() == self.len()
        &&& self.levels@[0] == 2
        &&& forall|t: int|
            0 <= t < self.len() ==> #[trigger] self.tables@[t]@.len() == 512 && 0 <= self.levels@[t]
                <= 2
        &&& forall|t: int, i: int|
            #[trigger] self.upper(t, i) ==> 0 < self.child(self.ent(t, i)) < self.len()
                && self.levels@[self.child(self.ent(t, i))] == self.levels@[t] - 1
        &&& forall|t: int, i: int, s: int, j: int|
            #[trigger] self.upper(t, i) && #[trigger] self.upper(s, j) && self.child(self.ent(t, i))
                == self.child(self.ent(s, j)) ==> t == s && i == j
    }

    spec fn mid_table(&self, k: int) -> int {
        self.child(self.ent(0, k))
    }

    spec fn leaf_table(&self, m: int) -> int {
        self.child(self.ent(self.mid_table(m / 512), m % 512))
    }

    spec fn leaf_ent(&self, v: nat) -> usize {
        self.ent(self.leaf_table((v / 512) as int), (v % 512) as int)
    }

    spec fn has_top(&self, k: int) -> bool {
        pte_valid(self.ent(0, k))
    }

    spec fn has_mid(&self, m: int) -> bool {
        self.has_top(m / 512) && pte_valid(self.ent(self.mid_table(m / 512), m % 512))
    }

    spec fn has_leaf(&self, v: int) -> bool {
        self.has_mid(v / 512) && pte_valid(self.ent(self.leaf_table(v / 512), v % 512))
    }

    /// The physical address of the root table.
    pub closed spec fn root_addr(&self) -> usize {
        self.base
    }

    /// Tables the pool holds at most.
    pub closed spec fn limit(&self) -> nat {
        self.limit as nat
    }
}

impl View for PageTable {
    type V = PageTableView;

    closed spec fn view(&self) -> PageTableView {
        PageTableView {
            leaves: Map::new(
                |v: nat| v < 0x800_0000 && self.has_leaf(v as int),
                |v: nat| self.leaf_ent(v),
            ),
            tops: Set::new(|k: nat| k < 512 && self.has_top(k as int)),
            mids: Set::new(|m: nat| m < 262144 && self.has_mid(m as int)),
            free: (self.limit - self.len()) as nat,
        }
    }
}


/// A table with every entry empty.
fn zeroed_table() -> (v: Vec<PageTableEntry>)
    ensures
        v@.len() == 512,
        forall|j: int| 0 <= j < 512 ==> #[trigger] v@[j]@ == 0,
{
    let mut v: Vec<PageTableEntry> = Vec::new();
    let mut i: usize = 0;
    while i < ENTRIES
        invariant
            i <= 512,
            v@.len() == i,
            forall|j: int| 0 <= j < i ==> #[trigger] v@[j]@ == 0,
        decreases 512 - i,
    {
        v.push(PageTableEntry::new());
        i += 1;
    }
    v
}

/// The entry that points at the table at `addr` has the valid bit, and its
/// page number is that of `addr`.
proof fn lemma_table_entry(addr: usize)
    ensures
        pte_data(pte_addr(addr), 1) % 2 == 1,
        pte_data(pte_addr(addr), 1) / 1024 == addr / 4096,
{
    assert(((((addr >> 12usize) << 10usize) | (1usize | 1usize)) % 2 == 1) && ((((addr
        >> 12usize) << 10usize) | (1usize | 1usize)) / 1024 == addr / 4096)) by (bit_vector);
}

impl PageTable {
    /// An address space with no mapping, whose root is the first page of a
    /// pool of `limit` pages at physical address `base`.
    pub fn empty(base: usize, limit: usize) -> (pt: PageTable)
        requires
            base % 4096 == 0,
            1 <= limit,
            base + limit * 4096 <= usize::MAX,
        ensures
            pt.wf(),
            pt@.leaves == Map::<nat, usize>::empty(),
            pt@.tops == Set::<nat>::empty(),
            pt@.mids == Set::<nat>::empty(),
            pt@.free == limit - 1,
            pt.root_addr() == base,
            pt.limit() == limit,
    {
        let mut tables: Vec<Vec<PageTableEntry>> = Vec::new();
        tables.push(zeroed_table());
        let ghost levels: Seq<int> = seq![2int];
        let pt = PageTable { tables, base, limit, levels: Ghost(levels) };
        proof {
            assert(pt@.leaves =~= Map::<nat, usize>::empty());
            assert(pt@.tops =~= Set::<nat>::empty());
            assert(pt@.mids =~= Set::<nat>::empty());
        }
        pt
    }

    /// The `satp` value that selects this address space in Sv39 mode.
    pub fn as_satp(&self) -> (r: u64)
        ensures
            r == (8u64 << 60u64) | ((self.root_addr() >> 12usize) as u64),
    {
        (8u64 << 60u64) | ((self.base >> 12) as u64)
    }

    spec fn same_except(&self, other: &PageTable, t: int, i: int) -> bool {
        forall|s: int, j: int|
            0 <= s < other.len() && 0 <= j < 512 && !(s == t && j == i) ==> #[trigger] self.ent(s, j)
                == other.ent(s, j)
    }

    /// The table that entry `i` of table `t` points at.
    fn child_of(&self, t: usize, i: usize) -> (c: usize)
        requires
            self.wf(),
            self.upper(t as int, i as int),
        ensures
            c == self.child(self.ent(t as int, i as int)),
            0 < c < self.len(),
    {
        let data = self.tables[t][i].data;
        let base = self.base;
        assert(data >> 10usize == data / 1024 && base >> 12usize == base / 4096) by (bit_vector);
        (data >> 10) - (base >> 12)
    }
}


impl PageTable {
    /// `self` is `old` with a new empty table at the end of the pool, one
    /// level below table `t`, and entry `i` of table `t` pointing at it.
    spec fn attached(&self, old: &PageTable, t: int, i: int) -> bool {
        &&& self.base == old.base
        &&& self.limit == old.limit
        &&& self.len() == old.len() + 1
        &&& self.levels@ == old.levels@.push(old.levels@[t] - 1)
        &&& self.same_except(old, t, i)
        &&& forall|s: int| 0 <= s < self.len() ==> #[trigger] self.tables@[s]@.len() == 512
        &&& pte_valid(self.ent(t, i))
        &&& self.child(self.ent(t, i)) == old.len()
        &&& forall|j: int| 0 <= j < 512 ==> #[trigger] self.ent(old.len(), j) == 0
    }

    /// Takes the next page of the pool as a table one level below table `t`,
    /// and points entry `i` of table `t` at it.
    fn attach(&mut self, t: usize, i: usize)
        requires
            old(self).wf(),
            t < old(self).len(),
            i < 512,
            old(self).levels@[t as int] > 0,
            !pte_valid(old(self).ent(t as int, i as int)),
            old(self).len() < old(self).limit,
        ensures
            final(self).wf(),
            final(self).attached(old(self), t as int, i as int),
    {
        let ghost prev = *self;
        let n = self.tables.len();
        let addr = self.base + n * PAGESIZE;
        let mut e = PageTableEntry::new();
        e.set_addr(as_pte_addr(addr), PteFlag::valid());
        proof {
            lemma_table_entry(addr);
            assert(addr / 4096 == self.base / 4096 + n) by (nonlinear_arith)
                requires
                    addr == self.base + n * 4096,
                    self.base % 4096 == 0,
            ;
        }
        self.tables.push(zeroed_table());
        self.tables[t].set(i, e);
        self.levels = Ghost(self.levels@.push(self.levels@[t as int] - 1));
        proof {
            assert(self.same_except(&prev, t as int, i as int));
            assert forall|s: int| 0 <= s < self.len() implies #[trigger] self.tables@[s]@.len()
                == 512 && 0 <= self.levels@[s] <= 2 by {
                if s < n {
                    assert(prev.tables@[s]@.len() == 512);
                }
            }
            assert(1 <= self.len() <= self.limit);
            assert(self.base + self.limit * 4096 <= usize::MAX);
            assert(self.levels@.len() == self.len());
            assert(self.levels@[0] == 2);
            assert forall|s: int, j: int| #[trigger] self.upper(s, j) implies 0 < self.child(
                self.ent(s, j),
            ) < self.len() && self.levels@[self.child(self.ent(s, j))] == self.levels@[s] - 1 by {
                if s == t && j == i {
                } else if s == n {
                    assert(self.ent(s, j) == 0);
                } else {
                    assert(prev.upper(s, j));
                }
            }
            assert forall|a: int, b: int, c: int, d: int|
                #[trigger] self.upper(a, b) && #[trigger] self.upper(c, d) && self.child(
                    self.ent(a, b),
                ) == self.child(self.ent(c, d)) implies a == c && b == d by {
                if a == n {
                    assert(self.ent(a, b) == 0);
                }
                if c == n {
                    assert(self.ent(c, d) == 0);
                }
                if a == t && b == i {
                    if !(c == t && d == i) {
                        assert(prev.upper(c, d));
                    }
                } else if c == t && d == i {
                    assert(prev.upper(a, b));
                } else {
                    assert(prev.upper(a, b));
                    assert(prev.upper(c, d));
                }
            }
        }
    }
}


/// A root entry that gets a table adds that root entry to the address space
/// and takes a page of the pool; nothing else changes.
proof fn lemma_attach_top(old: PageTable, new: PageTable, k: int)
    requires
        old.wf(),
        new.wf(),
        0 <= k < 512,
        !old.has_top(k),
        new.attached(&old, 0, k),
    ensures
        new@ == (PageTableView { tops: old@.tops.insert(k as nat), free: (old@.free - 1) as nat, ..old@ }),
{
    assert forall|m: int| 0 <= m < 262144 implies #[trigger] new.has_mid(m) == old.has_mid(m) && (
    new.has_mid(m) ==> new.leaf_table(m) == old.leaf_table(m)) by {
        let a = m / 512;
        if a == k {
            assert(new.ent(new.mid_table(a), m % 512) == 0);
        } else {
            assert(new.ent(0, a) == old.ent(0, a));
            if old.has_top(a) {
                assert(old.upper(0, a));
                assert(new.ent(old.mid_table(a), m % 512) == old.ent(old.mid_table(a), m % 512));
            }
        }
    }
    assert forall|v: nat| v < 0x800_0000 implies #[trigger] new.has_leaf(v as int) == old.has_leaf(
        v as int,
    ) && (new.has_leaf(v as int) ==> new.leaf_ent(v) == old.leaf_ent(v)) by {
        let m = (v / 512) as int;
        assert(new.has_mid(m) == old.has_mid(m));
        if old.has_mid(m) {
            assert(old.upper(0, m / 512));
            assert(old.upper(old.mid_table(m / 512), m % 512));
            assert(new.ent(old.leaf_table(m), (v % 512) as int) == old.ent(old.leaf_table(m), (v % 512) as int));
        }
    }
    assert forall|a: nat| a < 512 implies #[trigger] new.has_top(a as int) == (old.has_top(a as int)
        || a == k) by {
        if a != k {
            assert(new.ent(0, a as int) == old.ent(0, a as int));
        }
    }
    assert(new@.leaves =~= old@.leaves);
    assert(new@.tops =~= old@.tops.insert(k as nat));
    assert(new@.mids =~= old@.mids);
}

/// A middle entry that gets a table adds that entry to the address space
/// and takes a page of the pool; nothing else changes.
proof fn lemma_attach_mid(old: PageTable, new: PageTable, m: int)
    requires
        old.wf(),
        new.wf(),
        0 <= m < 262144,
        old.has_top(m / 512),
        !old.has_mid(m),
        new.attached(&old, old.mid_table(m / 512), m % 512),
    ensures
        new@ == (PageTableView { mids: old@.mids.insert(m as nat), free: (old@.free - 1) as nat, ..old@ }),
{
    let c1 = old.mid_table(m / 512);
    assert(old.upper(0, m / 512));
    assert forall|a: nat| a < 512 implies #[trigger] new.has_top(a as int) == old.has_top(a as int) by {
        assert(new.ent(0, a as int) == old.ent(0, a as int));
    }
    assert forall|q: int| 0 <= q < 262144 implies #[trigger] new.has_mid(q) == (old.has_mid(q) || q
        == m) && (q != m && old.has_mid(q) ==> new.leaf_table(q) == old.leaf_table(q)) by {
        let a = q / 512;
        assert(new.ent(0, a) == old.ent(0, a));
        if old.has_top(a) && q != m {
            assert(old.upper(0, a));
            if old.mid_table(a) == c1 {
                assert(a == m / 512);
            }
            assert(new.ent(old.mid_table(a), q % 512) == old.ent(old.mid_table(a), q % 512));
        }
    }
    assert forall|v: nat| v < 0x800_0000 implies #[trigger] new.has_leaf(v as int) == old.has_leaf(
        v as int,
    ) && (new.has_leaf(v as int) ==> new.leaf_ent(v) == old.leaf_ent(v)) by {
        let q = (v / 512) as int;
        if q == m {
            assert(new.ent(new.leaf_table(q), (v % 512) as int) == 0);
        } else if old.has_mid(q) {
            assert(new.has_mid(q));
            assert(old.upper(0, q / 512));
            assert(old.upper(old.mid_table(q / 512), q % 512));
            assert(new.ent(old.leaf_table(q), (v % 512) as int) == old.ent(old.leaf_table(q), (v % 512) as int));
        }
    }
    assert(new@.leaves =~= old@.leaves);
    assert(new@.tops =~= old@.tops);
    assert(new@.mids =~= old@.mids.insert(m as nat));
}


/// The three indices of `va` are the digits of its virtual page number in
/// base 512.
proof fn lemma_indices(va: usize)
    ensures
        (va >> 30usize) & 0x1ff == ((va / 4096) % 0x800_0000) / 512 / 512,
        (va >> 21usize) & 0x1ff == (((va / 4096) % 0x800_0000) / 512) % 512,
        (va >> 12usize) & 0x1ff == ((va / 4096) % 0x800_0000) % 512,
{
    assert((va >> 30usize) & 0x1ff == ((va / 4096) % 0x800_0000) / 512 / 512) by (bit_vector);
    assert((va >> 21usize) & 0x1ff == (((va / 4096) % 0x800_0000) / 512) % 512) by (bit_vector);
    assert((va >> 12usize) & 0x1ff == ((va / 4096) % 0x800_0000) % 512) by (bit_vector);
}

impl PageTable {
    /// The last-level entry for `va`, as its table and its index, adding the
    /// tables on the way that are missing; `None` when the pool ran out.
    fn walk(&mut self, va: usize) -> (r: Option<(usize, usize)>)
        requires
            old(self).wf(),
        ensures
            final(self).wf(),
            final(self).base == old(self).base,
            final(self).limit == old(self).limit,
            final(self)@ == walk_view(old(self)@, vpn_of(va as nat)).0,
            r is Some == walk_view(old(self)@, vpn_of(va as nat)).1,
            r matches Some((t, i)) ==> {
                let vpn = vpn_of(va as nat);
                &&& final(self).has_mid((vpn / 512) as int)
                &&& t == final(self).leaf_table((vpn / 512) as int)
                &&& i == vpn % 512
                &&& t < final(self).len()
                &&& final(self).levels@[t as int] == 0
            },
    {
        let ghost vpn: nat = vpn_of(va as nat);
        let ghost m: int = (vpn / 512) as int;
        let k = get_index(va, 2).as_usize();
        let i1 = get_index(va, 1).as_usize();
        let i0 = get_index(va, 0).as_usize();
        proof {
            lemma_indices(va);
            assert(k == m / 512 && i1 == m % 512 && i0 == vpn % 512);
        }
        if !self.tables[0][k].is_valid() {
            if self.tables.len() >= self.limit {
                return None;
            }
            let ghost prev = *self;
            self.attach(0, k);
            proof {
                lemma_attach_top(prev, *self, k as int);
            }
        }
        let ghost after_top = *self;
        assert(self.upper(0, k as int));
        let c1 = self.child_of(0, k);
        if !self.tables[c1][i1].is_valid() {
            if self.tables.len() >= self.limit {
                return None;
            }
            let ghost prev = *self;
            self.attach(c1, i1);
            proof {
                lemma_attach_mid(prev, *self, m);
            }
        }
        assert(self.upper(c1 as int, i1 as int));
        let c0 = self.child_of(c1, i1);
        Some((c0, i0))
    }
}


/// Writing a valid entry for virtual page `v` into its last-level table adds
/// that page to the address space and changes nothing else.
proof fn lemma_set_leaf(old: PageTable, new: PageTable, v: nat, e: usize)
    requires
        old.wf(),
        v < 0x800_0000,
        old.has_mid((v / 512) as int),
        pte_valid(e),
        new.base == old.base,
        new.limit == old.limit,
        new.levels@ == old.levels@,
        new.len() == old.len(),
        forall|s: int| 0 <= s < new.len() ==> #[trigger] new.tables@[s]@.len() == 512,
        new.same_except(&old, old.leaf_table((v / 512) as int), (v % 512) as int),
        new.ent(old.leaf_table((v / 512) as int), (v % 512) as int) == e,
    ensures
        new.wf(),
        new@ == (PageTableView { leaves: old@.leaves.insert(v, e), ..old@ }),
{
    let m = (v / 512) as int;
    let t = old.leaf_table(m);
    let i = (v % 512) as int;
    assert(old.upper(0, m / 512));
    assert(old.upper(old.mid_table(m / 512), m % 512));
    assert(old.levels@[t] == 0);
    assert forall|s: int, j: int| #[trigger] new.upper(s, j) implies old.upper(s, j) && new.ent(s, j)
        == old.ent(s, j) by {
        assert(s != t);
    }
    assert forall|s: int| 0 <= s < new.len() implies #[trigger] new.tables@[s]@.len() == 512 && 0
        <= new.levels@[s] <= 2 by {
        assert(old.tables@[s]@.len() == 512);
    }
    assert forall|a: int, b: int| #[trigger] new.upper(a, b) implies 0 < new.child(new.ent(a, b))
        < new.len() && new.levels@[new.child(new.ent(a, b))] == new.levels@[a] - 1 by {
        assert(old.upper(a, b));
    }
    assert forall|a: int, b: int, c: int, d: int|
        #[trigger] new.upper(a, b) && #[trigger] new.upper(c, d) && new.child(new.ent(a, b))
            == new.child(new.ent(c, d)) implies a == c && b == d by {
        assert(old.upper(a, b));
        assert(old.upper(c, d));
    }
    assert(new.wf());
    assert forall|k: nat| k < 512 implies #[trigger] new.has_top(k as int) == old.has_top(k as int) by {
        assert(new.ent(0, k as int) == old.ent(0, k as int));
    }
    assert forall|q: int| 0 <= q < 262144 implies #[trigger] new.has_mid(q) == old.has_mid(q) && (
    old.has_mid(q) ==> new.leaf_table(q) == old.leaf_table(q) && old.upper(old.mid_table(q / 512), q % 512)) by {
        assert(new.ent(0, q / 512) == old.ent(0, q / 512));
        if old.has_top(q / 512) {
            assert(old.upper(0, q / 512));
            assert(new.ent(old.mid_table(q / 512), q % 512) == old.ent(old.mid_table(q / 512), q % 512));
        }
    }
    assert forall|w: nat| w < 0x800_0000 implies #[trigger] new.has_leaf(w as int) == (old.has_leaf(
        w as int,
    ) || w == v) && (new.has_leaf(w as int) ==> new.leaf_ent(w) == (if w == v {
        e
    } else {
        old.leaf_ent(w)
    })) by {
        let q = (w / 512) as int;
        assert(new.has_mid(q) == old.has_mid(q));
        if old.has_mid(q) {
            let lt = old.leaf_table(q);
            assert(new.leaf_table(q) == lt);
            assert(old.upper(0, q / 512));
            assert(old.upper(old.mid_table(q / 512), q % 512));
            if w == v {
                assert(new.ent(lt, i) == e);
                assert(new.has_leaf(w as int));
                assert(new.leaf_ent(w) == e);
            } else {
                if lt == t && (w % 512) as int == i {
                    assert(q % 512 == m % 512);
                    assert(q / 512 == m / 512);
                    assert(q == m);
                    assert(false);
                }
                assert(new.ent(lt, (w % 512) as int) == old.ent(lt, (w % 512) as int));
                assert(new.has_leaf(w as int) == old.has_leaf(w as int));
                assert(new.leaf_ent(w) == old.leaf_ent(w));
            }
        } else {
            assert(!new.has_leaf(w as int));
            assert(w != v);
            assert(!old.has_leaf(w as int));
        }
    }
    assert(new@.leaves =~= old@.leaves.insert(v, e));
    assert(new@.tops =~= old@.tops);
    assert(new@.mids =~= old@.mids);
}

/// What `set_addr` writes is valid.
proof fn lemma_leaf_valid(addr: usize, perm: usize)
    ensures
        pte_valid(pte_data(addr, perm)),
{
    assert((addr | (perm | 1usize)) % 2 == 1) by (bit_vector);
}

/// Rounding to pages by masking.
proof fn lemma_page_mask(x: usize)
    ensures
        x & !4095usize == x - x % 4096,
        (x & !4095usize) % 4096 == 0,
{
    assert(x & !4095usize == x - x % 4096) by (bit_vector);
    assert((x & !4095usize) % 4096 == 0) by (bit_vector);
}

impl PageTable {
    /// Maps the pages that the `size` bytes from virtual address `va` touch
    /// onto consecutive physical pages from `pa`, with `perm`. Stops at the
    /// first page that is mapped already, or whose walk finds no page left
    /// for a table; the pages before it stay mapped.
    pub fn map_pages(&mut self, va: usize, pa: usize, size: usize, perm: PteFlag) -> (r: Result<
        (),
        MapError,
    >)
        requires
            old(self).wf(),
            va + size + 4095 <= usize::MAX,
            pa + page_count(va as nat, size as nat) * 4096 <= usize::MAX,
        ensures
            final(self).wf(),
            final(self).root_addr() == old(self).root_addr(),
            final(self).limit() == old(self).limit(),
            (final(self)@, r) == map_view(
                old(self)@,
                page_start(va as nat),
                page_count(va as nat, size as nat),
                pa as nat,
                perm@,
            ),
    {
        assert(4096usize & 4095usize == 0) by (bit_vector);
        let va_start = align_down(va, PAGESIZE);
        let va_end = align_up(va + size, PAGESIZE);
        proof {
            lemma_page_mask(va);
            lemma_page_mask((va + size + 4095) as usize);
        }
        let ghost n0: nat = page_count(va as nat, size as nat);
        let mut cur = va_start;
        let mut pa_cur = pa;
        while cur < va_end
            invariant
                self.wf(),
                self.base == old(self).base,
                self.limit == old(self).limit,
                n0 == page_count(va as nat, size as nat),
                va_start <= cur <= va_end,
                cur % 4096 == 0,
                va_end % 4096 == 0,
                va_start == page_start(va as nat),
                va_end == page_end(va as nat, size as nat),
                pa_cur == pa + (cur - va_start),
                pa + (va_end - va_start) <= usize::MAX,
                map_view(old(self)@, page_start(va as nat), n0, pa as nat, perm@) == map_view(
                    self@,
                    cur as nat,
                    ((va_end - cur) / 4096) as nat,
                    pa_cur as nat,
                    perm@,
                ),
            decreases va_end - cur,
        {
            let ghost before = *self;
            let ghost vpn = vpn_of(cur as nat);
            let ghost k: nat = ((va_end - cur) / 4096) as nat;
            assert(k >= 1 && (k - 1) as nat == ((va_end - (cur + 4096)) / 4096) as nat);
            match self.walk(cur) {
                Some((t, i)) => {
                    if self.tables[t][i].is_valid() {
                        assert(self@.leaves.contains_key(vpn));
                        assert(map_view(before@, cur as nat, k, pa_cur as nat, perm@) == (
                        self@, Err::<(), MapError>(MapError::Remap)));
                        return Err(MapError::Remap);
                    }
                    assert(!self@.leaves.contains_key(vpn));
                    let mut e = PageTableEntry::new();
                    e.set_addr(as_pte_addr(pa_cur), perm);
                    let ghost walked = *self;
                    self.tables[t].set(i, e);
                    proof {
                        lemma_leaf_valid(pte_addr(pa_cur), perm@);
                        assert forall|s: int| 0 <= s < self.len() implies #[trigger] self.tables@[s]@.len() == 512 by {
                            assert(walked.tables@[s]@.len() == 512);
                        }
                        lemma_set_leaf(walked, *self, vpn, e@);
                    }
                },
                None => {
                    assert(map_view(before@, cur as nat, k, pa_cur as nat, perm@) == (
                    self@, Err::<(), MapError>(MapError::OutOfMemory)));
                    return Err(MapError::OutOfMemory);
                },
            }
            cur = cur + PAGESIZE;
            pa_cur = pa_cur + PAGESIZE;
        }
        Ok(())
    }
}


/// The walk adds tables only: it maps no page and unmaps none.
proof fn lemma_walk_keeps_leaves(v: PageTableView, vpn: nat)
    ensures
        walk_view(v, vpn).0.leaves == v.leaves,
{
}

/// Mapping never drops nor changes a page that was mapped before, whatever
/// the outcome.
pub proof fn lemma_map_keeps(v: PageTableView, va: nat, n: nat, pa: nat, perm: usize)
    ensures
        forall|vpn: nat|
            #[trigger] v.leaves.contains_key(vpn) ==> map_view(v, va, n, pa, perm).0.leaves.contains_key(
                vpn,
            ) && map_view(v, va, n, pa, perm).0.leaves[vpn] == v.leaves[vpn],
    decreases n,
{
    if n > 0 {
        let vpn0 = vpn_of(va);
        let (w, reached) = walk_view(v, vpn0);
        lemma_walk_keeps_leaves(v, vpn0);
        if reached && !w.leaves.contains_key(vpn0) {
            let w2 = PageTableView { leaves: w.leaves.insert(vpn0, leaf_data(pa as usize, perm)), ..w };
            lemma_map_keeps(w2, va + 4096, (n - 1) as nat, pa + 4096, perm);
            assert forall|vpn: nat| #[trigger] v.leaves.contains_key(vpn) implies map_view(
                v,
                va,
                n,
                pa,
                perm,
            ).0.leaves.contains_key(vpn) && map_view(v, va, n, pa, perm).0.leaves[vpn]
                == v.leaves[vpn] by {
                assert(w2.leaves.contains_key(vpn));
                assert(w2.leaves[vpn] == v.leaves[vpn]);
            }
        }
    }
}

/// When mapping succeeds, page `j` of the range maps onto physical page `j`
/// from `pa`, with the permissions asked for.
pub proof fn lemma_map_ok(v: PageTableView, va: nat, n: nat, pa: nat, perm: usize, j: nat)
    requires
        map_view(v, va, n, pa, perm).1 is Ok,
        j < n,
    ensures
        map_view(v, va, n, pa, perm).0.leaves.contains_key(vpn_of(va + 4096 * j)),
        map_view(v, va, n, pa, perm).0.leaves[vpn_of(va + 4096 * j)] == leaf_data(
            (pa + 4096 * j) as usize,
            perm,
        ),
    decreases n,
{
    let vpn0 = vpn_of(va);
    let (w, reached) = walk_view(v, vpn0);
    let w2 = PageTableView { leaves: w.leaves.insert(vpn0, leaf_data(pa as usize, perm)), ..w };
    assert(map_view(v, va, n, pa, perm) == map_view(w2, va + 4096, (n - 1) as nat, pa + 4096, perm));
    if j == 0 {
        lemma_map_keeps(w2, va + 4096, (n - 1) as nat, pa + 4096, perm);
        assert(w2.leaves.contains_key(vpn0));
        assert(va + 4096 * j == va);
    } else {
        lemma_map_ok(w2, va + 4096, (n - 1) as nat, pa + 4096, perm, (j - 1) as nat);
        assert(va + 4096 + 4096 * (j - 1) == va + 4096 * j);
        assert(pa + 4096 + 4096 * (j - 1) == pa + 4096 * j);
    }
}

/// Mapping a range of distinct pages none of which is mapped yet succeeds
/// when the pool holds two pages for each of them (the most the walks to it
/// can take).
pub proof fn lemma_map_succeeds(v: PageTableView, va: nat, n: nat, pa: nat, perm: usize)
    requires
        v.free >= 2 * n,
        forall|j: nat| j < n ==> !v.leaves.contains_key(#[trigger] vpn_of(va + 4096 * j)),
        forall|j: nat, l: nat| j < l < n ==> #[trigger] vpn_of(va + 4096 * j) != #[trigger] vpn_of(va + 4096 * l),
    ensures
        map_view(v, va, n, pa, perm).1 is Ok,
    decreases n,
{
    if n > 0 {
        let vpn0 = vpn_of(va);
        let (w, reached) = walk_view(v, vpn0);
        lemma_walk_keeps_leaves(v, vpn0);
        assert(va + 4096 * 0 == va);
        assert(!v.leaves.contains_key(vpn_of(va + 4096 * 0)));
        assert(reached);
        assert(w.free >= 2 * (n - 1));
        let w2 = PageTableView { leaves: w.leaves.insert(vpn0, leaf_data(pa as usize, perm)), ..w };
        assert forall|j: nat| j < n - 1 implies !w2.leaves.contains_key(#[trigger] vpn_of(va + 4096 + 4096 * j)) by {
            assert(va + 4096 + 4096 * j == va + 4096 * (j + 1));
            assert(!v.leaves.contains_key(vpn_of(va + 4096 * (j + 1))));
            assert(vpn_of(va + 4096 * 0) != vpn_of(va + 4096 * (j + 1)));
        }
        assert forall|j: nat, l: nat| j < l < n - 1 implies #[trigger] vpn_of(va + 4096 + 4096 * j) != #[trigger] vpn_of(
            va + 4096 + 4096 * l,
        ) by {
            assert(va + 4096 + 4096 * j == va + 4096 * (j + 1));
            assert(va + 4096 + 4096 * l == va + 4096 * (l + 1));
            assert(vpn_of(va + 4096 * (j + 1)) != vpn_of(va + 4096 * (l + 1)));
        }
        lemma_map_succeeds(w2, va + 4096, (n - 1) as nat, pa + 4096, perm);
    }
}

/// Mapping a range fails when a page of it, reached before any walk runs
/// out of pages, is mapped already.
pub proof fn lemma_map_remap(v: PageTableView, va: nat, pa: nat, perm: usize)
    requires
        v.leaves.contains_key(vpn_of(va)),
        v.tops.contains(vpn_of(va) / 512 / 512),
        v.mids.contains(vpn_of(va) / 512),
    ensures
        map_view(v, va, 1, pa, perm) == (v, Err::<(), MapError>(MapError::Remap)),
{
}


/// An address space with no table but the root, from a pool of `limit` pages.
pub open spec fn empty_view(limit: nat) -> PageTableView {
    PageTableView {
        leaves: Map::empty(),
        tops: Set::empty(),
        mids: Set::empty(),
        free: (limit - 1) as nat,
    }
}

/// A user address space: the trampoline and the trap frame, each one page
/// at the top.
pub open spec fn user_view(limit: nat, trampoline: nat, trapframe: nat) -> (PageTableView, bool) {
    let (v1, r1) = map_view(empty_view(limit), TRAMPOLINE as nat, 1, trampoline, 0xa);
    let (v2, r2) = map_view(v1, TRAPFRAME as nat, 1, trapframe, 0x6);
    (v2, r1 is Ok && r2 is Ok)
}

impl PageTable {
    /// A new user address space from the pool of `limit` pages at `base`,
    /// mapping the trampoline page (at physical `trampoline`, readable and
    /// executable) and the trap frame (at physical `trapframe`, readable and
    /// writable); `None` when the pool is too small for the tables.
    pub fn alloc_user_page_table(base: usize, limit: usize, trampoline: usize, trapframe: usize) -> (r:
        Option<PageTable>)
        requires
            usize::MAX == u64::MAX,
            base % 4096 == 0,
            1 <= limit,
            base + limit * 4096 <= usize::MAX,
            trampoline + 4096 <= usize::MAX,
            trapframe + 4096 <= usize::MAX,
        ensures
            r is Some <==> user_view(limit as nat, trampoline as nat, trapframe as nat).1,
            r matches Some(pt) ==> {
                &&& pt.wf()
                &&& pt@ == user_view(limit as nat, trampoline as nat, trapframe as nat).0
                &&& pt.root_addr() == base
            },
    {
        let mut pt = PageTable::empty(base, limit);
        proof {
            assert(pt@ == empty_view(limit as nat));
            assert(page_start(TRAMPOLINE as nat) == TRAMPOLINE);
            assert(page_count(TRAMPOLINE as nat, 4096) == 1);
            assert(page_start(TRAPFRAME as nat) == TRAPFRAME);
            assert(page_count(TRAPFRAME as nat, 4096) == 1);
        }
        let rx = PteFlag::read().union(PteFlag::exec());
        let rw = PteFlag::read().union(PteFlag::write());
        assert(2usize | 8usize == 0xa && 2usize | 4usize == 0x6) by (bit_vector);
        if pt.map_pages(TRAMPOLINE as usize, trampoline, PAGESIZE, rx).is_err() {
            return None;
        }
        if pt.map_pages(TRAPFRAME as usize, trapframe, PAGESIZE, rw).is_err() {
            return None;
        }
        Some(pt)
    }

    /// Maps one fresh user page, at physical `mem`, at virtual address 0,
    /// readable, writable, executable and reachable from user mode, for
    /// `code` to be copied into; code of a page or more is refused.
    pub fn uvm_init(&mut self, code: &[u8], mem: usize) -> (r: Result<(), &'static str>)
        requires
            old(self).wf(),
            mem + 4096 <= usize::MAX,
        ensures
            final(self).wf(),
            final(self).root_addr() == old(self).root_addr(),
            code@.len() >= PAGESIZE ==> r is Err && final(self)@ == old(self)@,
            code@.len() < PAGESIZE ==> (final(self)@, r is Ok) == ({
                let (v, m) = map_view(old(self)@, 0, 1, mem as nat, 0x1e);
                (v, m is Ok)
            }),
    {
        if code.len() >= PAGESIZE {
            return Err("uvm_init: more than a page");
        }
        let perm = PteFlag::read().union(PteFlag::write()).union(PteFlag::exec()).union(PteFlag::user());
        assert(((2usize | 4usize) | 8usize) | 16usize == 0x1e) by (bit_vector);
        proof {
            assert(page_start(0) == 0);
            assert(page_count(0, 4096) == 1);
        }
        match self.map_pages(0, mem, PAGESIZE, perm) {
            Ok(()) => Ok(()),
            Err(e) => Err(e.message()),
        }
    }
}

} // verus!
