//! The in-memory inode table, the on-disk inode, and path elements.
//!
//! The table holds the inodes in use: `iget` finds or takes a slot and counts
//! a reference, `idup` counts another, `iput` drops one and clears the
//! cached copy of an inode that has no link left once its last reference
//! goes.
use vstd::prelude::*;

use super::param::{BSIZE, ROOTDEV};

verus! {

/// Slots of the inode table.
pub const NINODE: usize = 50;

/// The inode number of the root directory.
pub const ROOTINO: u32 = 1;

/// Bytes of a name in a directory entry.
pub const DIRSIZ: usize = 14;

/// Direct block addresses of an inode.
pub const NDIRECT: usize = 12;

/// Bytes of an on-disk inode.
pub const DINODE_SIZE: usize = 64;

/// On-disk inodes in one block.
pub const IPB: usize = 16;

/// Bytes of a directory entry.
pub const DIRENT_SIZE: usize = 16;

/// The kind of an inode.
#[derive(Clone, Copy, PartialEq, Eq, Structural, Debug)]
pub enum INodeType {
    Empty,
    Directory,
    File,
    Device,
}

/// An inode as the disk holds it.
#[derive(Clone, Copy, Debug)]
pub struct DiskINode {
    pub typed: INodeType,
    pub major: u16,
    pub minor: u16,
    pub nlink: u16,
    pub size: u32,
    pub addrs: [u32; 13],
}

impl DiskINode {
    /// An inode of no type, with no link, no size and no block.
    pub fn new() -> (d: DiskINode)
        ensures
            d.typed == INodeType::Empty,
            d.major == 0,
            d.minor == 0,
            d.nlink == 0,
            d.size == 0,
            forall|i: int| 0 <= i < 13 ==> d.addrs@[i] == 0,
    {
        DiskINode {
            typed: INodeType::Empty,
            major: 0,
            minor: 0,
            nlink: 0,
            size: 0,
            addrs: [0u32; 13],
        }
    }
}

/// A directory entry: an inode number and a name padded with zeros.
pub struct DirEnt {
    pub inum: u16,
    pub name: [u8; 14],
}

impl DirEnt {
    /// The free entry.
    pub fn empty() -> (d: DirEnt)
        ensures
            d.inum == 0,
            forall|i: int| 0 <= i < 14 ==> d.name@[i] == 0,
    {
        DirEnt { inum: 0, name: [0u8; 14] }
    }
}

/// The in-memory copy of an inode: which inode it holds, once read, and its
/// content.
pub struct INodeData {
    pub valid: Option<(u32, u32)>,
    pub dinode: DiskINode,
}

impl INodeData {
    /// A copy that holds no inode yet.
    pub fn new() -> (d: INodeData)
        ensures
            d.valid is None,
            d.dinode.typed == INodeType::Empty,
            d.dinode.nlink == 0,
    {
        INodeData { valid: None, dinode: DiskINode::new() }
    }

    /// Looks `name` up in this directory, whose entries, read from its
    /// blocks, are `entries`: the first entry within the directory's size
    /// that is in use (inode number not 0) and carries `name` gives its
    /// inode, taken from `table` by `iget`; `None` when there is none.
    pub fn dirlookup(&self, name: &[u8; 14], entries: &[DirEnt], table: &mut INodeTable) -> (r: Option<INode>)
        requires
            self.valid is Some,
            self.dinode.typed == INodeType::Directory,
            entries@.len() * DIRENT_SIZE >= self.dinode.size,
            dir_lookup(entries@, self.dinode.size as int, name@) matches Some(inum) ==> (any_holding(
                old(table).slots(),
                self.valid.unwrap().0,
                inum as u32,
            ) || any_free(old(table).slots())),
            forall|i: int|
                0 <= i < old(table).slots().len() ==> #[trigger] old(table).slots()[i].refcnt
                    < usize::MAX,
        ensures
            r is Some <==> dir_lookup(entries@, self.dinode.size as int, name@) is Some,
            match dir_lookup(entries@, self.dinode.size as int, name@) {
                Some(inum) => {
                    let dev = self.valid.unwrap().0;
                    r matches Some(ip) && {
                        &&& ip.names() == (dev, inum as u32)
                        &&& 0 <= ip.slot() < old(table).slots().len()
                        &&& ip.slot() == iget_slot(old(table).slots(), dev, inum as u32)
                        &&& final(table).slots() == old(table).slots().update(
                            ip.slot(),
                            SlotView { dev, inum: inum as u32, refcnt: old(table).slots()[ip.slot()].refcnt + 1 },
                        )
                    }
                },
                None => final(table).slots() == old(table).slots(),
            },
            match dir_lookup(entries@, self.dinode.size as int, name@) {
                Some(inum) => final(table).tview() == iget_view(old(table).tview(), self.valid.unwrap().0, inum as u32).0,
                None => final(table).tview() == old(table).tview(),
            },
            forall|i: int| #[trigger] final(table).copy(i) == old(table).copy(i),
            final(table).wf() == old(table).wf(),
    {
        let dev = match self.valid {
            Some((d, _)) => d,
            None => {
                return None;
            },
        };
        let size = self.dinode.size;
        let mut k: usize = 0;
        let mut off: u64 = 0;
        while off < size as u64
            invariant
                off == k * DIRENT_SIZE,
                k * DIRENT_SIZE <= size + DIRENT_SIZE,
                k <= entries@.len(),
                size == self.dinode.size,
                entries@.len() * DIRENT_SIZE >= size,
                *table == *old(table),
                self.valid == Some((dev, self.valid.unwrap().1)),
                dir_lookup(entries@, size as int, name@) matches Some(inum) ==> (any_holding(
                    table.slots(),
                    dev,
                    inum as u32,
                ) || any_free(table.slots())),
                forall|i: int|
                    0 <= i < table.slots().len() ==> #[trigger] table.slots()[i].refcnt
                        < usize::MAX,
                forall|j: int| 0 <= j < k ==> !entry_matches(entries@, j, name@),
            decreases entries@.len() - k,
        {
            proof {
                assert((k as int) * 16 < size as int);
                assert((k as int) < entries@.len()) by (nonlinear_arith)
                    requires
                        (k as int) * 16 < size as int,
                        entries@.len() * 16 >= size as int,
                ;
            }
            let de = &entries[k];
            if de.inum != 0 && names_match(&de.name, name) {
                proof {
                    assert(first_entry(entries@, size as int, name@, k as int));
                    lemma_first_entry(entries@, size as int, name@, k as int);
                }
                let ip = table.iget(dev, de.inum as u32);
                proof {
                    lemma_iget_slot(old(table).slots(), dev, de.inum as u32, ip.slot());
                }
                return Some(ip);
            }
            k += 1;
            off += 16;
        }
        proof {
            assert forall|j: int| !first_entry(entries@, size as int, name@, j) by {
                if first_entry(entries@, size as int, name@, j) {
                    assert(j < k);
                }
            }
        }
        None
    }
}

/// An entry's name and `name` agree up to and with the entry name's first 0.
pub open spec fn name_matches(de: Seq<u8>, name: Seq<u8>) -> bool {
    exists|z: int| 0 <= z < DIRSIZ && de[z] == 0 && (forall|j: int| 0 <= j <= z ==> #[trigger] de[j] == name[j])
}

/// Entry `k` is in use and carries `name`.
pub open spec fn entry_matches(entries: Seq<DirEnt>, k: int, name: Seq<u8>) -> bool {
    entries[k].inum != 0 && name_matches(entries[k].name@, name)
}

/// Entry `k` is the first within `size` bytes of entries that is in use and
/// carries `name`.
pub open spec fn first_entry(entries: Seq<DirEnt>, size: int, name: Seq<u8>, k: int) -> bool {
    &&& 0 <= k
    &&& k * DIRENT_SIZE < size
    &&& entry_matches(entries, k, name)
    &&& forall|j: int| 0 <= j < k ==> !entry_matches(entries, j, name)
}

/// The inode number that looking `name` up among the entries of a directory
/// of `size` bytes finds.
pub open spec fn dir_lookup(entries: Seq<DirEnt>, size: int, name: Seq<u8>) -> Option<u16> {
    if exists|k: int| first_entry(entries, size, name, k) {
        Some(entries[choose|k: int| first_entry(entries, size, name, k)].inum)
    } else {
        None
    }
}

/// The first matching entry is the one `dir_lookup` takes.
proof fn lemma_first_entry(entries: Seq<DirEnt>, size: int, name: Seq<u8>, k: int)
    requires
        first_entry(entries, size, name, k),
    ensures
        dir_lookup(entries, size, name) == Some(entries[k].inum),
{
    let c = choose|c: int| first_entry(entries, size, name, c);
    assert(first_entry(entries, size, name, c));
    if c < k {
        assert(!entry_matches(entries, c, name));
    } else if k < c {
        assert(!entry_matches(entries, k, name));
    }
}

/// Whether the entry name `de` and `name` agree up to and with the entry
/// name's first 0.
fn names_match(de: &[u8; 14], name: &[u8; 14]) -> (b: bool)
    ensures
        b == name_matches(de@, name@),
{
    let mut i: usize = 0;
    while i < DIRSIZ
        invariant
            i <= DIRSIZ,
            forall|j: int| 0 <= j < i ==> de@[j] == name@[j] && de@[j] != 0,
        decreases DIRSIZ - i,
    {
        if de[i] != name[i] {
            proof {
                assert forall|z: int| 0 <= z < DIRSIZ && de@[z] == 0 implies !(forall|j: int| 0 <= j <= z ==> #[trigger] de@[j] == name@[j]) by {
                    assert(z >= i);
                    assert(de@[i as int] != name@[i as int]);
                }
            }
            return false;
        }
        if de[i] == 0 {
            assert(forall|j: int| 0 <= j <= i ==> #[trigger] de@[j] == name@[j]);
            return true;
        }
        i += 1;
    }
    false
}

/// A counted reference to a slot of the inode table.
pub struct INode {
    dev: u32,
    inum: u32,
    index: usize,
}

impl INode {
    /// The device of the inode.
    pub fn dev(&self) -> (r: u32)
        ensures
            r == self.names().0,
    {
        self.dev
    }

    /// The inode number.
    pub fn inum(&self) -> (r: u32)
        ensures
            r == self.names().1,
    {
        self.inum
    }

    /// The slot of the table.
    pub fn index(&self) -> (r: usize)
        ensures
            r == self.slot(),
    {
        self.index
    }

    /// The slot of the table.
    pub closed spec fn slot(&self) -> int {
        self.index as int
    }

    /// The device and inode number it names.
    pub closed spec fn names(&self) -> (u32, u32) {
        (self.dev, self.inum)
    }
}

/// The bookkeeping of a slot: which inode it holds, and how many references
/// to it are out.
pub struct INodeInfo {
    dev: u32,
    inum: u32,
    refcnt: usize,
}

/// What a slot of the table says: its device, inode number and count of
/// references.
pub ghost struct SlotView {
    pub dev: u32,
    pub inum: u32,
    pub refcnt: nat,
}

impl INodeInfo {
    spec fn view_slot(&self) -> SlotView {
        SlotView { dev: self.dev, inum: self.inum, refcnt: self.refcnt as nat }
    }
}

/// Whether slot `i` holds inode `inum` of `dev`.
pub open spec fn holds(s: Seq<SlotView>, i: int, dev: u32, inum: u32) -> bool {
    s[i].dev == dev && s[i].inum == inum
}

/// Slot `i` is the first that holds inode `inum` of `dev`.
pub open spec fn first_holding(s: Seq<SlotView>, i: int, dev: u32, inum: u32) -> bool {
    &&& 0 <= i < s.len()
    &&& holds(s, i, dev, inum)
    &&& forall|j: int| 0 <= j < i ==> !holds(s, j, dev, inum)
}

/// Some slot holds inode `inum` of `dev`.
pub open spec fn any_holding(s: Seq<SlotView>, dev: u32, inum: u32) -> bool {
    exists|i: int| 0 <= i < s.len() && holds(s, i, dev, inum)
}

/// Slot `i` is the first with no reference.
pub open spec fn first_free(s: Seq<SlotView>, i: int) -> bool {
    &&& 0 <= i < s.len()
    &&& s[i].refcnt == 0
    &&& forall|j: int| 0 <= j < i ==> s[j].refcnt != 0
}

/// Some slot has no reference.
pub open spec fn any_free(s: Seq<SlotView>) -> bool {
    exists|i: int| 0 <= i < s.len() && s[i].refcnt == 0
}

/// One slot per inode: once `iget` has given inode `inum` of `dev` the slot
/// `i` (and counted the reference), the next `iget` of that inode finds the
/// same slot.
pub proof fn lemma_iget_same_slot(s: Seq<SlotView>, dev: u32, inum: u32, i: int)
    requires
        any_holding(s, dev, inum) ==> first_holding(s, i, dev, inum),
        !any_holding(s, dev, inum) ==> first_free(s, i),
    ensures
        first_holding(s.update(i, SlotView { dev, inum, refcnt: s[i].refcnt + 1 }), i, dev, inum),
{
    let s2 = s.update(i, SlotView { dev, inum, refcnt: s[i].refcnt + 1 });
    assert forall|j: int| 0 <= j < i implies !holds(s2, j, dev, inum) by {
        if holds(s2, j, dev, inum) {
            assert(holds(s, j, dev, inum));
        }
    }
}

/// The slot `iget` gives inode `inum` of `dev`: the first that holds it, or
/// else the first with no reference.
pub open spec fn iget_slot(s: Seq<SlotView>, dev: u32, inum: u32) -> int {
    if any_holding(s, dev, inum) {
        choose|i: int| first_holding(s, i, dev, inum)
    } else {
        choose|i: int| first_free(s, i)
    }
}

/// There is one first slot holding an inode, and one first free slot; it
/// is the one `iget_slot` names.
proof fn lemma_iget_slot(s: Seq<SlotView>, dev: u32, inum: u32, i: int)
    requires
        any_holding(s, dev, inum) ==> first_holding(s, i, dev, inum),
        !any_holding(s, dev, inum) ==> first_free(s, i),
    ensures
        iget_slot(s, dev, inum) == i,
{
    if any_holding(s, dev, inum) {
        let j = choose|j: int| first_holding(s, j, dev, inum);
        assert(first_holding(s, j, dev, inum));
        if j < i {
            assert(!holds(s, j, dev, inum));
        } else if i < j {
            assert(!holds(s, i, dev, inum));
        }
    } else {
        let j = choose|j: int| first_free(s, j);
        assert(first_free(s, j));
        if j < i {
            assert(s[j].refcnt != 0);
        } else if i < j {
            assert(s[i].refcnt != 0);
        }
    }
}

/// The table as a whole: each slot, and each copy as the inode it holds
/// (once read) with its content.
pub ghost struct TableView {
    pub slots: Seq<SlotView>,
    pub datas: Seq<(Option<(u32, u32)>, DiskINode)>,
}

/// The table after `iget` of inode `inum` of `dev`, and the slot it gives.
pub open spec fn iget_view(t: TableView, dev: u32, inum: u32) -> (TableView, int) {
    let i = iget_slot(t.slots, dev, inum);
    (TableView { slots: t.slots.update(i, SlotView { dev, inum, refcnt: t.slots[i].refcnt + 1 }), ..t }, i)
}

/// The table after `idup` of slot `i`.
pub open spec fn idup_view(t: TableView, i: int) -> TableView {
    TableView { slots: t.slots.update(i, SlotView { refcnt: t.slots[i].refcnt + 1, ..t.slots[i] }), ..t }
}

/// The table after `iput` of slot `i`: one reference less; a copy that
/// holds an inode with no link is cleared when its last reference goes.
pub open spec fn iput_view(t: TableView, i: int) -> TableView {
    let sl = t.slots[i];
    let (valid, d) = t.datas[i];
    TableView {
        slots: t.slots.update(i, SlotView { refcnt: (sl.refcnt - 1) as nat, ..sl }),
        datas: if sl.refcnt == 1 && valid is Some && d.nlink == 0 {
            t.datas.update(i, (None, DiskINode { typed: INodeType::Empty, ..d }))
        } else {
            t.datas
        },
    }
}

/// What `ilock` of slot `i`, which holds inode `names`, may leave: the table
/// as it is where the copy holds an inode already, and otherwise the copy
/// filled with what `read` gives for `names`.
pub open spec fn ilock_view<F: Fn(u32, u32) -> DiskINode>(read: &F, t: TableView, i: int, names: (u32, u32), t2: TableView) -> bool {
    if t.datas[i].0 is Some {
        t2 == t
    } else {
        exists|d: DiskINode|
            #[trigger] read.ensures((names.0, names.1), d) && t2 == TableView {
                datas: t.datas.update(i, (Some(names), d)),
                ..t
            }
    }
}

/// A put right after a get gives every slot its count back, and leaves the
/// other slots as they were; the copies stay unless the get took a slot with
/// no reference whose copy holds an inode with no link, which the put clears.
pub proof fn lemma_iget_iput(t: TableView, dev: u32, inum: u32)
    requires
        any_holding(t.slots, dev, inum) || any_free(t.slots),
    ensures
        ({
            let (t1, i) = iget_view(t, dev, inum);
            let t2 = iput_view(t1, i);
            &&& 0 <= i < t.slots.len()
            &&& t2.slots.len() == t.slots.len()
            &&& forall|j: int| 0 <= j < t.slots.len() ==> #[trigger] t2.slots[j].refcnt == t.slots[j].refcnt
            &&& forall|j: int| 0 <= j < t.slots.len() && j != i ==> #[trigger] t2.slots[j] == t.slots[j]
            &&& t2.slots[i] == (SlotView { dev, inum, refcnt: t.slots[i].refcnt })
            &&& (t.slots[i].refcnt > 0 || t.datas[i].0 is None || t.datas[i].1.nlink != 0) ==> t2.datas == t.datas
        }),
{
    let i = iget_slot(t.slots, dev, inum);
    if any_holding(t.slots, dev, inum) {
        let k = choose|k: int| 0 <= k < t.slots.len() && holds(t.slots, k, dev, inum);
        lemma_first_holding_exists(t.slots, dev, inum, k);
        assert(first_holding(t.slots, i, dev, inum));
    } else {
        let k = choose|k: int| 0 <= k < t.slots.len() && t.slots[k].refcnt == 0;
        lemma_first_free_exists(t.slots, k);
        assert(first_free(t.slots, i));
    }
}

/// Where some slot holds an inode, there is a first such slot.
proof fn lemma_first_holding_exists(s: Seq<SlotView>, dev: u32, inum: u32, k: int)
    requires
        0 <= k < s.len(),
        holds(s, k, dev, inum),
    ensures
        exists|f: int| first_holding(s, f, dev, inum),
    decreases k,
{
    if forall|j: int| 0 <= j < k ==> !holds(s, j, dev, inum) {
        assert(first_holding(s, k, dev, inum));
    } else {
        let j = choose|j: int| 0 <= j < k && holds(s, j, dev, inum);
        lemma_first_holding_exists(s, dev, inum, j);
    }
}

/// Where some slot has no reference, there is a first such slot.
proof fn lemma_first_free_exists(s: Seq<SlotView>, k: int)
    requires
        0 <= k < s.len(),
        s[k].refcnt == 0,
    ensures
        exists|f: int| first_free(s, f),
    decreases k,
{
    if forall|j: int| 0 <= j < k ==> s[j].refcnt != 0 {
        assert(first_free(s, k));
    } else {
        let j = choose|j: int| 0 <= j < k && s[j].refcnt == 0;
        lemma_first_free_exists(s, j);
    }
}

/// The inodes in use, with their in-memory copies.
pub struct INodeTable {
    info: Vec<INodeInfo>,
    data: Vec<INodeData>,
}

impl INodeTable {
    /// The slots.
    pub closed spec fn slots(&self) -> Seq<SlotView> {
        self.info@.map_values(|x: INodeInfo| x.view_slot())
    }

    /// The in-memory copy of slot `i`.
    pub closed spec fn copy(&self, i: int) -> (Option<(u32, u32)>, INodeType, u16) {
        (self.data@[i].valid, self.data@[i].dinode.typed, self.data@[i].dinode.nlink)
    }

    /// The slots with the in-memory copies.
    pub closed spec fn tview(&self) -> TableView {
        TableView {
            slots: self.slots(),
            datas: self.data@.map_values(|d: INodeData| (d.valid, d.dinode)),
        }
    }

    /// As many copies as slots.
    pub closed spec fn wf(&self) -> bool {
        self.info@.len() == self.data@.len()
    }

    /// A table of `NINODE` empty slots.
    pub fn new() -> (t: INodeTable)
        ensures
            t.wf(),
            t.slots().len() == NINODE,
            forall|i: int|
                0 <= i < NINODE ==> #[trigger] t.slots()[i] == (SlotView {
                    dev: 0,
                    inum: 0,
                    refcnt: 0,
                }) && t.copy(i).0 is None,
    {
        let mut info: Vec<INodeInfo> = Vec::new();
        let mut data: Vec<INodeData> = Vec::new();
        let mut i: usize = 0;
        while i < NINODE
            invariant
                i <= NINODE,
                info@.len() == i,
                data@.len() == i,
                forall|j: int|
                    0 <= j < i ==> #[trigger] info@[j].view_slot() == (SlotView {
                        dev: 0,
                        inum: 0,
                        refcnt: 0,
                    }) && data@[j].valid is None,
            decreases NINODE - i,
        {
            info.push(INodeInfo { dev: 0, inum: 0, refcnt: 0 });
            data.push(INodeData::new());
            i += 1;
        }
        INodeTable { info, data }
    }

    /// The reference to inode `inum` of `dev`: the first slot that holds it,
    /// or else the first slot with no reference, which then holds it. Either
    /// way one more reference is counted. The inode is neither locked nor
    /// read.
    pub fn iget(&mut self, dev: u32, inum: u32) -> (ip: INode)
        requires
            any_holding(old(self).slots(), dev, inum) || any_free(old(self).slots()),
            forall|i: int|
                0 <= i < old(self).slots().len() ==> #[trigger] old(self).slots()[i].refcnt
                    < usize::MAX,
        ensures
            final(self).wf() == old(self).wf(),
            ip.names() == (dev, inum),
            any_holding(old(self).slots(), dev, inum) ==> first_holding(
                old(self).slots(),
                ip.slot(),
                dev,
                inum,
            ),
            !any_holding(old(self).slots(), dev, inum) ==> first_free(old(self).slots(), ip.slot()),
            final(self).slots() == old(self).slots().update(
                ip.slot(),
                SlotView { dev, inum, refcnt: old(self).slots()[ip.slot()].refcnt + 1 },
            ),
            forall|i: int| #[trigger] final(self).copy(i) == old(self).copy(i),
            ip.slot() == iget_view(old(self).tview(), dev, inum).1,
            final(self).tview() == iget_view(old(self).tview(), dev, inum).0,
    {
        let ghost s = self.slots();
        let mut empty: Option<usize> = None;
        let mut i: usize = 0;
        while i < self.info.len()
            invariant
                self.slots() == s,
                s == old(self).slots(),
                self.info@ == old(self).info@,
                self.data@ == old(self).data@,
                forall|j: int| 0 <= j < s.len() ==> #[trigger] s[j].refcnt < usize::MAX,
                i <= s.len(),
                s.len() == self.info@.len(),
                forall|j: int| 0 <= j < i ==> !holds(s, j, dev, inum),
                match empty {
                    Some(e) => first_free(s, e as int) && e < i,
                    None => forall|j: int| 0 <= j < i ==> s[j].refcnt != 0,
                },
            decreases self.info.len() - i,
        {
            assert(s[i as int] == self.info@[i as int].view_slot());
            if self.info[i].dev == dev && self.info[i].inum == inum {
                let r = self.info[i].refcnt;
                self.info.set(i, INodeInfo { dev, inum, refcnt: r + 1 });
                proof {
                    assert(self.slots() =~= s.update(
                        i as int,
                        SlotView { dev, inum, refcnt: s[i as int].refcnt + 1 },
                    ));
                    assert(holds(s, i as int, dev, inum));
                    lemma_iget_slot(s, dev, inum, i as int);
                    assert(self.tview().datas =~= old(self).tview().datas);
                }
                return INode { dev, inum, index: i };
            }
            if empty.is_none() && self.info[i].refcnt == 0 {
                empty = Some(i);
            }
            i += 1;
        }
        let e = match empty {
            Some(e) => e,
            None => {
                assert(false);
                0
            },
        };
        let r = self.info[e].refcnt;
        self.info.set(e, INodeInfo { dev, inum, refcnt: r + 1 });
        proof {
            assert(s[e as int] == old(self).info@[e as int].view_slot());
            assert(self.slots() =~= s.update(e as int, SlotView { dev, inum, refcnt: s[e as int].refcnt + 1 }));
            lemma_iget_slot(s, dev, inum, e as int);
            assert(self.tview().datas =~= old(self).tview().datas);
        }
        INode { dev, inum, index: e }
    }

    /// Drops a reference to slot `index`. When it was the last one and the
    /// copy holds an inode with no link left, the copy is cleared: its type
    /// becomes empty and it no longer holds the inode.
    pub fn iput(&mut self, index: usize)
        requires
            old(self).wf(),
            index < old(self).slots().len(),
            old(self).slots()[index as int].refcnt >= 1,
        ensures
            final(self).wf(),
            final(self).slots() == old(self).slots().update(
                index as int,
                SlotView { refcnt: (old(self).slots()[index as int].refcnt - 1) as nat, ..old(self).slots()[index as int] },
            ),
            forall|i: int|
                0 <= i < old(self).slots().len() && i != index ==> #[trigger] final(self).copy(i)
                    == old(self).copy(i),
            ({
                let (valid, typed, nlink) = old(self).copy(index as int);
                if old(self).slots()[index as int].refcnt == 1 && valid is Some && nlink == 0 {
                    final(self).copy(index as int) == (None::<(u32, u32)>, INodeType::Empty, nlink)
                } else {
                    final(self).copy(index as int) == old(self).copy(index as int)
                }
            }),
            final(self).tview() == iput_view(old(self).tview(), index as int),
    {
        let ghost s = self.slots();
        assert(s[index as int] == self.info@[index as int].view_slot());
        if self.info[index].refcnt == 1 {
            if self.data[index].valid.is_some() && self.data[index].dinode.nlink == 0 {
                let mut d = INodeData { valid: None, dinode: self.data[index].dinode };
                d.dinode.typed = INodeType::Empty;
                self.data.set(index, d);
            }
        }
        let old_info = &self.info[index];
        let cleared = INodeInfo {
            dev: old_info.dev,
            inum: old_info.inum,
            refcnt: old_info.refcnt - 1,
        };
        self.info.set(index, cleared);
        proof {
            assert(self.slots() =~= s.update(
                index as int,
                SlotView { refcnt: (s[index as int].refcnt - 1) as nat, ..s[index as int] },
            ));
            assert(self.tview().datas =~= iput_view(old(self).tview(), index as int).datas);
        }
    }

    /// Counts one more reference to the slot of `ip`, and returns it again.
    pub fn idup(&mut self, ip: &INode) -> (r: INode)
        requires
            ip.slot() < old(self).slots().len(),
            old(self).slots()[ip.slot()].refcnt < usize::MAX,
        ensures
            r.slot() == ip.slot(),
            r.names() == (old(self).slots()[ip.slot()].dev, old(self).slots()[ip.slot()].inum),
            final(self).slots() == old(self).slots().update(
                ip.slot(),
                SlotView { refcnt: old(self).slots()[ip.slot()].refcnt + 1, ..old(self).slots()[ip.slot()] },
            ),
            forall|i: int| #[trigger] final(self).copy(i) == old(self).copy(i),
            final(self).wf() == old(self).wf(),
            final(self).tview() == idup_view(old(self).tview(), ip.slot()),
    {
        let ghost s = self.slots();
        let i = ip.index;
        assert(s[i as int] == self.info@[i as int].view_slot());
        let dev = self.info[i].dev;
        let inum = self.info[i].inum;
        let refcnt = self.info[i].refcnt;
        self.info.set(i, INodeInfo { dev, inum, refcnt: refcnt + 1 });
        proof {
            assert(self.slots() =~= s.update(
                i as int,
                SlotView { refcnt: s[i as int].refcnt + 1, ..s[i as int] },
            ));
            assert(self.tview().datas =~= old(self).tview().datas);
        }
        INode { dev, inum, index: i }
    }
}


/// The first position from `c` on that does not hold a '/'.
pub open spec fn skip_slashes(p: Seq<u8>, c: int) -> int
    decreases p.len() - c,
{
    if 0 <= c < p.len() && p[c] == 0x2f {
        skip_slashes(p, c + 1)
    } else {
        c
    }
}

/// The first position from `c` on that holds a '/' or a 0.
pub open spec fn elem_end(p: Seq<u8>, c: int) -> int
    decreases p.len() - c,
{
    if 0 <= c < p.len() && p[c] != 0x2f && p[c] != 0 {
        elem_end(p, c + 1)
    } else {
        c
    }
}

/// A 0 ends the path somewhere from `c` on.
pub open spec fn terminated_from(p: Seq<u8>, c: int) -> bool {
    exists|k: int| c <= k < p.len() && p[k] == 0
}

/// The next element of the path from `c` on, as its first position and the
/// position after it; `None` when only slashes are left.
pub open spec fn next_elem(p: Seq<u8>, c: int) -> Option<(int, int)> {
    let s = skip_slashes(p, c);
    if p[s] == 0 {
        None
    } else {
        Some((s, elem_end(p, s)))
    }
}

/// What `skip_elem` answers: the position of the last '/' before the element
/// that follows the next one, or 0 when no element follows it (or there is
/// no next element).
pub open spec fn skip_elem_result(p: Seq<u8>, c: int) -> int {
    match next_elem(p, c) {
        None => 0,
        Some((_, e)) => {
            let n = skip_slashes(p, e);
            if p[n] == 0 {
                0
            } else {
                n - 1
            }
        },
    }
}

/// The bytes of the name that `skip_elem` copies: the next element, cut to
/// `DIRSIZ - 1` bytes.
pub open spec fn elem_name(p: Seq<u8>, c: int) -> Option<Seq<u8>> {
    match next_elem(p, c) {
        None => None,
        Some((s, e)) => {
            let len = if e - s >= DIRSIZ {
                DIRSIZ - 1
            } else {
                e - s
            };
            Some(p.subrange(s, s + len))
        },
    }
}

proof fn lemma_skip_slashes(p: Seq<u8>, c: int, k: int)
    requires
        0 <= c <= k < p.len(),
        p[k] == 0,
    ensures
        c <= skip_slashes(p, c) <= k,
        p[skip_slashes(p, c)] != 0x2f,
    decreases k - c,
{
    if p[c] == 0x2f {
        lemma_skip_slashes(p, c + 1, k);
    }
}

proof fn lemma_elem_end(p: Seq<u8>, c: int, k: int)
    requires
        0 <= c <= k < p.len(),
        p[k] == 0,
    ensures
        c <= elem_end(p, c) <= k,
        p[elem_end(p, c)] == 0x2f || p[elem_end(p, c)] == 0,
        forall|j: int| c <= j < elem_end(p, c) ==> p[j] != 0x2f && p[j] != 0,
    decreases k - c,
{
    if p[c] != 0x2f && p[c] != 0 {
        lemma_elem_end(p, c + 1, k);
    }
}

/// What `skip_elem` answers lies within the path.
proof fn lemma_skip_elem_result_bound(p: Seq<u8>, c: int, k: int)
    requires
        0 <= c <= k < p.len(),
        p[k] == 0,
    ensures
        0 <= skip_elem_result(p, c) <= k,
{
    lemma_skip_slashes(p, c, k);
    let s = skip_slashes(p, c);
    if p[s] != 0 {
        lemma_elem_end(p, s, k);
        let e = elem_end(p, s);
        lemma_skip_slashes(p, e, k);
    }
}

impl INodeTable {
    /// Copies the next element of `path` from `cur` on into `name`, cut to
    /// `DIRSIZ - 1` bytes and ended by a 0, and returns the position of the
    /// last '/' before the element after it, or 0 when none follows.
    /// Examples:
    ///     skip_elem("a/bb/c", name) = 1, setting name = "a"
    ///     skip_elem("///a//bb", name) = 5, setting name = "a"
    ///     skip_elem("a", name) = 0, setting name = "a"
    ///     skip_elem("", name) = skip_elem("////", name) = 0
    pub fn skip_elem(&self, path: &[u8], cur: usize, name: &mut [u8; 14]) -> (r: usize)
        requires
            terminated_from(path@, cur as int),
        ensures
            r == skip_elem_result(path@, cur as int),
            match elem_name(path@, cur as int) {
                None => final(name)@ == old(name)@,
                Some(nm) => {
                    &&& final(name)@.subrange(0, nm.len() as int) == nm
                    &&& final(name)@[nm.len() as int] == 0
                    &&& forall|j: int| nm.len() < j < DIRSIZ ==> final(name)@[j] == old(name)@[j]
                },
            },
    {
        let ghost p = path@;
        let ghost k = choose|k: int| cur <= k < p.len() && p[k] == 0;
        proof {
            lemma_skip_slashes(p, cur as int, k);
        }
        let mut c = cur;
        while path[c] == 0x2fu8
            invariant
                c <= k < p.len(),
                p == path@,
                p[k] == 0,
                skip_slashes(p, c as int) == skip_slashes(p, cur as int),
            decreases k - c,
        {
            c += 1;
        }
        if path[c] == 0 {
            return 0;
        }
        let s = c;
        proof {
            lemma_elem_end(p, s as int, k);
        }
        while path[c] != 0x2fu8 && path[c] != 0
            invariant
                s <= c <= k < p.len(),
                p == path@,
                p[k] == 0,
                elem_end(p, c as int) == elem_end(p, s as int),
            decreases k - c,
        {
            c += 1;
        }
        let mut len = c - s;
        if len >= DIRSIZ {
            len = DIRSIZ - 1;
        }
        let mut i: usize = 0;
        while i < len
            invariant
                i <= len < DIRSIZ,
                s + len <= k < path.len(),
                p == path@,
                forall|j: int| 0 <= j < i ==> name@[j] == p[s + j],
                forall|j: int| len <= j < DIRSIZ ==> name@[j] == old(name)@[j],
            decreases len - i,
        {
            name.set(i, path[s + i]);
            i += 1;
        }
        name.set(len, 0);
        proof {
            assert(name@.subrange(0, len as int) =~= p.subrange(s as int, s + len));
            lemma_skip_slashes(p, c as int, k);
        }
        let e = c;
        while path[c] == 0x2fu8
            invariant
                e <= c <= k < p.len(),
                p == path@,
                p[k] == 0,
                skip_slashes(p, c as int) == skip_slashes(p, e as int),
            decreases k - c,
        {
            c += 1;
        }
        if path[c] == 0 {
            0
        } else {
            c - 1
        }
    }
}


/// What reading inodes from the disk may give: anything but an inode of no
/// type.
pub open spec fn reads_typed<F: Fn(u32, u32) -> DiskINode>(read: &F) -> bool {
    &&& forall|dev: u32, inum: u32| #[trigger] read.requires((dev, inum))
    &&& forall|dev: u32, inum: u32, d: DiskINode| #[trigger] read.ensures((dev, inum), d) ==> d.typed != INodeType::Empty
}

/// The slot of the directory a walk starts from: the root's, taken by
/// `iget`, for a path that starts with '/', and `cwd` otherwise.
pub open spec fn namex_start(s: Seq<SlotView>, path: Seq<u8>, cwd: int) -> int {
    if path[0] == 0x2f {
        iget_slot(s, ROOTDEV, ROOTINO)
    } else {
        cwd
    }
}

impl INodeTable {
    /// The copy of the inode of `ip`, read from the disk by `read` unless it
    /// is held already. An inode of no type on the disk is refused.
    pub fn ilock<F: Fn(u32, u32) -> DiskINode>(&mut self, ip: &INode, read: &F)
        requires
            old(self).wf(),
            ip.slot() < old(self).slots().len(),
            reads_typed(read),
        ensures
            final(self).wf(),
            final(self).slots() == old(self).slots(),
            forall|i: int| 0 <= i < old(self).slots().len() && i != ip.slot() ==> #[trigger] final(self).copy(i) == old(self).copy(i),
            old(self).copy(ip.slot()).0 is Some ==> final(self).copy(ip.slot()) == old(self).copy(ip.slot()),
            old(self).copy(ip.slot()).0 is None ==> exists|d: DiskINode| {
                &&& read.ensures((ip.names().0, ip.names().1), d)
                &&& #[trigger] final(self).copy(ip.slot()) == (Some(ip.names()), d.typed, d.nlink)
            },
            final(self).copy(ip.slot()).0 is Some,
            final(self).copy(ip.slot()).1 != INodeType::Empty || old(self).copy(ip.slot()).0 is Some,
            ilock_view(read, old(self).tview(), ip.slot(), ip.names(), final(self).tview()),
    {
        let i = ip.index;
        if self.data[i].valid.is_some() {
            return;
        }
        let d = read(ip.dev, ip.inum);
        self.data.set(i, INodeData { valid: Some((ip.dev, ip.inum)), dinode: d });
        proof {
            assert(self.tview().datas =~= old(self).tview().datas.update(i as int, (Some(ip.names()), d)));
            assert(self.tview().slots == old(self).tview().slots);
        }
    }

    /// The table's view holds its slots, and a copy for each of them.
    pub proof fn lemma_tview(&self)
        ensures
            self.tview().slots == self.slots(),
            self.wf() ==> self.tview().datas.len() == self.slots().len(),
    {
    }

    /// The type of the inode the copy of `ip`'s slot holds.
    pub fn itype(&self, ip: &INode) -> (t: INodeType)
        requires
            self.wf(),
            ip.slot() < self.slots().len(),
        ensures
            t == self.tview().datas[ip.slot()].1.typed,
    {
        self.data[ip.index].dinode.typed
    }

    /// The inode `path` leads to, from the root when it starts with '/' and
    /// from `cwd` otherwise: each element in turn is looked up in the
    /// directory reached so far, whose entries `read_dir` reads; the last
    /// element read stays in `name`. With `parent`, the walk stops one level
    /// early and gives the directory that holds the last element. A path with
    /// no element gives the start directory. It finds nothing where an inode
    /// on the way is no directory or an element is not found.
    /// Every reference it takes and does not return is dropped again.
    pub fn namex<F: Fn(u32, u32) -> DiskINode, G: Fn(u32, u32, u32) -> Vec<DirEnt>>(
        &mut self,
        path: &[u8],
        name: &mut [u8; 14],
        parent: bool,
        cwd: &INode,
        read: &F,
        read_dir: &G,
    ) -> (r: Option<INode>)
        requires
            old(self).wf(),
            terminated_from(path@, 0),
            reads_typed(read),
            reads_dir(read_dir),
            cwd.slot() < old(self).slots().len(),
            any_holding(old(self).slots(), ROOTDEV, ROOTINO) || any_free(old(self).slots()),
            next_elem(path@, 0) is Some ==> two_free(old(self).slots()),
            forall|i: int|
                0 <= i < old(self).slots().len() ==> #[trigger] old(self).slots()[i].refcnt < usize::MAX - 1,
        ensures
            final(self).wf(),
            final(self).slots().len() == old(self).slots().len(),
            walk(
                read,
                read_dir,
                path@,
                0,
                parent,
                namex_begin(old(self).tview(), path@, cwd.slot()).0,
                namex_begin(old(self).tview(), path@, cwd.slot()).1,
                final(self).tview(),
                ref_view(r),
            ),
            next_elem(path@, 0) is None ==> (r matches Some(ip) && {
                &&& ip.slot() == namex_start(old(self).slots(), path@, cwd.slot())
                &&& path@[0] == 0x2f ==> ip.names() == (ROOTDEV, ROOTINO)
                &&& path@[0] != 0x2f ==> ip.names() == (
                    old(self).slots()[cwd.slot()].dev,
                    old(self).slots()[cwd.slot()].inum,
                )
                &&& forall|i: int|
                    0 <= i < old(self).slots().len() && i != ip.slot() ==> #[trigger] final(self).slots()[i]
                        == old(self).slots()[i]
            }),
            r matches Some(ip) ==> {
                &&& 0 <= ip.slot() < old(self).slots().len()
                &&& ip.names() == (final(self).slots()[ip.slot()].dev, final(self).slots()[ip.slot()].inum)
                &&& final(self).slots()[ip.slot()].refcnt == old(self).slots()[ip.slot()].refcnt + 1
                &&& forall|i: int|
                    0 <= i < old(self).slots().len() && i != ip.slot() ==> #[trigger] final(self).slots()[i].refcnt
                        == old(self).slots()[i].refcnt
            },
            r is None ==> forall|i: int|
                0 <= i < old(self).slots().len() ==> #[trigger] final(self).slots()[i].refcnt == old(self).slots()[i].refcnt,
            r matches Some(ip) ==> (next_elem(path@, 0) is Some && parent ==> final(self).copy(ip.slot()).1
                == INodeType::Directory),
    {
        let ghost s0 = self.slots();
        let ghost t_old = self.tview();
        let mut ip = if path[0] == 0x2fu8 {
            let ip = self.iget(ROOTDEV, ROOTINO);
            proof {
                lemma_iget_slot(s0, ROOTDEV, ROOTINO, ip.slot());
            }
            ip
        } else {
            self.idup(cwd)
        };
        assert(ip.slot() == namex_start(s0, path@, cwd.slot()));
        let ghost t0 = self.tview();
        let ghost start = (ip.slot(), ip.names());
        assert(t0 == namex_begin(t_old, path@, cwd.slot()).0);
        assert(start == namex_begin(t_old, path@, cwd.slot()).1);
        if !has_elem(path, 0) {
            assert(walk(read, read_dir, path@, 0, parent, t0, start, self.tview(), Some(start)));
            return Some(ip);
        }
        let ghost k = choose|k: int| 0 <= k < path@.len() && path@[k] == 0;
        let mut cur: usize = 0;
        loop
            invariant
                self.wf(),
                self.slots().len() == s0.len(),
                s0 == old(self).slots(),
                t_old == old(self).tview(),
                t0 == namex_begin(t_old, path@, cwd.slot()).0,
                start == namex_begin(t_old, path@, cwd.slot()).1,
                0 <= k < path@.len(),
                path@[k] == 0,
                cur <= k,
                terminated_from(path@, cur as int),
                next_elem(path@, cur as int) is Some,
                next_elem(path@, 0) is Some,
                two_free(s0),
                reads_typed(read),
                reads_dir(read_dir),
                forall|i: int| 0 <= i < s0.len() ==> #[trigger] s0[i].refcnt < usize::MAX - 1,
                0 <= ip.slot() < s0.len(),
                ip.names() == (self.slots()[ip.slot()].dev, self.slots()[ip.slot()].inum),
                self.slots()[ip.slot()].refcnt == s0[ip.slot()].refcnt + 1,
                forall|i: int| 0 <= i < s0.len() && i != ip.slot() ==> #[trigger] self.slots()[i].refcnt == s0[i].refcnt,
                forall|tf: TableView, rr: Option<(int, (u32, u32))>|
                    #[trigger] walk(read, read_dir, path@, cur as int, parent, self.tview(), (ip.slot(), ip.names()), tf, rr)
                        ==> walk(read, read_dir, path@, 0, parent, t0, start, tf, rr),
            decreases k - cur,
        {
            let ghost tc = self.tview();
            let ghost ipc = (ip.slot(), ip.names());
            proof {
                assert forall|tf: TableView, rr: Option<(int, (u32, u32))>|
                    #[trigger] walk(read, read_dir, path@, cur as int, parent, tc, ipc, tf, rr)
                    implies walk(read, read_dir, path@, 0, parent, t0, start, tf, rr) by {
                    assert(walk(read, read_dir, path@, cur as int, parent, self.tview(), (ip.slot(), ip.names()), tf, rr));
                }
            }
            let r = self.skip_elem(path, cur, name);
            proof {
                lemma_skip_elem_result_bound(path@, cur as int, k);
                lemma_elem_name_len(path@, cur as int, k);
                if r != 0 {
                    lemma_next_after(path@, cur as int, k);
                    assert(path@[k] == 0 && r <= k);
                }
            }
            let ghost nm = padded(elem_name(path@, cur as int).unwrap());
            let last = r == 0;
            self.ilock(&ip, read);
            let ghost t1 = self.tview();
            assert(ilock_view(read, tc, ipc.0, ipc.1, t1));
            let i = ip.index;
            assert(self.slots().len() == self.info@.len());
            assert(t1.datas[i as int] == (self.data@[i as int].valid, self.data@[i as int].dinode));
            if self.data[i].dinode.typed != INodeType::Directory {
                self.iput(i);
                assert(walk(read, read_dir, path@, cur as int, parent, tc, ipc, self.tview(), None));
                assert(walk(read, read_dir, path@, 0, parent, t0, start, self.tview(), None));
                return None;
            }
            if parent && last {
                assert(walk(read, read_dir, path@, cur as int, parent, tc, ipc, self.tview(), Some(ipc)));
                return Some(ip);
            }
            let d = INodeData { valid: self.data[i].valid, dinode: self.data[i].dinode };
            let (ddev, dinum) = match d.valid {
                Some(v) => v,
                None => {
                    self.iput(i);
                    assert(walk(read, read_dir, path@, cur as int, parent, tc, ipc, self.tview(), None));
                    assert(walk(read, read_dir, path@, 0, parent, t0, start, self.tview(), None));
                    return None;
                },
            };
            let entries = read_dir(ddev, dinum, d.dinode.size);
            proof {
                let ghost sl = self.slots();
                let (a, b) = choose|a: int, b: int| 0 <= a < s0.len() && 0 <= b < s0.len() && a != b && s0[a].refcnt == 0 && s0[b].refcnt == 0;
                if a != ip.slot() {
                    assert(sl[a].refcnt == 0);
                } else {
                    assert(sl[b].refcnt == 0);
                }
                assert(any_free(sl));
                assert forall|j: int| 0 <= j < sl.len() implies #[trigger] sl[j].refcnt < usize::MAX by {
                    assert(s0[j].refcnt < usize::MAX - 1);
                }
                lemma_lookup_prefix(entries@, d.dinode.size as int, name@, elem_name(path@, cur as int).unwrap(), elem_name(path@, cur as int).unwrap().len() as int);
            }
            let ghost before = self.slots();
            let found = d.dirlookup(name, entries.as_slice(), self);
            match found {
                Some(next) => {
                    self.iput(i);
                    proof {
                        let ghost sl = self.slots();
                        assert forall|j: int| 0 <= j < s0.len() && j != next.slot() implies #[trigger] sl[j].refcnt == s0[j].refcnt by {
                            if j == i as int {
                            } else {
                                assert(before[j].refcnt == s0[j].refcnt);
                            }
                        }
                        assert(read_dir.ensures((ddev, dinum, d.dinode.size), entries));
                    }
                    if last {
                        assert(walk(read, read_dir, path@, cur as int, parent, tc, ipc, self.tview(), Some((next.slot(), next.names()))));
                        return Some(next);
                    }
                    proof {
                        assert forall|tf: TableView, rr: Option<(int, (u32, u32))>|
                            #[trigger] walk(read, read_dir, path@, r as int, parent, self.tview(), (next.slot(), next.names()), tf, rr)
                            implies walk(read, read_dir, path@, 0, parent, t0, start, tf, rr) by {
                            assert(walk(read, read_dir, path@, cur as int, parent, tc, ipc, tf, rr));
                        }
                    }
                    ip = next;
                },
                None => {
                    self.iput(i);
                    assert(read_dir.ensures((ddev, dinum, d.dinode.size), entries));
                    assert(walk(read, read_dir, path@, cur as int, parent, tc, ipc, self.tview(), None));
                    assert(walk(read, read_dir, path@, 0, parent, t0, start, self.tview(), None));
                    return None;
                },
            }
            cur = r;
        }
    }

    /// The inode `path` leads to (see `namex`).
    pub fn namei<F: Fn(u32, u32) -> DiskINode, G: Fn(u32, u32, u32) -> Vec<DirEnt>>(
        &mut self,
        path: &[u8],
        cwd: &INode,
        read: &F,
        read_dir: &G,
    ) -> (r: Option<INode>)
        requires
            old(self).wf(),
            terminated_from(path@, 0),
            reads_typed(read),
            reads_dir(read_dir),
            cwd.slot() < old(self).slots().len(),
            any_holding(old(self).slots(), ROOTDEV, ROOTINO) || any_free(old(self).slots()),
            next_elem(path@, 0) is Some ==> two_free(old(self).slots()),
            forall|i: int|
                0 <= i < old(self).slots().len() ==> #[trigger] old(self).slots()[i].refcnt < usize::MAX - 1,
        ensures
            final(self).wf(),
            final(self).slots().len() == old(self).slots().len(),
            r matches Some(ip) ==> 0 <= ip.slot() < old(self).slots().len(),
            walk(
                read,
                read_dir,
                path@,
                0,
                false,
                namex_begin(old(self).tview(), path@, cwd.slot()).0,
                namex_begin(old(self).tview(), path@, cwd.slot()).1,
                final(self).tview(),
                ref_view(r),
            ),
            next_elem(path@, 0) is None ==> (r matches Some(ip) && {
                &&& path@[0] == 0x2f ==> ip.names() == (ROOTDEV, ROOTINO)
                &&& path@[0] != 0x2f ==> ip.slot() == cwd.slot()
            }),
            r matches Some(ip) ==> {
                &&& final(self).slots()[ip.slot()].refcnt == old(self).slots()[ip.slot()].refcnt + 1
                &&& forall|i: int|
                    0 <= i < old(self).slots().len() && i != ip.slot() ==> #[trigger] final(self).slots()[i].refcnt
                        == old(self).slots()[i].refcnt
            },
            r is None ==> forall|i: int|
                0 <= i < old(self).slots().len() ==> #[trigger] final(self).slots()[i].refcnt == old(self).slots()[i].refcnt,
    {
        let mut name: [u8; 14] = [0u8; 14];
        self.namex(path, &mut name, false, cwd, read, read_dir)
    }
}

/// A reference as the slot it counts and the inode it names.
pub open spec fn ref_view(r: Option<INode>) -> Option<(int, (u32, u32))> {
    match r {
        Some(ip) => Some((ip.slot(), ip.names())),
        None => None,
    }
}

/// Where a walk starts, and the table once the start directory is taken:
/// the root, by `iget`, for a path that starts with '/', and otherwise the
/// slot `cwd`, by `idup`.
pub open spec fn namex_begin(t: TableView, path: Seq<u8>, cwd: int) -> (TableView, (int, (u32, u32))) {
    if path[0] == 0x2f {
        let (t1, i) = iget_view(t, ROOTDEV, ROOTINO);
        (t1, (i, (ROOTDEV, ROOTINO)))
    } else {
        (idup_view(t, cwd), (cwd, (t.slots[cwd].dev, t.slots[cwd].inum)))
    }
}

/// The walk from position `cur` of `path`, holding the reference `ip` (its
/// slot and inode) in table `t`, ends in table `tf` with the reference `r`,
/// given what `read` and `read_dir` may give. With no element left it gives
/// `ip`. Otherwise the copy of `ip` is locked (read where it holds no inode
/// yet); an inode that is no directory ends the walk with nothing; with
/// `parent` the last element is not looked up and `ip` is given; otherwise
/// the element is looked up among the entries `read_dir` gives for the
/// inode the copy holds and its size, and the inode found (taken by `iget`
/// on the copy's device) replaces `ip`, whose reference is dropped; the
/// walk goes on from the next element, or gives it after the last one.
pub open spec fn walk<F: Fn(u32, u32) -> DiskINode, G: Fn(u32, u32, u32) -> Vec<DirEnt>>(
    read: &F,
    read_dir: &G,
    path: Seq<u8>,
    cur: int,
    parent: bool,
    t: TableView,
    ip: (int, (u32, u32)),
    tf: TableView,
    r: Option<(int, (u32, u32))>,
) -> bool
    decreases path.len() - cur, 1int,
{
    if next_elem(path, cur) is None {
        r == Some(ip) && tf == t
    } else {
        0 <= ip.0 < t.datas.len() && exists|t1: TableView|
            #[trigger] ilock_view(read, t, ip.0, ip.1, t1) && walk_locked(read, read_dir, path, cur, parent, t1, ip, tf, r)
    }
}

/// The walk from position `cur` of `path`, as `walk` says, once the copy of
/// `ip` is locked in table `t1`.
pub open spec fn walk_locked<F: Fn(u32, u32) -> DiskINode, G: Fn(u32, u32, u32) -> Vec<DirEnt>>(
    read: &F,
    read_dir: &G,
    path: Seq<u8>,
    cur: int,
    parent: bool,
    t1: TableView,
    ip: (int, (u32, u32)),
    tf: TableView,
    r: Option<(int, (u32, u32))>,
) -> bool
    decreases path.len() - cur, 0int,
{
    let res = skip_elem_result(path, cur);
    let last = res == 0;
    let nm = padded(elem_name(path, cur).unwrap());
    let (valid, d) = t1.datas[ip.0];
    if d.typed != INodeType::Directory || (!(parent && last) && valid is None) {
        r is None && tf == iput_view(t1, ip.0)
    } else if parent && last {
        r == Some(ip) && tf == t1
    } else {
        let (ddev, dinum) = valid.unwrap();
        exists|e: Vec<DirEnt>|
            #[trigger] read_dir.ensures((ddev, dinum, d.size), e) && match dir_lookup(e@, d.size as int, nm) {
                None => r is None && tf == iput_view(t1, ip.0),
                Some(inum) => {
                    let (t2, j) = iget_view(t1, ddev, inum as u32);
                    let t3 = iput_view(t2, ip.0);
                    let next = (j, (ddev, inum as u32));
                    if last {
                        r == Some(next) && tf == t3
                    } else if cur < res <= path.len() {
                        walk(read, read_dir, path, res, parent, t3, next, tf, r)
                    } else {
                        false
                    }
                },
            }
    }
}

/// A name of `DIRSIZ` bytes: `nm`, then zeros.
pub open spec fn padded(nm: Seq<u8>) -> Seq<u8> {
    Seq::new(DIRSIZ as nat, |j: int| if j < nm.len() { nm[j] } else { 0u8 })
}

/// A name copied by `skip_elem` is shorter than a directory entry's.
proof fn lemma_elem_name_len(p: Seq<u8>, c: int, k: int)
    requires
        0 <= c <= k < p.len(),
        p[k] == 0,
    ensures
        elem_name(p, c) matches Some(nm) ==> nm.len() < DIRSIZ,
{
    lemma_skip_slashes(p, c, k);
    let s = skip_slashes(p, c);
    if p[s] != 0 {
        lemma_elem_end(p, s, k);
    }
}

/// Two names that agree up to and with a 0 at `len` find the same entry.
proof fn lemma_lookup_prefix(e: Seq<DirEnt>, size: int, a: Seq<u8>, nm: Seq<u8>, len: int)
    requires
        0 <= len < DIRSIZ,
        nm.len() == len,
        a.len() == DIRSIZ,
        a.subrange(0, len) == nm,
        a[len] == 0,
    ensures
        dir_lookup(e, size, a) == dir_lookup(e, size, padded(nm)),
{
    let b = padded(nm);
    assert forall|j: int| 0 <= j <= len implies a[j] == b[j] by {
        if j < len {
            assert(a.subrange(0, len)[j] == a[j]);
        }
    }
    assert forall|k: int| entry_matches(e, k, a) == entry_matches(e, k, b) by {
        lemma_names_prefix(e[k].name@, a, b, len);
    }
    lemma_lookup_same(e, size, a, b);
}

/// Names that agree up to and with a 0 at `len` match the same entry names.
proof fn lemma_names_prefix(de: Seq<u8>, a: Seq<u8>, b: Seq<u8>, len: int)
    requires
        0 <= len < DIRSIZ,
        a[len] == 0,
        forall|j: int| 0 <= j <= len ==> a[j] == b[j],
    ensures
        name_matches(de, a) == name_matches(de, b),
{
    {
        if name_matches(de, a) {
            let z = choose|z: int| 0 <= z < DIRSIZ && de[z] == 0 && (forall|j: int| 0 <= j <= z ==> #[trigger] de[j] == a[j]);
            if z <= len {
                assert(forall|j: int| 0 <= j <= z ==> #[trigger] de[j] == b[j]);
            } else {
                assert(de[len] == a[len]);
                assert(forall|j: int| 0 <= j <= len ==> #[trigger] de[j] == b[j]);
            }
        }
        if name_matches(de, b) {
            let z = choose|z: int| 0 <= z < DIRSIZ && de[z] == 0 && (forall|j: int| 0 <= j <= z ==> #[trigger] de[j] == b[j]);
            if z <= len {
                assert(forall|j: int| 0 <= j <= z ==> #[trigger] de[j] == a[j]);
            } else {
                assert(de[len] == b[len]);
                assert(forall|j: int| 0 <= j <= len ==> #[trigger] de[j] == a[j]);
            }
        }
    }
}

/// Names that match the same entries find the same one.
proof fn lemma_lookup_same(e: Seq<DirEnt>, size: int, a: Seq<u8>, b: Seq<u8>)
    requires
        forall|k: int| entry_matches(e, k, a) == entry_matches(e, k, b),
    ensures
        dir_lookup(e, size, a) == dir_lookup(e, size, b),
{
    if exists|k: int| first_entry(e, size, a, k) {
        let k = choose|k: int| first_entry(e, size, a, k);
        assert(first_entry(e, size, a, k));
        assert forall|j: int| 0 <= j < k implies !entry_matches(e, j, b) by {
            assert(!entry_matches(e, j, a));
        }
        assert(first_entry(e, size, b, k));
        lemma_first_entry(e, size, a, k);
        lemma_first_entry(e, size, b, k);
    } else if exists|k: int| first_entry(e, size, b, k) {
        let k = choose|k: int| first_entry(e, size, b, k);
        assert(first_entry(e, size, b, k));
        assert forall|j: int| 0 <= j < k implies !entry_matches(e, j, a) by {
            assert(!entry_matches(e, j, b));
        }
        assert(first_entry(e, size, a, k));
    }
}

/// There are two slots with no reference.
pub open spec fn two_free(s: Seq<SlotView>) -> bool {
    exists|a: int, b: int|
        0 <= a < s.len() && 0 <= b < s.len() && a != b && s[a].refcnt == 0 && s[b].refcnt == 0
}

/// What reading a directory's entries may give, given its device, inode
/// number and size: entries enough to cover the size.
pub open spec fn reads_dir<G: Fn(u32, u32, u32) -> Vec<DirEnt>>(read_dir: &G) -> bool {
    &&& forall|dev: u32, inum: u32, size: u32| #[trigger] read_dir.requires((dev, inum, size))
    &&& forall|dev: u32, inum: u32, size: u32, e: Vec<DirEnt>|
        #[trigger] read_dir.ensures((dev, inum, size), e) ==> e@.len() * DIRENT_SIZE >= size
}

/// Whether some element of the path is left from `cur` on.
fn has_elem(path: &[u8], cur: usize) -> (b: bool)
    requires
        terminated_from(path@, cur as int),
    ensures
        b == next_elem(path@, cur as int) is Some,
{
    let ghost p = path@;
    let ghost k = choose|k: int| cur <= k < p.len() && p[k] == 0;
    proof {
        lemma_skip_slashes(p, cur as int, k);
    }
    let mut c = cur;
    while path[c] == 0x2fu8
        invariant
            c <= k < p.len(),
            p == path@,
            p[k] == 0,
            skip_slashes(p, c as int) == skip_slashes(p, cur as int),
        decreases k - c,
    {
        c += 1;
    }
    path[c] != 0
}

/// The positions `skip_slashes` passes over hold '/'.
proof fn lemma_skip_slashes_span(p: Seq<u8>, c: int, k: int)
    requires
        0 <= c <= k < p.len(),
        p[k] == 0,
    ensures
        forall|j: int| c <= j < skip_slashes(p, c) ==> p[j] == 0x2f,
    decreases k - c,
{
    if p[c] == 0x2f {
        lemma_skip_slashes_span(p, c + 1, k);
    }
}

/// Where another element follows the next one, `skip_elem` answers a
/// position past `c`, before the end, from which an element is left.
proof fn lemma_next_after(p: Seq<u8>, c: int, k: int)
    requires
        0 <= c <= k < p.len(),
        p[k] == 0,
        next_elem(p, c) is Some,
        skip_elem_result(p, c) != 0,
    ensures
        c < skip_elem_result(p, c) < k,
        next_elem(p, skip_elem_result(p, c)) is Some,
{
    lemma_skip_slashes(p, c, k);
    let s = skip_slashes(p, c);
    lemma_elem_end(p, s, k);
    let e = elem_end(p, s);
    assert(e > s);
    lemma_skip_slashes(p, e, k);
    lemma_skip_slashes_span(p, e, k);
    let n = skip_slashes(p, e);
    assert(p[n] != 0);
    assert(p[e] == 0x2f);
    assert(n > e);
    assert(p[n - 1] == 0x2f);
    assert(skip_slashes(p, n) == n);
    assert(skip_slashes(p, n - 1) == n);
}

} // verus!
