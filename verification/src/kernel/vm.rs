//! An early form of the page table: 512 entries whose flags do not include
//! the valid bit unless the caller asks for it.
use vstd::prelude::*;

use super::page_table::PteFlag;

verus! {

/// An entry: an address and flags, zero when unused.
pub struct PageTableEntry {
    data: usize,
}

impl View for PageTableEntry {
    type V = usize;

    closed spec fn view(&self) -> usize {
        self.data
    }
}

impl PageTableEntry {
    /// An unused entry.
    pub fn new() -> (e: PageTableEntry)
        ensures
            e@ == 0,
    {
        PageTableEntry { data: 0 }
    }

    /// Whether the entry is unused: all zero.
    pub fn is_unused(&self) -> (r: bool)
        ensures
            r == (self@ == 0),
    {
        self.data == 0
    }

    /// Sets the entry to `addr` with exactly the flags `perm`.
    pub fn set_addr(&mut self, addr: usize, perm: PteFlag)
        ensures
            final(self)@ == addr | perm@,
    {
        self.data = addr | perm.bits();
    }
}

/// A table of 512 entries.
pub struct PageTable {
    entries: Vec<PageTableEntry>,
}

impl PageTable {
    /// A table of unused entries.
    pub fn new() -> (t: PageTable)
        ensures
            t.entries().len() == 512,
            forall|i: int| 0 <= i < 512 ==> #[trigger] t.entries()[i] == 0,
    {
        let mut entries: Vec<PageTableEntry> = Vec::new();
        let mut i: usize = 0;
        while i < 512
            invariant
                i <= 512,
                entries@.len() == i,
                forall|j: int| 0 <= j < i ==> #[trigger] entries@[j]@ == 0,
            decreases 512 - i,
        {
            entries.push(PageTableEntry::new());
            i += 1;
        }
        PageTable { entries }
    }

    /// The entries.
    pub closed spec fn entries(&self) -> Seq<usize> {
        self.entries@.map_values(|e: PageTableEntry| e@)
    }
}

} // verus!
