//! The header of the on-disk log, and how the log is replayed when the file
//! system starts.
use vstd::prelude::*;

use super::layout::{get_u32, lemma_u32_round_trip, put_u32, u32_at, u32_bytes};
use super::param::LOGSIZE;
use super::superblock::SuperBlock;

verus! {

/// Bytes of the header on disk: the count and `LOGSIZE` block numbers.
pub const LOGHEADER_SIZE: usize = 124;

/// The header block of the log: how many blocks the log holds, and the home
/// block of each.
pub struct LogHeader {
    pub n: u32,
    pub blocks: [u32; 30],
}

impl LogHeader {
    /// An empty header.
    pub fn new() -> (h: LogHeader)
        ensures
            h.n == 0,
            forall|i: int| 0 <= i < LOGSIZE ==> h.blocks@[i] == 0,
    {
        LogHeader { n: 0, blocks: [0u32; 30] }
    }

    /// The header at the start of `block`.
    pub fn from_bytes(block: &[u8]) -> (h: LogHeader)
        requires
            block@.len() >= LOGHEADER_SIZE,
        ensures
            h.n == u32_at(block@, 0),
            forall|i: int| 0 <= i < LOGSIZE ==> #[trigger] h.blocks@[i] == u32_at(block@, 4 + 4 * i),
    {
        let mut h = LogHeader::new();
        h.n = get_u32(block, 0);
        let mut i: usize = 0;
        while i < LOGSIZE
            invariant
                i <= LOGSIZE,
                block@.len() >= LOGHEADER_SIZE,
                h.n == u32_at(block@, 0),
                forall|j: int| 0 <= j < i ==> #[trigger] h.blocks@[j] == u32_at(block@, 4 + 4 * j),
            decreases LOGSIZE - i,
        {
            let v = get_u32(block, 4 + 4 * i);
            h.blocks.set(i, v);
            i += 1;
        }
        h
    }

    /// The header as the disk holds it.
    pub fn to_bytes(&self) -> (b: Vec<u8>)
        ensures
            b@.len() == LOGHEADER_SIZE,
            b@.subrange(0, 4) == u32_bytes(self.n),
            forall|i: int|
                0 <= i < LOGSIZE ==> #[trigger] b@.subrange(4 + 4 * i, 8 + 4 * i) == u32_bytes(
                    self.blocks@[i],
                ),
    {
        let mut b: Vec<u8> = Vec::new();
        put_u32(&mut b, self.n);
        let mut i: usize = 0;
        while i < LOGSIZE
            invariant
                i <= LOGSIZE,
                b@.len() == 4 + 4 * i,
                b@.subrange(0, 4) == u32_bytes(self.n),
                forall|j: int|
                    0 <= j < i ==> #[trigger] b@.subrange(4 + 4 * j, 8 + 4 * j) == u32_bytes(
                        self.blocks@[j],
                    ),
            decreases LOGSIZE - i,
        {
            let ghost prev = b@;
            put_u32(&mut b, self.blocks[i]);
            proof {
                assert(b@.subrange(0, 4) =~= prev.subrange(0, 4));
                assert forall|j: int| 0 <= j < i + 1 implies #[trigger] b@.subrange(
                    4 + 4 * j,
                    8 + 4 * j,
                ) == u32_bytes(self.blocks@[j]) by {
                    if j < i {
                        assert(b@.subrange(4 + 4 * j, 8 + 4 * j) =~= prev.subrange(4 + 4 * j, 8 + 4 * j));
                    } else {
                        assert(b@.subrange(4 + 4 * j, 8 + 4 * j) =~= u32_bytes(self.blocks@[j]));
                    }
                }
            }
            i += 1;
        }
        b
    }
}

/// The bytes at `off` read as a field are the field that was written there.
proof fn lemma_field_at(b: Seq<u8>, off: int, v: u32)
    requires
        0 <= off,
        off + 4 <= b.len(),
        b.subrange(off, off + 4) == u32_bytes(v),
    ensures
        u32_at(b, off) == v,
{
    lemma_u32_round_trip(v);
    let t = b.subrange(off, off + 4);
    assert(t[0] == b[off] && t[1] == b[off + 1] && t[2] == b[off + 2] && t[3] == b[off + 3]);
}

/// A header written and read back is the same header.
pub proof fn lemma_header_round_trip(h: &LogHeader, b: Seq<u8>)
    requires
        b.len() == LOGHEADER_SIZE,
        b.subrange(0, 4) == u32_bytes(h.n),
        forall|i: int|
            0 <= i < LOGSIZE ==> #[trigger] b.subrange(4 + 4 * i, 8 + 4 * i) == u32_bytes(h.blocks@[i]),
    ensures
        u32_at(b, 0) == h.n,
        forall|i: int| 0 <= i < LOGSIZE ==> #[trigger] u32_at(b, 4 + 4 * i) == h.blocks@[i],
{
    lemma_field_at(b, 0, h.n);
    assert forall|i: int| 0 <= i < LOGSIZE implies #[trigger] u32_at(b, 4 + 4 * i) == h.blocks@[i] by {
        assert(b.subrange(4 + 4 * i, 8 + 4 * i) == u32_bytes(h.blocks@[i]));
        lemma_field_at(b, 4 + 4 * i, h.blocks@[i]);
    }
}

/// The state of the log.
pub struct Log {
    pub start: u32,
    pub size: u32,
    pub outstanding: usize,
    pub committing: bool,
    pub dev: u32,
    pub header: LogHeader,
}

/// The copies that install the logged blocks: the `i`-th log block, right
/// after the header at `start`, onto the home block the header names for it.
pub open spec fn install_plan(start: u32, n: nat, blocks: Seq<u32>) -> Seq<(u32, u32)> {
    Seq::new(n, |i: int| ((start + i + 1) as u32, blocks[i]))
}

impl Log {
    /// A log of no device, not yet started.
    pub fn new() -> (l: Log)
        ensures
            l.start == 0 && l.size == 0 && l.outstanding == 0 && l.committing && l.dev == 0,
            l.header.n == 0,
    {
        Log { start: 0, size: 0, outstanding: 0, committing: true, dev: 0, header: LogHeader::new() }
    }

    /// Reads the header from its block.
    pub fn read_head(&mut self, block: &[u8])
        requires
            block@.len() >= LOGHEADER_SIZE,
        ensures
            final(self).header.n == u32_at(block@, 0),
            forall|i: int|
                0 <= i < LOGSIZE ==> #[trigger] final(self).header.blocks@[i] == u32_at(block@, 4 + 4 * i),
            final(self).start == old(self).start,
            final(self).size == old(self).size,
            final(self).dev == old(self).dev,
            final(self).outstanding == old(self).outstanding,
            final(self).committing == old(self).committing,
    {
        self.header = LogHeader::from_bytes(block);
    }

    /// The block copies that install the committed blocks at their homes,
    /// in log order.
    pub fn install_trans(&self) -> (plan: Vec<(u32, u32)>)
        requires
            self.header.n <= LOGSIZE,
            self.start + self.header.n + 1 <= u32::MAX,
        ensures
            plan@ == install_plan(self.start, self.header.n as nat, self.header.blocks@),
    {
        let mut plan: Vec<(u32, u32)> = Vec::new();
        let mut tail: u32 = 0;
        while tail < self.header.n
            invariant
                tail <= self.header.n <= LOGSIZE,
                self.start + self.header.n + 1 <= u32::MAX,
                plan@ == install_plan(self.start, tail as nat, self.header.blocks@),
            decreases self.header.n - tail,
        {
            plan.push((self.start + tail + 1, self.header.blocks[tail as usize]));
            tail += 1;
            proof {
                assert(plan@ =~= install_plan(self.start, tail as nat, self.header.blocks@));
            }
        }
        plan
    }

    /// The header block to write.
    pub fn write_head(&self) -> (b: Vec<u8>)
        ensures
            b@.len() == LOGHEADER_SIZE,
            u32_at(b@, 0) == self.header.n,
            forall|i: int| 0 <= i < LOGSIZE ==> #[trigger] u32_at(b@, 4 + 4 * i) == self.header.blocks@[i],
    {
        let b = self.header.to_bytes();
        proof {
            lemma_header_round_trip(&self.header, b@);
        }
        b
    }

    /// Replays the log whose header block is `head`: the copies that install
    /// its blocks, and the emptied header block to write back.
    pub fn recover_from_log(&mut self, head: &[u8]) -> (r: (Vec<(u32, u32)>, Vec<u8>))
        requires
            head@.len() >= LOGHEADER_SIZE,
            u32_at(head@, 0) <= LOGSIZE,
            old(self).start + u32_at(head@, 0) + 1 <= u32::MAX,
        ensures
            r.0@ == install_plan(
                old(self).start,
                u32_at(head@, 0) as nat,
                Seq::new(LOGSIZE as nat, |i: int| u32_at(head@, 4 + 4 * i)),
            ),
            final(self).header.n == 0,
            forall|i: int| 0 <= i < LOGSIZE ==> #[trigger] final(self).header.blocks@[i] == u32_at(head@, 4 + 4 * i),
            u32_at(r.1@, 0) == 0,
            forall|i: int| 0 <= i < LOGSIZE ==> #[trigger] u32_at(r.1@, 4 + 4 * i) == u32_at(head@, 4 + 4 * i),
            r.1@.len() == LOGHEADER_SIZE,
            final(self).start == old(self).start,
            final(self).size == old(self).size,
            final(self).dev == old(self).dev,
    {
        self.read_head(head);
        let plan = self.install_trans();
        proof {
            assert(plan@ =~= install_plan(
                old(self).start,
                u32_at(head@, 0) as nat,
                Seq::new(LOGSIZE as nat, |i: int| u32_at(head@, 4 + 4 * i)),
            ));
        }
        self.header.n = 0;
        let b = self.write_head();
        (plan, b)
    }

    /// Starts the log of `dev` as the super block places it, replaying what
    /// the header block `head` holds.
    pub fn init(&mut self, dev: u32, sb: &SuperBlock, head: &[u8]) -> (r: (Vec<(u32, u32)>, Vec<u8>))
        requires
            head@.len() >= LOGHEADER_SIZE,
            u32_at(head@, 0) <= LOGSIZE,
            sb.logstart + u32_at(head@, 0) + 1 <= u32::MAX,
        ensures
            final(self).start == sb.logstart,
            final(self).size == sb.nlog,
            final(self).dev == dev,
            final(self).header.n == 0,
            r.0@ == install_plan(
                sb.logstart,
                u32_at(head@, 0) as nat,
                Seq::new(LOGSIZE as nat, |i: int| u32_at(head@, 4 + 4 * i)),
            ),
            u32_at(r.1@, 0) == 0,
            forall|i: int| 0 <= i < LOGSIZE ==> #[trigger] u32_at(r.1@, 4 + 4 * i) == u32_at(head@, 4 + 4 * i),
    {
        self.start = sb.logstart;
        self.size = sb.nlog;
        self.dev = dev;
        self.recover_from_log(head)
    }
}

} // verus!
