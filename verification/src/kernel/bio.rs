//! The buffer cache: `NBUF` buffers kept on a doubly linked list, most
//! recently used first. Links are buffer indices.
use vstd::prelude::*;

use super::param::NBUF;

verus! {

/// A buffer of the cache: the block it caches, its references, and its
/// neighbours on the list.
#[derive(Clone, Copy, Debug)]
pub struct Buf {
    pub dev: u32,
    pub blockno: u32,
    pub refcnt: usize,
    pub prev: Option<usize>,
    pub next: Option<usize>,
}

impl Buf {
    /// A buffer of no block, off the list.
    pub fn new() -> (b: Buf)
        ensures
            b.dev == 0 && b.blockno == 0 && b.refcnt == 0 && b.prev is None && b.next is None,
    {
        Buf { dev: 0, blockno: 0, refcnt: 0, prev: None, next: None }
    }
}

/// The buffers and the two ends of their list.
pub struct BufLru {
    pub inner: Vec<Buf>,
    pub head: Option<usize>,
    pub tail: Option<usize>,
}

impl BufLru {
    /// `NBUF` buffers, unlinked.
    pub fn new() -> (l: BufLru)
        ensures
            l.inner@.len() == NBUF,
            l.head is None && l.tail is None,
            forall|i: int|
                0 <= i < NBUF ==> #[trigger] l.inner@[i] == (Buf {
                    dev: 0,
                    blockno: 0,
                    refcnt: 0,
                    prev: None,
                    next: None,
                }),
    {
        let mut inner: Vec<Buf> = Vec::new();
        let mut i: usize = 0;
        while i < NBUF
            invariant
                i <= NBUF,
                inner@.len() == i,
                forall|j: int|
                    0 <= j < i ==> #[trigger] inner@[j] == (Buf {
                        dev: 0,
                        blockno: 0,
                        refcnt: 0,
                        prev: None,
                        next: None,
                    }),
            decreases NBUF - i,
        {
            inner.push(Buf::new());
            i += 1;
        }
        BufLru { inner, head: None, tail: None }
    }
}

/// The buffer `k` steps along the `next` links from `at`.
pub open spec fn follow(bufs: Seq<Buf>, at: Option<usize>, k: nat) -> Option<usize>
    decreases k,
{
    if k == 0 {
        at
    } else {
        match at {
            None => None,
            Some(i) => if i < bufs.len() {
                follow(bufs, bufs[i as int].next, (k - 1) as nat)
            } else {
                None
            },
        }
    }
}

/// The list runs through the buffers in index order, from the first to the
/// last, each linked back to the one before it.
pub open spec fn linked_in_order(l: &BufLru) -> bool {
    let n = l.inner@.len();
    &&& 2 <= n <= usize::MAX
    &&& l.head == Some(0usize)
    &&& l.tail == Some((n - 1) as usize)
    &&& forall|i: int|
        0 <= i < n ==> (#[trigger] l.inner@[i]).next == (if i == n - 1 {
            None
        } else {
            Some((i + 1) as usize)
        }) && l.inner@[i].prev == (if i == 0 {
            None
        } else {
            Some((i - 1) as usize)
        })
}

/// The buffer cache.
pub struct BCache {
    lru: BufLru,
}

impl BCache {
    /// The list of the cache.
    pub closed spec fn list(&self) -> &BufLru {
        &self.lru
    }

    /// The list of the cache.
    pub fn lru(&self) -> (r: &BufLru)
        ensures
            r == self.list(),
    {
        &self.lru
    }

    /// A cache of `NBUF` unlinked buffers.
    pub fn new() -> (c: BCache)
        ensures
            c.list().inner@.len() == NBUF,
            c.list().head is None && c.list().tail is None,
    {
        BCache { lru: BufLru::new() }
    }

    /// Links the buffers into one list in index order, the first at the head
    /// and the last at the tail. What each buffer caches is kept.
    pub fn init(&mut self)
        requires
            old(self).list().inner@.len() >= 2,
        ensures
            linked_in_order(final(self).list()),
            final(self).list().inner@.len() == old(self).list().inner@.len(),
            forall|i: int|
                0 <= i < old(self).list().inner@.len() ==> {
                    let (a, b) = (#[trigger] final(self).list().inner@[i], old(self).list().inner@[i]);
                    a.dev == b.dev && a.blockno == b.blockno && a.refcnt == b.refcnt
                },
    {
        let n = self.lru.inner.len();
        let ghost orig = self.lru.inner@;
        self.lru.head = Some(0);
        self.lru.tail = Some(n - 1);
        let mut i: usize = 0;
        while i < n
            invariant
                n == orig.len() == self.lru.inner@.len(),
                n >= 2,
                i <= n,
                self.lru.head == Some(0usize),
                self.lru.tail == Some((n - 1) as usize),
                forall|j: int|
                    0 <= j < n ==> {
                        let (a, b) = (#[trigger] self.lru.inner@[j], orig[j]);
                        a.dev == b.dev && a.blockno == b.blockno && a.refcnt == b.refcnt
                    },
                forall|j: int|
                    0 <= j < i ==> (#[trigger] self.lru.inner@[j]).next == (if j == n - 1 {
                        None
                    } else {
                        Some((j + 1) as usize)
                    }) && self.lru.inner@[j].prev == (if j == 0 {
                        None
                    } else {
                        Some((j - 1) as usize)
                    }),
            decreases n - i,
        {
            let b = self.lru.inner[i];
            let prev = if i == 0 {
                None
            } else {
                Some(i - 1)
            };
            let next = if i == n - 1 {
                None
            } else {
                Some(i + 1)
            };
            self.lru.inner.set(i, Buf { prev, next, ..b });
            i += 1;
        }
    }
}

/// In a list linked in index order, `k` steps from the head reach buffer
/// `k`, and the steps run off the end right after the tail.
pub proof fn lemma_follow_in_order(l: &BufLru, k: nat)
    requires
        linked_in_order(l),
        k <= l.inner@.len(),
    ensures
        follow(l.inner@, l.head, k) == (if k < l.inner@.len() {
            Some(k as usize)
        } else {
            None::<usize>
        }),
    decreases k,
{
    if k > 0 {
        let j = k - 1;
        lemma_follow_in_order(l, j as nat);
        lemma_follow_step(l.inner@, l.head, j as nat);
        assert(l.inner@[j].next == (if j == l.inner@.len() - 1 {
            None
        } else {
            Some((j + 1) as usize)
        }));
        reveal_with_fuel(follow, 2);
        assert(follow(l.inner@, Some(j as usize), 1) == follow(l.inner@, l.inner@[j].next, 0));
    }
}

/// One more step is a step from where `k` steps end.
proof fn lemma_follow_step(bufs: Seq<Buf>, at: Option<usize>, k: nat)
    ensures
        follow(bufs, at, k + 1) == follow(bufs, follow(bufs, at, k), 1),
    decreases k,
{
    if k > 0 {
        match at {
            None => {},
            Some(i) => {
                if i < bufs.len() {
                    lemma_follow_step(bufs, bufs[i as int].next, (k - 1) as nat);
                }
            },
        }
    }
}

/// In a list linked in index order, each link back undoes the link forward.
pub proof fn lemma_prev_undoes_next(l: &BufLru, i: int)
    requires
        linked_in_order(l),
        0 <= i < l.inner@.len(),
    ensures
        l.inner@[i].next matches Some(j) ==> l.inner@[j as int].prev == Some(i as usize),
        l.inner@[i].prev matches Some(j) ==> l.inner@[j as int].next == Some(i as usize),
{
    let n = l.inner@.len();
    assert(l.inner@[i].next == (if i == n - 1 { None } else { Some((i + 1) as usize) }));
    if i < n - 1 {
        assert(l.inner@[i + 1].prev == Some(i as usize));
    }
    if i > 0 {
        assert(l.inner@[i - 1].next == Some(i as usize));
    }
}

} // verus!
