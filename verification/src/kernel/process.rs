//! The process table.
use vstd::prelude::*;

use super::fs::{INodeTable, ROOTINO, any_free, any_holding};
use super::page_table::{map_view, user_view, PageTable};
use super::param::{NPROC, PAGESIZE, ROOTDEV};
use super::proc::{init_name, Proc, ProcState};

verus! {

/// The processes, and the next process id.
pub struct ProcessTable {
    pub table: Vec<Proc>,
    pub pid: usize,
}

/// Process `i` is the first in state `st`.
pub open spec fn first_in_state(t: Seq<ProcState>, i: int, st: ProcState) -> bool {
    &&& 0 <= i < t.len()
    &&& t[i] == st
    &&& forall|j: int| 0 <= j < i ==> t[j] != st
}

impl ProcessTable {
    /// The states of the processes.
    pub open spec fn states(&self) -> Seq<ProcState> {
        self.table@.map_values(|p: Proc| p.inner.state)
    }

    /// `NPROC` unused processes; ids start at 0.
    pub fn new() -> (t: ProcessTable)
        ensures
            t.table@.len() == NPROC,
            t.pid == 0,
            forall|i: int| 0 <= i < NPROC ==> #[trigger] t.table@[i].inner.state == ProcState::Unused,
    {
        let mut table: Vec<Proc> = Vec::new();
        let mut i: usize = 0;
        while i < NPROC
            invariant
                i <= NPROC,
                table@.len() == i,
                forall|j: int| 0 <= j < i ==> #[trigger] table@[j].inner.state == ProcState::Unused,
            decreases NPROC - i,
        {
            table.push(Proc::new());
            i += 1;
        }
        ProcessTable { table, pid: 0 }
    }

    /// Picks the first runnable process to run: it becomes allocated to the
    /// scheduler, and its index is returned. `None` when none is runnable.
    pub fn find_runnable(&mut self) -> (r: Option<usize>)
        ensures
            final(self).table@.len() == old(self).table@.len(),
            final(self).pid == old(self).pid,
            match r {
                Some(i) => {
                    &&& first_in_state(old(self).states(), i as int, ProcState::Runnable)
                    &&& final(self).states() == old(self).states().update(i as int, ProcState::Allocated)
                    &&& final(self).table@[i as int].data == old(self).table@[i as int].data
                    &&& final(self).table@[i as int].inner.pid == old(self).table@[i as int].inner.pid
                    &&& forall|j: int| 0 <= j < final(self).table@.len() && j != i ==> #[trigger] final(self).table@[j] == old(self).table@[j]
                },
                None => {
                    &&& forall|j: int| 0 <= j < old(self).table@.len() ==> old(self).states()[j] != ProcState::Runnable
                    &&& final(self).table@ == old(self).table@
                },
            },
    {
        let mut i: usize = 0;
        while i < self.table.len()
            invariant
                self.table@ == old(self).table@,
                self.pid == old(self).pid,
                i <= self.table@.len(),
                forall|j: int| 0 <= j < i ==> old(self).states()[j] != ProcState::Runnable,
            decreases self.table.len() - i,
        {
            if self.table[i].inner.state == ProcState::Runnable {
                self.table[i].inner.state = ProcState::Allocated;
                proof {
                    assert(self.states() =~= old(self).states().update(i as int, ProcState::Allocated));
                }
                return Some(i);
            }
            i += 1;
        }
        None
    }

    /// A fresh process id.
    pub fn alloc_pid(&mut self) -> (r: usize)
        requires
            old(self).pid < usize::MAX,
        ensures
            r == old(self).pid,
            final(self).pid == old(self).pid + 1,
            final(self).table@ == old(self).table@,
    {
        let ret = self.pid;
        self.pid = self.pid + 1;
        ret
    }

    /// Takes the first unused process for a new program: a fresh id, the
    /// trap frame in the page at `tf_addr`, a user address space from the
    /// pool of `limit` pages at `base` with the trampoline page at physical
    /// `trampoline`, and a context that starts at `forkret`. `None` when no
    /// process is unused or the address space cannot be made; the id is
    /// taken either way.
    pub fn alloc_proc(
        &mut self,
        tf_addr: usize,
        base: usize,
        limit: usize,
        trampoline: usize,
        forkret: usize,
    ) -> (r: Option<usize>)
        requires
            usize::MAX == u64::MAX,
            old(self).pid < usize::MAX,
            base % 4096 == 0,
            1 <= limit,
            base + limit * 4096 <= usize::MAX,
            trampoline + 4096 <= usize::MAX,
            tf_addr + 4096 <= usize::MAX,
            forall|j: int|
                0 <= j < old(self).table@.len() ==> #[trigger] old(self).table@[j].data.kstack
                    + PAGESIZE * 4 <= usize::MAX,
        ensures
            final(self).pid == old(self).pid + 1,
            final(self).table@.len() == old(self).table@.len(),
            r is Some <==> (exists|j: int|
                0 <= j < old(self).table@.len() && old(self).states()[j] == ProcState::Unused)
                && user_view(limit as nat, trampoline as nat, tf_addr as nat).1,
            match r {
                Some(i) => {
                    let p = final(self).table@[i as int];
                    &&& first_in_state(old(self).states(), i as int, ProcState::Unused)
                    &&& final(self).states() == old(self).states().update(i as int, ProcState::Allocated)
                    &&& p.inner.pid == old(self).pid
                    &&& p.data.tf_addr == tf_addr
                    &&& p.data.page_table matches Some(pt) && pt.wf() && pt@ == user_view(
                        limit as nat,
                        trampoline as nat,
                        tf_addr as nat,
                    ).0 && pt.root_addr() == base
                    &&& p.data.context.ra == forkret
                    &&& p.data.context.sp == old(self).table@[i as int].data.kstack + PAGESIZE * 4
                    &&& forall|j: int| 0 <= j < final(self).table@.len() && j != i ==> #[trigger] final(self).table@[j] == old(self).table@[j]
                },
                None => final(self).table@ == old(self).table@,
            },
    {
        let pid = self.alloc_pid();
        let mut i: usize = 0;
        while i < self.table.len()
            invariant
                self.table@ == old(self).table@,
                self.pid == old(self).pid + 1,
                pid == old(self).pid,
                usize::MAX == u64::MAX,
                base % 4096 == 0,
                1 <= limit,
                base + limit * 4096 <= usize::MAX,
                trampoline + 4096 <= usize::MAX,
                tf_addr + 4096 <= usize::MAX,
                forall|j: int|
                    0 <= j < old(self).table@.len() ==> #[trigger] old(self).table@[j].data.kstack
                        + PAGESIZE * 4 <= usize::MAX,
                i <= self.table@.len(),
                forall|j: int| 0 <= j < i ==> old(self).states()[j] != ProcState::Unused,
            decreases self.table.len() - i,
        {
            if self.table[i].inner.state == ProcState::Unused {
                let pt = match PageTable::alloc_user_page_table(base, limit, trampoline, tf_addr) {
                    Some(pt) => pt,
                    None => {
                        return None;
                    },
                };
                self.table[i].data.tf_addr = tf_addr;
                self.table[i].data.page_table = Some(pt);
                self.table[i].data.init_context(forkret);
                self.table[i].inner.pid = pid;
                self.table[i].inner.state = ProcState::Allocated;
                proof {
                    assert(old(self).states()[i as int] == ProcState::Unused);
                    assert(self.states() =~= old(self).states().update(i as int, ProcState::Allocated));
                    assert(first_in_state(old(self).states(), i as int, ProcState::Unused));
                    assert(self.table@[i as int].inner.pid == old(self).pid);
                    assert(self.table@[i as int].data.context.sp == old(self).table@[i as int].data.kstack + PAGESIZE * 4);
                    assert(forall|j: int| 0 <= j < self.table@.len() && j != i ==> #[trigger] self.table@[j] == old(self).table@[j]);
                }
                return Some(i);
            }
            i += 1;
        }
        None
    }

    /// Sets up the first process and makes it runnable (see `alloc_proc`
    /// and `Proc::user_init`; its program's page is at physical `mem`).
    /// Returns its index.
    pub fn user_init(
        &mut self,
        itable: &mut INodeTable,
        tf_addr: usize,
        base: usize,
        limit: usize,
        trampoline: usize,
        forkret: usize,
        mem: usize,
    ) -> (r: usize)
        requires
            usize::MAX == u64::MAX,
            old(self).pid < usize::MAX,
            base % 4096 == 0,
            1 <= limit,
            base + limit * 4096 <= usize::MAX,
            trampoline + 4096 <= usize::MAX,
            tf_addr + 4096 <= usize::MAX,
            mem + 4096 <= usize::MAX,
            forall|j: int|
                0 <= j < old(self).table@.len() ==> #[trigger] old(self).table@[j].data.kstack
                    + PAGESIZE * 4 <= usize::MAX,
            exists|j: int| 0 <= j < old(self).table@.len() && old(self).states()[j] == ProcState::Unused,
            user_view(limit as nat, trampoline as nat, tf_addr as nat).1,
            map_view(user_view(limit as nat, trampoline as nat, tf_addr as nat).0, 0, 1, mem as nat, 0x1e).1 is Ok,
            any_holding(old(itable).slots(), ROOTDEV, ROOTINO) || any_free(old(itable).slots()),
            forall|i: int|
                0 <= i < old(itable).slots().len() ==> #[trigger] old(itable).slots()[i].refcnt
                    < usize::MAX,
        ensures
            first_in_state(old(self).states(), r as int, ProcState::Unused),
            final(self).states() == old(self).states().update(r as int, ProcState::Runnable),
            final(self).table@[r as int].inner.pid == old(self).pid,
            final(self).pid == old(self).pid + 1,
            final(self).table@.len() == old(self).table@.len(),
            forall|j: int|
                0 <= j < final(self).table@.len() && j != r ==> #[trigger] final(self).table@[j]
                    == old(self).table@[j],
            ({
                let p = final(self).table@[r as int];
                &&& p.data.page_table matches Some(pt) && pt.wf() && pt@ == map_view(
                    user_view(limit as nat, trampoline as nat, tf_addr as nat).0,
                    0,
                    1,
                    mem as nat,
                    0x1e,
                ).0 && pt.root_addr() == base
                &&& p.data.tf_addr == tf_addr
                &&& p.data.context.ra == forkret
                &&& p.data.context.sp == old(self).table@[r as int].data.kstack + PAGESIZE * 4
                &&& p.data.sz == PAGESIZE
                &&& p.data.tf.epc == 0
                &&& p.data.tf.sp == PAGESIZE
                &&& p.data.name@.subrange(0, 9) == init_name()
                &&& p.data.cwd matches Some(ip) && ip.names() == (ROOTDEV, ROOTINO)
            }),
    {
        let i = match self.alloc_proc(tf_addr, base, limit, trampoline, forkret) {
            Some(i) => i,
            None => {
                assert(false);
                0
            },
        };
        let ghost allocated = self.states();
        let res = self.table[i].user_init(itable, mem);
        self.table[i].inner.state = ProcState::Runnable;
        proof {
            assert(res is Ok);
            assert(self.states() =~= old(self).states().update(i as int, ProcState::Runnable));
        }
        i
    }
}

} // verus!
