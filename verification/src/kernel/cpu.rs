//! The harts: which process each runs, and how deep it is in sections with
//! interrupts off.
use vstd::prelude::*;

use super::param::NCPU;
use super::proc::{Context, ProcState};
use super::process::{first_in_state, ProcessTable};

verus! {

/// A hart.
pub struct Cpu {
    pub hartid: usize,
    pub proc: Option<usize>,
    pub scheduler: Context,
    pub noff: u8,
    pub intena: bool,
}

/// The nesting of sections with interrupts off: how deep, and whether
/// interrupts were on before the outermost one.
pub open spec fn push_state(noff: nat, intena: bool, was_on: bool) -> (nat, bool) {
    (noff + 1, if noff == 0 {
        was_on
    } else {
        intena
    })
}

/// Leaving the innermost section: the new depth, and whether interrupts go
/// back on.
pub open spec fn pop_state(noff: nat, intena: bool) -> (nat, bool) {
    ((noff - 1) as nat, noff - 1 == 0 && intena)
}

impl Cpu {
    /// Hart `hartid`, running nothing, with interrupts not turned off.
    pub fn new(hartid: usize) -> (c: Cpu)
        ensures
            c.hartid == hartid,
            c.proc is None,
            c.noff == 0,
            !c.intena,
    {
        Cpu { hartid, proc: None, scheduler: Context::new(), noff: 0, intena: false }
    }

    /// Enters a section with interrupts off; `was_on` tells whether they
    /// were on just before.
    pub fn push_off(&mut self, was_on: bool)
        requires
            old(self).noff < 255,
        ensures
            (final(self).noff as nat, final(self).intena) == push_state(
                old(self).noff as nat,
                old(self).intena,
                was_on,
            ),
            final(self).hartid == old(self).hartid,
            final(self).proc == old(self).proc,
    {
        if self.noff == 0 {
            self.intena = was_on;
        }
        self.noff = self.noff + 1;
    }

    /// Leaves the innermost section with interrupts off, which must be off
    /// now (`is_on` false). Returns whether to turn them back on: when the
    /// outermost section ends and they were on before it.
    pub fn pop_off(&mut self, is_on: bool) -> (on: bool)
        requires
            !is_on,
            old(self).noff >= 1,
        ensures
            (final(self).noff as nat, on) == pop_state(old(self).noff as nat, old(self).intena),
            final(self).intena == old(self).intena,
            final(self).hartid == old(self).hartid,
            final(self).proc == old(self).proc,
    {
        self.noff = self.noff - 1;
        self.noff == 0 && self.intena
    }
}

impl Cpu {
    /// The checks before switching from a process to the scheduler: one
    /// section with interrupts off (the process's lock), the process no
    /// longer running, and interrupts off. The message says which failed.
    pub fn sched(&self, state: ProcState, intr_on: bool) -> (r: Result<(), &'static str>)
        ensures
            r is Ok <==> (self.noff == 1 && state != ProcState::Running && !intr_on),
    {
        if self.noff != 1 {
            return Err("sched: multi locks");
        }
        if state == ProcState::Running {
            return Err("sched: proc is running");
        }
        if intr_on {
            return Err("sched: interruptable");
        }
        Ok(())
    }
}

/// The depth and the saved interrupt flag after entering sections from depth
/// 0, interrupts being on or off (`ons`) before each entry.
pub open spec fn after_pushes(intena: bool, ons: Seq<bool>) -> (nat, bool)
    decreases ons.len(),
{
    if ons.len() == 0 {
        (0, intena)
    } else {
        let (n, i) = after_pushes(intena, ons.drop_last());
        push_state(n, i, ons.last())
    }
}

/// Leaving `k` sections from depth `n`: the depth at the end, and for each
/// exit whether it turns interrupts back on.
pub open spec fn after_pops(n: nat, intena: bool, k: nat) -> (nat, Seq<bool>)
    decreases k,
{
    if k == 0 {
        (n, Seq::empty())
    } else {
        let (m, on) = pop_state(n, intena);
        let (m2, ons) = after_pops(m, intena, (k - 1) as nat);
        (m2, seq![on] + ons)
    }
}

/// Nested sections with interrupts off: after entering `k` of them from
/// depth 0, the depth is `k` and the saved flag is whether interrupts were on
/// before the first; leaving all `k` gets back to depth 0, and only the last
/// exit turns interrupts back on, exactly when they were on at the start.
pub proof fn lemma_nested_sections(intena: bool, ons: Seq<bool>)
    requires
        ons.len() >= 1,
    ensures
        after_pushes(intena, ons) == (ons.len(), ons[0]),
        after_pops(ons.len(), ons[0], ons.len()).0 == 0,
        after_pops(ons.len(), ons[0], ons.len()).1 == Seq::new(ons.len(), |i: int| i == ons.len() - 1 && ons[0]),
    decreases ons.len(),
{
    if ons.len() > 1 {
        lemma_nested_sections(intena, ons.drop_last());
        assert(ons.drop_last()[0] == ons[0]);
    } else {
        assert(ons.drop_last().len() == 0);
        assert(after_pushes(intena, ons.drop_last()) == (0nat, intena));
    }
    lemma_pops(ons.len(), ons[0]);
}

proof fn lemma_pops(k: nat, on: bool)
    requires
        k >= 1,
    ensures
        after_pops(k, on, k).0 == 0,
        after_pops(k, on, k).1 == Seq::new(k, |i: int| i == k - 1 && on),
    decreases k,
{
    let (m, first) = pop_state(k, on);
    assert(m == k - 1 && first == (k == 1 && on));
    if k > 1 {
        lemma_pops((k - 1) as nat, on);
        let rest = after_pops((k - 1) as nat, on, (k - 1) as nat).1;
        assert(after_pops(k, on, k) == (after_pops((k - 1) as nat, on, (k - 1) as nat).0, seq![false] + rest));
        assert(seq![false] + rest =~= Seq::new(k, |i: int| i == k - 1 && on));
    } else {
        assert(after_pops(0, on, 0) == (0nat, Seq::<bool>::empty()));
        assert(after_pops(k, on, k) == (0nat, seq![on] + Seq::<bool>::empty()));
        assert(seq![on] + Seq::<bool>::empty() =~= Seq::new(k, |i: int| i == k - 1 && on));
    }
}

/// The harts.
pub struct CpuTable {
    pub table: Vec<Cpu>,
}

impl CpuTable {
    /// `NCPU` harts, numbered in order.
    pub fn new() -> (t: CpuTable)
        ensures
            t.table@.len() == NCPU,
            forall|i: int|
                0 <= i < NCPU ==> (#[trigger] t.table@[i]).hartid == i && t.table@[i].noff == 0
                    && t.table@[i].proc is None && !t.table@[i].intena,
    {
        let mut table: Vec<Cpu> = Vec::new();
        let mut i: usize = 0;
        while i < NCPU
            invariant
                i <= NCPU,
                table@.len() == i,
                forall|j: int|
                    0 <= j < i ==> (#[trigger] table@[j]).hartid == j && table@[j].noff == 0
                        && table@[j].proc is None && !table@[j].intena,
            decreases NCPU - i,
        {
            table.push(Cpu::new(i));
            i += 1;
        }
        CpuTable { table }
    }

    /// One round of the scheduler on hart `id`: the first runnable process
    /// becomes running on it, and its index is returned for the switch to
    /// it; `None` when no process is runnable.
    pub fn scheduler(&mut self, id: usize, procs: &mut ProcessTable) -> (r: Option<usize>)
        requires
            id < old(self).table@.len(),
        ensures
            final(procs).table@.len() == old(procs).table@.len(),
            final(self).table@.len() == old(self).table@.len(),
            match r {
                Some(i) => {
                    &&& first_in_state(old(procs).states(), i as int, ProcState::Runnable)
                    &&& final(procs).states() == old(procs).states().update(i as int, ProcState::Running)
                    &&& final(self).table@[id as int].proc == Some(i)
                },
                None => {
                    &&& forall|j: int| 0 <= j < old(procs).table@.len() ==> old(procs).states()[j] != ProcState::Runnable
                    &&& final(procs).table@ == old(procs).table@
                    &&& final(self).table@ == old(self).table@
                },
            },
    {
        match procs.find_runnable() {
            Some(i) => {
                procs.table[i].inner.state = ProcState::Running;
                proof {
                    assert(procs.states() =~= old(procs).states().update(i as int, ProcState::Running));
                }
                self.table[id].proc = Some(i);
                Some(i)
            },
            None => None,
        }
    }

    /// The process hart `id` runs, read with interrupts off (`intr_on`: they
    /// were on before); also whether to turn them back on after.
    pub fn my_proc(&mut self, id: usize, intr_on: bool) -> (r: (Option<usize>, bool))
        requires
            id < old(self).table@.len(),
            old(self).table@[id as int].noff < 255,
        ensures
            r.0 == old(self).table@[id as int].proc,
            r.1 == (old(self).table@[id as int].noff == 0 && intr_on),
            final(self).table@.len() == old(self).table@.len(),
            final(self).table@[id as int].noff == old(self).table@[id as int].noff,
            final(self).table@[id as int].proc == old(self).table@[id as int].proc,
            final(self).table@[id as int].intena == if old(self).table@[id as int].noff == 0 {
                intr_on
            } else {
                old(self).table@[id as int].intena
            },
    {
        self.table[id].push_off(intr_on);
        let p = self.table[id].proc;
        let on = self.table[id].pop_off(false);
        (p, on)
    }

    /// Gives up hart `id` on behalf of the process it runs, if any (see
    /// `Proc::yielding`); `true` when the switch to the scheduler is due.
    pub fn yielding(&mut self, id: usize, procs: &mut ProcessTable) -> (switch: bool)
        requires
            id < old(self).table@.len(),
            old(self).table@[id as int].proc matches Some(i) ==> i < old(procs).table@.len(),
        ensures
            final(self).table@ == old(self).table@,
            final(procs).table@.len() == old(procs).table@.len(),
            switch == (old(self).table@[id as int].proc matches Some(i) && old(procs).states()[i as int]
                == ProcState::Running),
    {
        match self.table[id].proc {
            Some(i) => {
                let r = procs.table[i].yielding();
                r
            },
            None => false,
        }
    }

    /// Hart `id` came back from running a process.
    pub fn switched_back(&mut self, id: usize)
        requires
            id < old(self).table@.len(),
        ensures
            final(self).table@[id as int].proc is None,
            final(self).table@.len() == old(self).table@.len(),
    {
        self.table[id].proc = None;
    }

    /// The hart `id` (what its `tp` register holds).
    pub fn my_cpu_mut(&mut self, id: usize) -> (c: &mut Cpu)
        requires
            id < old(self).table@.len(),
        ensures
            *c == old(self).table@[id as int],
            final(self).table@ == old(self).table@.update(id as int, *final(c)),
    {
        &mut self.table[id]
    }
}

} // verus!
