//! Processes: saved registers, the trap frame, and per-process data.
use vstd::prelude::*;

use std::sync::Arc;

use super::file::{open_path, open_path_outcome, opens_typed, File, O_CREATE};
use super::fs::{iput_view, next_elem, reads_dir, reads_typed, terminated_from, two_free, DirEnt, DiskINode, TableView};
use super::fs::{INode, INodeTable, ROOTINO, any_free, any_holding};
use super::page_table::{map_view, PageTable, PageTableView};
use super::param::{NOFILE, PAGESIZE, ROOTDEV, TRAMPOLINE};

verus! {

/// The callee-saved registers a context switch keeps.
#[derive(Clone, Copy, Debug)]
pub struct Context {
    pub ra: usize,
    pub sp: usize,
    pub s0: usize,
    pub s1: usize,
    pub s2: usize,
    pub s3: usize,
    pub s4: usize,
    pub s5: usize,
    pub s6: usize,
    pub s7: usize,
    pub s8: usize,
    pub s9: usize,
    pub s10: usize,
    pub s11: usize,
}

/// Every register of the context is zero, `s0` perhaps aside.
pub open spec fn cleared_but_s0(c: Context) -> bool {
    c.ra == 0 && c.sp == 0 && c.s1 == 0 && c.s2 == 0 && c.s3 == 0 && c.s4 == 0 && c.s5 == 0 && c.s6
        == 0 && c.s7 == 0 && c.s8 == 0 && c.s9 == 0 && c.s10 == 0 && c.s11 == 0
}

impl Context {
    /// All registers zero.
    pub fn new() -> (c: Context)
        ensures
            cleared_but_s0(c),
            c.s0 == 0,
    {
        Context {
            ra: 0,
            sp: 0,
            s0: 0,
            s1: 0,
            s2: 0,
            s3: 0,
            s4: 0,
            s5: 0,
            s6: 0,
            s7: 0,
            s8: 0,
            s9: 0,
            s10: 0,
            s11: 0,
        }
    }

    /// Zeroes the registers; `s0` keeps its value.
    pub fn clear(&mut self)
        ensures
            cleared_but_s0(*final(self)),
            final(self).s0 == old(self).s0,
    {
        self.ra = 0;
        self.sp = 0;
        self.s1 = 0;
        self.s2 = 0;
        self.s3 = 0;
        self.s4 = 0;
        self.s5 = 0;
        self.s6 = 0;
        self.s7 = 0;
        self.s8 = 0;
        self.s9 = 0;
        self.s10 = 0;
        self.s11 = 0;
    }
}


/// The registers a trap saves, and what the trampoline needs to get back
/// into the kernel.
#[derive(Clone, Copy, Debug)]
pub struct TrapFrame {
    pub kernel_satp: usize,
    pub kernel_sp: usize,
    pub kernel_trap: usize,
    pub epc: usize,
    pub kernel_hartid: usize,
    pub ra: usize,
    pub sp: usize,
    pub gp: usize,
    pub tp: usize,
    pub t0: usize,
    pub t1: usize,
    pub t2: usize,
    pub s0: usize,
    pub s1: usize,
    pub a0: usize,
    pub a1: usize,
    pub a2: usize,
    pub a3: usize,
    pub a4: usize,
    pub a5: usize,
    pub a6: usize,
    pub a7: usize,
    pub s2: usize,
    pub s3: usize,
    pub s4: usize,
    pub s5: usize,
    pub s6: usize,
    pub s7: usize,
    pub s8: usize,
    pub s9: usize,
    pub s10: usize,
    pub s11: usize,
    pub t3: usize,
    pub t4: usize,
    pub t5: usize,
    pub t6: usize,
}

impl TrapFrame {
    /// A trap frame of zeros, as a fresh page holds it.
    pub fn zeroed() -> (tf: TrapFrame)
        ensures
            tf.epc == 0 && tf.sp == 0,
            tf.a0 == 0 && tf.a1 == 0 && tf.a2 == 0 && tf.a3 == 0 && tf.a4 == 0 && tf.a5 == 0,
    {
        TrapFrame {
            kernel_satp: 0,
            kernel_sp: 0,
            kernel_trap: 0,
            epc: 0,
            kernel_hartid: 0,
            ra: 0,
            sp: 0,
            gp: 0,
            tp: 0,
            t0: 0,
            t1: 0,
            t2: 0,
            s0: 0,
            s1: 0,
            a0: 0,
            a1: 0,
            a2: 0,
            a3: 0,
            a4: 0,
            a5: 0,
            a6: 0,
            a7: 0,
            s2: 0,
            s3: 0,
            s4: 0,
            s5: 0,
            s6: 0,
            s7: 0,
            s8: 0,
            s9: 0,
            s10: 0,
            s11: 0,
            t3: 0,
            t4: 0,
            t5: 0,
            t6: 0,
        }
    }
}

/// The raw system call argument `n`: the registers a0 to a5.
pub open spec fn arg_reg(tf: TrapFrame, n: usize) -> Option<usize> {
    if n == 0 {
        Some(tf.a0)
    } else if n == 1 {
        Some(tf.a1)
    } else if n == 2 {
        Some(tf.a2)
    } else if n == 3 {
        Some(tf.a3)
    } else if n == 4 {
        Some(tf.a4)
    } else if n == 5 {
        Some(tf.a5)
    } else {
        None
    }
}

/// What a process owns: its kernel stack, size, saved context, name, trap
/// frame (and the physical page it sits in), address space, working
/// directory and open files.
pub struct ProcessData {
    pub kstack: usize,
    pub sz: usize,
    pub context: Context,
    pub name: [u8; 16],
    pub tf: TrapFrame,
    pub tf_addr: usize,
    pub page_table: Option<PageTable>,
    pub cwd: Option<INode>,
    pub o_files: Vec<Option<Arc<File>>>,
}

/// The first descriptor with no open file.
pub open spec fn first_free_fd(files: Seq<Option<Arc<File>>>, fd: int) -> bool {
    &&& 0 <= fd < files.len()
    &&& files[fd] is None
    &&& forall|j: int| 0 <= j < fd ==> files[j] is Some
}

impl ProcessData {
    /// The data of a process not yet set up.
    pub fn new() -> (pd: ProcessData)
        ensures
            pd.kstack == 0 && pd.sz == 0 && pd.tf_addr == 0,
            pd.page_table is None && pd.cwd is None,
            pd.o_files@.len() == NOFILE,
            forall|i: int| 0 <= i < NOFILE ==> pd.o_files@[i] is None,
    {
        let mut o_files: Vec<Option<Arc<File>>> = Vec::new();
        let mut i: usize = 0;
        while i < NOFILE
            invariant
                i <= NOFILE,
                o_files@.len() == i,
                forall|j: int| 0 <= j < i ==> o_files@[j] is None,
            decreases NOFILE - i,
        {
            o_files.push(None);
            i += 1;
        }
        ProcessData {
            kstack: 0,
            sz: 0,
            context: Context::new(),
            name: [0u8; 16],
            tf: TrapFrame::zeroed(),
            tf_addr: 0,
            page_table: None,
            cwd: None,
            o_files,
        }
    }

    /// Sets the address of the kernel stack.
    pub fn set_kstack(&mut self, kstack: usize)
        ensures
            final(self).kstack == kstack,
            final(self).context == old(self).context,
            final(self).sz == old(self).sz,
    {
        self.kstack = kstack;
    }

    /// Prepares the context to start at `forkret` on the top of the kernel
    /// stack, four pages above its base.
    pub fn init_context(&mut self, forkret: usize)
        requires
            old(self).kstack + PAGESIZE * 4 <= usize::MAX,
        ensures
            final(self).context == (Context { ra: forkret, sp: (old(self).kstack + PAGESIZE * 4) as usize, s0: old(self).context.s0, ..Context::spec_zero() }),
            final(self).kstack == old(self).kstack,
            final(self).sz == old(self).sz,
            final(self).tf_addr == old(self).tf_addr,
            final(self).page_table == old(self).page_table,
            final(self).o_files == old(self).o_files,
    {
        self.context.clear();
        self.context.ra = forkret;
        self.context.sp = self.kstack + PAGESIZE * 4;
    }

    /// The saved context, to switch to.
    pub fn get_context(&mut self) -> (c: &mut Context)
        ensures
            *c == old(self).context,
            final(self).context == *final(c),
            final(self).kstack == old(self).kstack,
            final(self).sz == old(self).sz,
    {
        &mut self.context
    }

    /// Fills in the trap frame what the trampoline needs to come back into
    /// the kernel on the next trap: the kernel's `satp`, the top of this
    /// process's kernel stack, the trap handler, and the hart.
    pub fn prepare_return(&mut self, kernel_satp: usize, kernel_trap: usize, hartid: usize)
        requires
            old(self).kstack + PAGESIZE * 4 <= usize::MAX,
        ensures
            final(self).tf == (TrapFrame {
                kernel_satp,
                kernel_sp: (old(self).kstack + PAGESIZE * 4) as usize,
                kernel_trap,
                kernel_hartid: hartid,
                ..old(self).tf
            }),
            final(self).kstack == old(self).kstack,
            final(self).page_table == old(self).page_table,
    {
        self.tf.kernel_satp = kernel_satp;
        self.tf.kernel_sp = self.kstack + PAGESIZE * 4;
        self.tf.kernel_trap = kernel_trap;
        self.tf.kernel_hartid = hartid;
    }

    /// The raw system call argument `n`.
    pub fn arg_raw(&self, n: usize) -> (r: Result<usize, &'static str>)
        ensures
            match arg_reg(self.tf, n) {
                Some(v) => r == Ok::<usize, &'static str>(v),
                None => r is Err,
            },
    {
        match n {
            0 => Ok(self.tf.a0),
            1 => Ok(self.tf.a1),
            2 => Ok(self.tf.a2),
            3 => Ok(self.tf.a3),
            4 => Ok(self.tf.a4),
            5 => Ok(self.tf.a5),
            _ => Err("arg raw"),
        }
    }

    /// System call argument `n` as a 32-bit number: its low 32 bits.
    pub fn arg_i32(&self, n: usize) -> (r: Result<i32, &'static str>)
        ensures
            match arg_reg(self.tf, n) {
                Some(v) => r == Ok::<i32, &'static str>(v as i32),
                None => r is Err,
            },
    {
        let addr = self.arg_raw(n)?;
        Ok(addr as i32)
    }

    /// The first descriptor with no open file.
    pub fn alloc_fd(&self) -> (r: Result<usize, ()>)
        ensures
            match r {
                Ok(fd) => first_free_fd(self.o_files@, fd as int),
                Err(()) => forall|j: int| 0 <= j < self.o_files@.len() ==> self.o_files@[j] is Some,
            },
    {
        let mut i: usize = 0;
        while i < self.o_files.len()
            invariant
                i <= self.o_files@.len(),
                forall|j: int| 0 <= j < i ==> self.o_files@[j] is Some,
            decreases self.o_files.len() - i,
        {
            if self.o_files[i].is_none() {
                return Ok(i);
            }
            i += 1;
        }
        Err(())
    }

    /// Checks that system call argument `n` names an open file descriptor.
    pub fn arg_fd(&self, n: usize) -> (r: Result<(), &'static str>)
        requires
            self.o_files@.len() == NOFILE,
        ensures
            r is Ok <==> match arg_reg(self.tf, n) {
                Some(v) => {
                    let fd = v as i32;
                    0 <= fd < NOFILE && self.o_files@[fd as int] is Some
                },
                None => false,
            },
    {
        let fd = self.arg_i32(n)?;
        if fd < 0 {
            return Err("file descriptor must be greater than or equal to 0");
        }
        if fd >= NOFILE as i32 {
            return Err("file descriptor must be less than NOFILE");
        }
        if self.o_files[fd as usize].is_none() {
            return Err("file descriptor not allocated");
        }
        Ok(())
    }

    /// Duplicates the open file of descriptor 0, once argument 0 names an
    /// open descriptor, into the first free descriptor, which it returns.
    pub fn sys_dup(&mut self) -> (r: Result<usize, &'static str>)
        requires
            old(self).o_files@.len() == NOFILE,
            (match arg_reg(old(self).tf, 0) {
                Some(v) => {
                    let fd = v as i32;
                    0 <= fd < NOFILE && old(self).o_files@[fd as int] is Some
                },
                None => false,
            } && exists|j: int| 0 <= j < NOFILE && old(self).o_files@[j] is None)
                ==> old(self).o_files@[0] is Some,
        ensures
            final(self).o_files@.len() == NOFILE,
            match r {
                Ok(fd) => {
                    &&& first_free_fd(old(self).o_files@, fd as int)
                    &&& final(self).o_files@ == old(self).o_files@.update(fd as int, old(self).o_files@[0])
                },
                Err(_) => final(self).o_files@ == old(self).o_files@,
            },
            r is Ok <==> (match arg_reg(old(self).tf, 0) {
                Some(v) => {
                    let fd = v as i32;
                    0 <= fd < NOFILE && old(self).o_files@[fd as int] is Some
                },
                None => false,
            } && exists|j: int| 0 <= j < NOFILE && old(self).o_files@[j] is None),
    {
        self.arg_fd(0)?;
        let new_fd = match self.alloc_fd() {
            Ok(fd) => fd,
            Err(_) => {
                return Err("sys_dup: cannot allocate new fd");
            },
        };
        let new_f = match &self.o_files[0] {
            Some(f) => Some(f.clone()),
            None => None,
        };
        self.o_files.set(new_fd, new_f);
        Ok(new_fd)
    }
}

/// The system calls.
#[derive(Debug, Clone, Copy, PartialEq, Eq, Structural)]
pub enum SyscallKind {
    Fork,
    Exec,
    Dup,
    Open,
    Write,
}

/// The system call of number `num`, where there is one: 1 forks, 7 runs a
/// program, 10 duplicates a descriptor, 15 opens a file, 16 writes.
pub open spec fn syscall_of(num: usize) -> Option<SyscallKind> {
    if num == 1 {
        Some(SyscallKind::Fork)
    } else if num == 7 {
        Some(SyscallKind::Exec)
    } else if num == 10 {
        Some(SyscallKind::Dup)
    } else if num == 15 {
        Some(SyscallKind::Open)
    } else if num == 16 {
        Some(SyscallKind::Write)
    } else {
        None
    }
}

/// The system call that register `a7` names; `None` for a number that is
/// no system call.
pub fn syscall_kind(num: usize) -> (r: Option<SyscallKind>)
    ensures
        r == syscall_of(num),
{
    match num {
        1 => Some(SyscallKind::Fork),
        7 => Some(SyscallKind::Exec),
        10 => Some(SyscallKind::Dup),
        15 => Some(SyscallKind::Open),
        16 => Some(SyscallKind::Write),
        _ => None,
    }
}

/// What a system call leaves in register `a0`: its result, or -1 (all bits
/// set) where it failed.
pub fn syscall_return(r: Result<usize, &'static str>) -> (v: usize)
    ensures
        match r {
            Ok(x) => v == x,
            Err(_) => v == usize::MAX,
        },
{
    match r {
        Ok(x) => x,
        Err(_) => usize::MAX,
    }
}

impl ProcessData {
    /// Opens the file `path` leads to, from the working directory, in the
    /// mode argument 1 gives (see `open_path`), into the first free
    /// descriptor, which it returns. The path is what argument 0 points at,
    /// copied in from user memory.
    pub fn sys_open<F: Fn(u32, u32) -> DiskINode, G: Fn(u32, u32, u32) -> Vec<DirEnt>>(
        &mut self,
        table: &mut INodeTable,
        path: &[u8],
        read: &F,
        read_dir: &G,
    ) -> (r: Result<usize, &'static str>)
        requires
            old(self).o_files@.len() == NOFILE,
            old(self).cwd matches Some(c) && {
                &&& old(table).wf()
                &&& terminated_from(path@, 0)
                &&& reads_typed(read)
                &&& reads_dir(read_dir)
                &&& c.slot() < old(table).slots().len()
                &&& any_holding(old(table).slots(), ROOTDEV, ROOTINO) || any_free(old(table).slots())
                &&& next_elem(path@, 0) is Some ==> two_free(old(table).slots())
                &&& forall|i: int|
                    0 <= i < old(table).slots().len() ==> #[trigger] old(table).slots()[i].refcnt < usize::MAX - 1
                &&& (old(self).tf.a1 as i32) & O_CREATE == 0
                &&& opens_typed(read, read_dir, old(table).tview(), path@, c.slot())
            },
        ensures
            final(self).o_files@.len() == NOFILE,
            final(self).cwd == old(self).cwd,
            final(self).tf == old(self).tf,
            exists|t_open: TableView, fo: Option<File>|
                #[trigger] open_path_outcome(
                    read,
                    read_dir,
                    old(table).tview(),
                    path@,
                    old(self).cwd.unwrap().slot(),
                    old(self).tf.a1 as i32,
                    t_open,
                    fo,
                ) && match fo {
                    None => {
                        &&& r == Err::<usize, &'static str>("sys_open: cannot open file")
                        &&& final(table).tview() == t_open
                        &&& final(self).o_files@ == old(self).o_files@
                    },
                    Some(f) => if exists|j: int| 0 <= j < NOFILE && old(self).o_files@[j] is None {
                        &&& r matches Ok(fd) && (first_free_fd(old(self).o_files@, fd as int)
                            && (final(self).o_files@[fd as int] matches Some(a) && *a == f)
                            && final(self).o_files@ == old(self).o_files@.update(fd as int, final(self).o_files@[fd as int]))
                        &&& final(table).tview() == t_open
                    } else {
                        &&& r == Err::<usize, &'static str>("sys_open: cannot allocate fd")
                        &&& final(table).tview() == iput_view(t_open, f.inode.slot())
                        &&& final(self).o_files@ == old(self).o_files@
                    },
                },
    {
        let o_mode = match self.arg_i32(1) {
            Ok(m) => m,
            Err(e) => {
                return Err(e);
            },
        };
        let f = match &self.cwd {
            Some(c) => open_path(table, path, o_mode, c, read, read_dir),
            None => {
                return Err("sys_open: no working directory");
            },
        };
        let ghost t_open = table.tview();
        let ghost fo = f;
        let f = match f {
            Some(f) => f,
            None => {
                return Err("sys_open: cannot open file");
            },
        };
        let fd = match self.alloc_fd() {
            Ok(fd) => fd,
            Err(_) => {
                let i = f.inode.index();
                table.iput(i);
                return Err("sys_open: cannot allocate fd");
            },
        };
        self.o_files.set(fd, Some(Arc::new(f)));
        Ok(fd)
    }
}

impl Context {
    /// All registers zero.
    pub open spec fn spec_zero() -> Context {
        Context {
            ra: 0,
            sp: 0,
            s0: 0,
            s1: 0,
            s2: 0,
            s3: 0,
            s4: 0,
            s5: 0,
            s6: 0,
            s7: 0,
            s8: 0,
            s9: 0,
            s10: 0,
            s11: 0,
        }
    }
}

/// Where the code at `sym`, within the trampoline page that starts at
/// `trampoline` in the kernel's image, sits in the user address space.
pub fn trampoline_va(sym: u64, trampoline: u64) -> (r: u64)
    requires
        trampoline <= sym,
        sym - trampoline < PAGESIZE,
    ensures
        r == TRAMPOLINE + (sym - trampoline),
{
    TRAMPOLINE + (sym - trampoline)
}

/// What a process is doing.
#[derive(Clone, Copy, PartialEq, Eq, Structural, Debug)]
pub enum ProcState {
    Unused,
    Runnable,
    Running,
    Allocated,
    Sleeping,
}

/// The part of a process its lock guards.
pub struct ProcInner {
    pub state: ProcState,
    pub pid: usize,
    pub chan: usize,
}

impl ProcInner {
    /// An unused process.
    pub fn new() -> (p: ProcInner)
        ensures
            p.state == ProcState::Unused && p.pid == 0 && p.chan == 0,
    {
        ProcInner { state: ProcState::Unused, pid: 0, chan: 0 }
    }
}

/// A process.
pub struct Proc {
    pub inner: ProcInner,
    pub data: ProcessData,
}

/// The program of the first process, which calls exec("/init").
pub const INITCODE_LEN: usize = 51;

/// The first process's program: it loads the addresses of "/init" and of
/// its argument vector, calls exec (system call 7), then exit (2), and loops
/// on failure.
pub open spec fn initcode_spec() -> Seq<u8> {
    seq![
        0x17u8, 0x05, 0x00, 0x00, 0x13, 0x05, 0x05, 0x02, 0x97, 0x05, 0x00, 0x00, 0x93, 0x85, 0x05,
        0x02, 0x9d, 0x48, 0x73, 0x00, 0x00, 0x00, 0x89, 0x48, 0x73, 0x00, 0x00, 0x00, 0xef, 0xf0,
        0xbf, 0xff, 0x2f, 0x69, 0x6e, 0x69, 0x74, 0x00, 0x00, 0x01, 0x20, 0x00, 0x00, 0x00, 0x00,
        0x00, 0x00, 0x00, 0x00, 0x00, 0x00,
    ]
}

/// The bytes of the first process's program.
pub fn initcode() -> (code: Vec<u8>)
    ensures
        code@ == initcode_spec(),
        code@.len() == INITCODE_LEN,
{
    let code: Vec<u8> = vec![
        0x17, 0x05, 0x00, 0x00, 0x13, 0x05, 0x05, 0x02, 0x97, 0x05, 0x00, 0x00, 0x93, 0x85, 0x05,
        0x02, 0x9d, 0x48, 0x73, 0x00, 0x00, 0x00, 0x89, 0x48, 0x73, 0x00, 0x00, 0x00, 0xef, 0xf0,
        0xbf, 0xff, 0x2f, 0x69, 0x6e, 0x69, 0x74, 0x00, 0x00, 0x01, 0x20, 0x00, 0x00, 0x00, 0x00,
        0x00, 0x00, 0x00, 0x00, 0x00, 0x00,
    ];
    code
}

/// The name of the first process, "initcode" ended by a 0.
pub open spec fn init_name() -> Seq<u8> {
    seq![0x69u8, 0x6e, 0x69, 0x74, 0x63, 0x6f, 0x64, 0x65, 0]
}

impl Proc {
    /// An unused process.
    pub fn new() -> (p: Proc)
        ensures
            p.inner.state == ProcState::Unused && p.inner.pid == 0 && p.inner.chan == 0,
            p.data.kstack == 0 && p.data.sz == 0 && p.data.tf_addr == 0,
            p.data.page_table is None && p.data.cwd is None,
            p.data.o_files@.len() == NOFILE,
            forall|i: int| 0 <= i < NOFILE ==> p.data.o_files@[i] is None,
    {
        Proc { inner: ProcInner::new(), data: ProcessData::new() }
    }

    /// Gives up the hart: a running process becomes runnable, and `true`
    /// says the switch to the scheduler is due.
    pub fn yielding(&mut self) -> (switch: bool)
        ensures
            switch == (old(self).inner.state == ProcState::Running),
            final(self).inner.state == if switch {
                ProcState::Runnable
            } else {
                old(self).inner.state
            },
            final(self).inner.pid == old(self).inner.pid,
            final(self).inner.chan == old(self).inner.chan,
            final(self).data == old(self).data,
    {
        if self.inner.state == ProcState::Running {
            self.inner.state = ProcState::Runnable;
            true
        } else {
            false
        }
    }

    /// Goes to sleep on `chan`, before the switch to the scheduler.
    pub fn sleep(&mut self, chan: usize)
        ensures
            final(self).inner.state == ProcState::Sleeping,
            final(self).inner.chan == chan,
            final(self).inner.pid == old(self).inner.pid,
            final(self).data == old(self).data,
    {
        self.inner.chan = chan;
        self.inner.state = ProcState::Sleeping;
    }

    /// Back from sleep: the channel is cleared.
    pub fn woken(&mut self)
        ensures
            final(self).inner.chan == 0,
            final(self).inner.state == old(self).inner.state,
            final(self).inner.pid == old(self).inner.pid,
            final(self).data == old(self).data,
    {
        self.inner.chan = 0;
    }

    /// Sets the process up as the first one: maps one page at virtual address
    /// 0, at physical `mem`, for its program; it will start at address 0 with
    /// its stack at the top of that page; its name is "initcode" and its
    /// working directory the root.
    pub fn user_init(&mut self, itable: &mut INodeTable, mem: usize) -> (r: Result<(), &'static str>)
        requires
            old(self).data.page_table matches Some(pt) && pt.wf(),
            mem + 4096 <= usize::MAX,
            any_holding(old(itable).slots(), ROOTDEV, ROOTINO) || any_free(old(itable).slots()),
            forall|i: int|
                0 <= i < old(itable).slots().len() ==> #[trigger] old(itable).slots()[i].refcnt
                    < usize::MAX,
        ensures
            r is Ok <==> map_view(old(self).data.page_table.unwrap()@, 0, 1, mem as nat, 0x1e).1 is Ok,
            final(self).inner == old(self).inner,
            final(self).data.page_table matches Some(pt) && pt.wf() && pt@ == map_view(
                old(self).data.page_table.unwrap()@,
                0,
                1,
                mem as nat,
                0x1e,
            ).0 && pt.root_addr() == old(self).data.page_table.unwrap().root_addr(),
            final(self).data.tf_addr == old(self).data.tf_addr,
            final(self).data.context == old(self).data.context,
            r is Ok ==> {
                &&& final(self).data.sz == PAGESIZE
                &&& final(self).data.tf.epc == 0
                &&& final(self).data.tf.sp == PAGESIZE
                &&& final(self).data.name@.subrange(0, 9) == init_name()
                &&& final(self).data.cwd matches Some(ip) && ip.names() == (ROOTDEV, ROOTINO)
            },
    {
        let code = initcode();
        let mut pt = match self.data.page_table.take() {
            Some(pt) => pt,
            None => {
                return Err("user_init: no page table");
            },
        };
        let res = pt.uvm_init(code.as_slice(), mem);
        self.data.page_table = Some(pt);
        res?;
        self.data.sz = PAGESIZE;
        self.data.tf.epc = 0;
        self.data.tf.sp = PAGESIZE;
        let init_bytes: [u8; 9] = [0x69, 0x6e, 0x69, 0x74, 0x63, 0x6f, 0x64, 0x65, 0];
        let ghost pt_now = self.data.page_table;
        let mut i: usize = 0;
        while i < 9
            invariant
                self.inner == old(self).inner,
                self.data.page_table == pt_now,
                self.data.tf_addr == old(self).data.tf_addr,
                self.data.context == old(self).data.context,
                self.data.sz == PAGESIZE,
                self.data.tf.epc == 0,
                self.data.tf.sp == PAGESIZE,
                i <= 9,
                init_bytes@ == init_name(),
                forall|j: int| 0 <= j < i ==> self.data.name@[j] == init_name()[j],
            decreases 9 - i,
        {
            self.data.name.set(i, init_bytes[i]);
            i += 1;
        }
        assert(self.data.name@.subrange(0, 9) =~= init_name());
        let root = itable.iget(ROOTDEV, ROOTINO);
        self.data.cwd = Some(root);
        Ok(())
    }
}

} // verus!
