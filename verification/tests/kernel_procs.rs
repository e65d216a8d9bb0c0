use lib::kernel::register::{enable_supervisor_all, get_type, intr_get, intr_off, intr_on, set_mpp, MPPMode, ScauseType};
use lib::kernel::page_table::{Page, PteFlag, SinglePage};
use lib::kernel::vm::{PageTable as Table, PageTableEntry as Entry};
use std::cell::RefCell;
use std::sync::Arc;

use lib::kernel::console::{Console, CTRL_CR, INPUT_BUF};
use lib::kernel::cpu::{Cpu, CpuTable};
use lib::kernel::elf::load_layout;
use lib::kernel::file::{File, MAX_WRITE, O_RDONLY, O_RDWR, O_WRONLY};
use lib::kernel::fs::{DirEnt, DiskINode, INodeTable, INodeType};
use lib::kernel::page_table::{MapError, PageTable};
use lib::kernel::param::{NCPU, NOFILE, NPROC, PAGESIZE};
use lib::kernel::proc::{syscall_kind, syscall_return, Context, Proc, ProcState, ProcessData, SyscallKind};
use lib::kernel::process::ProcessTable;

#[test]
fn console_stores_and_wakes_at_end_of_line() {
    let mut c = Console::new();
    assert_eq!(c.intr(b'h'), (Some(b'h'), false));
    assert_eq!(c.e, 1);
    assert_eq!(c.buf[1], b'h');
    assert_eq!(c.w, 0);
    assert_eq!(c.intr(CTRL_CR), (Some(b'\n'), true));
    assert_eq!(c.w, 2);
    assert_eq!(c.intr(0), (None, false));
}

#[test]
fn console_full_ring_wakes_and_then_refuses() {
    let mut c = Console::new();
    for _ in 0..INPUT_BUF - 1 {
        assert_eq!(c.intr(b'x').1, false);
    }
    assert_eq!(c.intr(b'x'), (Some(b'x'), true));
    assert_eq!(c.w, INPUT_BUF);
    assert_eq!(c.intr(b'y'), (None, false));
}

#[test]
fn nested_interrupt_sections() {
    let mut cpu = Cpu::new(3);
    cpu.push_off(true);
    cpu.push_off(false);
    assert_eq!(cpu.noff, 2);
    assert!(!cpu.pop_off(false));
    assert!(cpu.pop_off(false));
    assert_eq!(cpu.noff, 0);
    cpu.push_off(false);
    assert!(!cpu.pop_off(false));
}

#[test]
fn cpu_table_by_hart() {
    let mut t = CpuTable::new();
    assert_eq!(t.table.len(), NCPU);
    let c = t.my_cpu_mut(2);
    assert_eq!(c.hartid, 2);
    c.noff = 5;
    assert_eq!(t.table[2].noff, 5);
}

#[test]
fn context_clear_keeps_s0() {
    let mut c = Context::new();
    c.ra = 1;
    c.s0 = 9;
    c.s11 = 4;
    c.clear();
    assert_eq!((c.ra, c.s0, c.s11), (0, 9, 0));
}

#[test]
fn process_context_and_args() {
    let mut pd = ProcessData::new();
    pd.set_kstack(0x3f_0000);
    pd.init_context(0x8000_1234);
    assert_eq!(pd.context.ra, 0x8000_1234);
    assert_eq!(pd.context.sp, 0x3f_0000 + 4 * PAGESIZE);
    pd.get_context().s1 = 7;
    assert_eq!(pd.context.s1, 7);
    pd.tf.a0 = 3;
    pd.tf.a5 = usize::MAX;
    assert_eq!(pd.arg_raw(0), Ok(3));
    assert_eq!(pd.arg_raw(6), Err("arg raw"));
    assert_eq!(pd.arg_i32(5), Ok(-1));
    assert_eq!(pd.alloc_fd(), Ok(0));
    assert_eq!(pd.arg_fd(5), Err("file descriptor must be greater than or equal to 0"));
    assert_eq!(pd.arg_fd(0), Err("file descriptor not allocated"));
    pd.tf.a0 = 16;
    assert_eq!(pd.arg_fd(0), Err("file descriptor must be less than NOFILE"));
}

#[test]
fn dup_takes_the_first_free_descriptor() {
    let mut table = INodeTable::new();
    let mut pd = ProcessData::new();
    let ip = table.iget(1, 1);
    let f = File::open(ip, INodeType::File, O_RDWR).unwrap();
    pd.o_files[0] = Some(Arc::new(f));
    pd.tf.a0 = 0;
    assert_eq!(pd.sys_dup(), Ok(1));
    assert!(pd.o_files[1].is_some());
    assert_eq!(pd.sys_dup(), Ok(2));
    pd.tf.a0 = 9;
    assert!(pd.sys_dup().is_err());
}

#[test]
fn open_modes() {
    let mut table = INodeTable::new();
    let f = File::open(table.iget(1, 2), INodeType::File, O_WRONLY).unwrap();
    assert!(!f.readable && f.writable);
    let f = File::open(table.iget(1, 2), INodeType::File, O_RDONLY).unwrap();
    assert!(f.readable && !f.writable);
    assert!(File::open(table.iget(1, 1), INodeType::Directory, O_RDWR).is_none());
    assert!(File::open(table.iget(1, 1), INodeType::Directory, O_RDONLY).is_some());
}

#[test]
fn scheduler_picks_first_runnable() {
    let mut t = ProcessTable::new();
    assert_eq!(t.table.len(), NPROC);
    assert_eq!(t.find_runnable(), None);
    t.table[3].inner.state = ProcState::Runnable;
    t.table[7].inner.state = ProcState::Runnable;
    assert_eq!(t.find_runnable(), Some(3));
    assert!(t.table[3].inner.state == ProcState::Allocated);
    assert_eq!(t.find_runnable(), Some(7));
    assert_eq!(t.find_runnable(), None);
}

#[test]
fn pids_count_up() {
    let mut t = ProcessTable::new();
    assert_eq!(t.alloc_pid(), 0);
    assert_eq!(t.alloc_pid(), 1);
    assert_eq!(t.pid, 2);
}

#[test]
fn first_process_is_runnable() {
    let mut t = ProcessTable::new();
    let mut itable = INodeTable::new();
    let i = t.user_init(&mut itable, 0x8700_0000, 0x8600_0000, 8, 0x8000_7000, 0x8000_0100, 0x8700_1000);
    assert_eq!(i, 0);
    let p = &t.table[0];
    assert!(p.inner.state == ProcState::Runnable);
    assert_eq!(p.inner.pid, 0);
    assert_eq!(p.data.sz, PAGESIZE);
    assert_eq!(&p.data.name[0..9], b"initcode\0");
    assert_eq!(p.data.cwd.as_ref().unwrap().inum(), 1);
    assert_eq!(p.data.tf.epc, 0);
    assert_eq!(p.data.tf.sp, PAGESIZE);
    assert_eq!(p.data.tf_addr, 0x8700_0000);
    assert_eq!(p.data.context.ra, 0x8000_0100);
    assert_eq!(t.pid, 1);
    // the other slots are left as they were
    assert!(t.table[1].inner.state == ProcState::Unused);
    let pt = t.table[0].data.page_table.as_ref().unwrap();
    assert_eq!(pt.as_satp(), (8u64 << 60) | (0x8600_0000u64 >> 12));
    // the program's page is mapped at address 0 already
    let mut pt = t.table[0].data.page_table.take().unwrap();
    let flags = PteFlag::user().union(PteFlag::read());
    assert_eq!(pt.map_pages(0, 0x8700_2000, 4096, flags), Err(MapError::Remap));
}

#[test]
fn alloc_proc_fails_on_a_small_pool() {
    let mut t = ProcessTable::new();
    assert_eq!(t.alloc_proc(0x8700_0000, 0x8600_0000, 2, 0x8000_7000, 0x100), None);
    assert_eq!(t.pid, 1);
    assert!(t.table[0].inner.state == ProcState::Unused);
    assert_eq!(t.alloc_proc(0x8700_0000, 0x8600_0000, 3, 0x8000_7000, 0x100), Some(0));
}

#[test]
fn new_proc_is_unused() {
    let p = Proc::new();
    assert!(p.inner.state == ProcState::Unused);
    let _ = PageTable::empty(0x1000, 1);
}

#[test]
fn control_registers() {
    assert_eq!(set_mpp(0xffff_ffff, MPPMode::Supervisor), (0xffff_ffff & !(3 << 11)) | (1 << 11));
    assert_eq!(set_mpp(0, MPPMode::Machine), 3 << 11);
    assert_eq!(get_type(0x8000_0000_0000_0001), ScauseType::IntSSoft);
    assert_eq!(get_type(0x8000_0000_0000_0009), ScauseType::IntSExt);
    assert_eq!(get_type(0x8000_0000_0000_0005), ScauseType::Unknown(5));
    assert!(intr_get(intr_on(0)));
    assert!(!intr_get(intr_off(0xff)));
    assert_eq!(enable_supervisor_all(0), 0x222);
}

#[test]
fn early_page_table_entries() {
    let _t = Table::new();
    let mut e = Entry::new();
    assert!(e.is_unused());
    e.set_addr(0x1000, PteFlag::read());
    assert!(!e.is_unused());
}

#[test]
fn zeroed_page() {
    let p = SinglePage::new_zeroed();
    assert_eq!(p.data().len(), 4096);
    assert!(p.data().iter().all(|&b| b == 0));
}

#[test]
fn scheduler_round_and_yield() {
    let mut cpus = CpuTable::new();
    let mut procs = ProcessTable::new();
    assert_eq!(cpus.scheduler(1, &mut procs), None);
    procs.table[4].inner.state = ProcState::Runnable;
    assert_eq!(cpus.scheduler(1, &mut procs), Some(4));
    assert!(procs.table[4].inner.state == ProcState::Running);
    assert_eq!(cpus.table[1].proc, Some(4));
    assert!(procs.table[4].yielding());
    assert!(procs.table[4].inner.state == ProcState::Runnable);
    assert!(!procs.table[4].yielding());
    cpus.switched_back(1);
    assert_eq!(cpus.table[1].proc, None);
}

#[test]
fn sched_checks() {
    let mut cpu = Cpu::new(0);
    assert_eq!(cpu.sched(ProcState::Runnable, false), Err("sched: multi locks"));
    cpu.push_off(false);
    assert_eq!(cpu.sched(ProcState::Running, false), Err("sched: proc is running"));
    assert_eq!(cpu.sched(ProcState::Sleeping, true), Err("sched: interruptable"));
    assert_eq!(cpu.sched(ProcState::Sleeping, false), Ok(()));
}

#[test]
fn sleep_and_wake() {
    let mut p = Proc::new();
    p.sleep(0x1234);
    assert!(p.inner.state == ProcState::Sleeping);
    assert_eq!(p.inner.chan, 0x1234);
    p.woken();
    assert_eq!(p.inner.chan, 0);
}

#[test]
fn trap_return_setup() {
    use_trap_return();
}

fn use_trap_return() {
    let mut pd = ProcessData::new();
    pd.set_kstack(0x3f_8000);
    pd.tf.epc = 0x44;
    pd.prepare_return(0x8000_0000_0008_7000, 0x8000_2000, 3);
    assert_eq!(pd.tf.kernel_sp, 0x3f_8000 + 4 * PAGESIZE);
    assert_eq!(pd.tf.kernel_hartid, 3);
    assert_eq!(pd.tf.kernel_trap, 0x8000_2000);
    assert_eq!(pd.tf.epc, 0x44);
    assert_eq!(lib::kernel::proc::trampoline_va(0x8000_7010, 0x8000_7000), 0x3f_ffff_f010);
}

#[test]
fn my_proc_and_yield_by_hart() {
    let mut cpus = CpuTable::new();
    let mut procs = ProcessTable::new();
    assert_eq!(cpus.my_proc(0, true), (None, true));
    assert_eq!(cpus.table[0].noff, 0);
    procs.table[2].inner.state = ProcState::Runnable;
    assert_eq!(cpus.scheduler(0, &mut procs), Some(2));
    cpus.table[0].push_off(true);
    assert_eq!(cpus.my_proc(0, false), (Some(2), false));
    assert!(cpus.yielding(0, &mut procs));
    assert!(!cpus.yielding(0, &mut procs));
    assert!(!cpus.yielding(1, &mut procs));
}

fn dir_entry(inum: u16, name: &str) -> DirEnt {
    let mut d = DirEnt::empty();
    d.inum = inum;
    d.name[..name.len()].copy_from_slice(name.as_bytes());
    d
}

fn small_inode(_dev: u32, inum: u32) -> DiskINode {
    let mut d = DiskINode::new();
    d.typed = if inum == 1 { INodeType::Directory } else { INodeType::File };
    d.nlink = 1;
    d.size = if inum == 1 { 32 } else { 0 };
    d
}

fn small_dir(_dev: u32, inum: u32, _size: u32) -> Vec<DirEnt> {
    if inum == 1 { vec![dir_entry(1, "."), dir_entry(5, "f")] } else { vec![] }
}

#[test]
fn open_takes_a_descriptor_for_the_file_the_path_names() {
    let mut table = INodeTable::new();
    let mut pd = ProcessData::new();
    pd.cwd = Some(table.iget(1, 1));
    pd.tf.a1 = O_RDWR as usize;
    assert_eq!(pd.sys_open(&mut table, b"/f\0", &small_inode, &small_dir), Ok(0));
    let f = pd.o_files[0].as_ref().unwrap();
    assert_eq!(f.inode.inum(), 5);
    assert!(f.readable && f.writable);
    assert_eq!(pd.sys_open(&mut table, b"f\0", &small_inode, &small_dir), Ok(1));
    assert_eq!(pd.sys_open(&mut table, b"/g\0", &small_inode, &small_dir), Err("sys_open: cannot open file"));
    for fd in 2..NOFILE {
        pd.o_files[fd] = pd.o_files[0].clone();
    }
    assert_eq!(pd.sys_open(&mut table, b"/f\0", &small_inode, &small_dir), Err("sys_open: cannot allocate fd"));
}

#[test]
fn syscall_numbers_and_results() {
    assert_eq!(syscall_kind(1), Some(SyscallKind::Fork));
    assert_eq!(syscall_kind(7), Some(SyscallKind::Exec));
    assert_eq!(syscall_kind(10), Some(SyscallKind::Dup));
    assert_eq!(syscall_kind(15), Some(SyscallKind::Open));
    assert_eq!(syscall_kind(16), Some(SyscallKind::Write));
    assert_eq!(syscall_kind(2), None);
    assert_eq!(syscall_return(Ok(3)), 3);
    assert_eq!(syscall_return(Err("no")), usize::MAX);
}

#[test]
fn fwrite_writes_in_pieces() {
    let mut table = INodeTable::new();
    let ip = table.iget(1, 5);
    let mut f = File::open(ip, INodeType::File, O_RDWR).unwrap();
    let calls = RefCell::new(Vec::new());
    let all_ok = |off: usize, i: usize, len: usize| {
        calls.borrow_mut().push((off, i, len));
        true
    };
    assert_eq!(f.fwrite(7000, &all_ok), Ok(7000));
    assert_eq!(f.offset, 7000);
    assert_eq!(*calls.borrow(), vec![(0, 0, MAX_WRITE), (3072, 3072, 3072), (6144, 6144, 856)]);
    let second_fails = |_off: usize, i: usize, _len: usize| i == 0;
    assert_eq!(f.fwrite(7000, &second_fails), Err("fwrite: inode type"));
    assert_eq!(f.offset, 7000 + 3072);
    let ip = table.iget(1, 6);
    let mut r = File::open(ip, INodeType::File, O_RDONLY).unwrap();
    assert_eq!(r.fwrite(10, &all_ok), Err("fwrite: not writable"));
    assert_eq!(r.offset, 0);
}

fn elf_image(phnum: u16, memsz: u64, filesz: u64) -> Vec<u8> {
    let mut img = vec![0u8; 120];
    img[0..4].copy_from_slice(&[0x7f, b'E', b'L', b'F']);
    img[32..40].copy_from_slice(&64u64.to_le_bytes());
    img[56..58].copy_from_slice(&phnum.to_le_bytes());
    img[64 + 16..64 + 24].copy_from_slice(&0u64.to_le_bytes());
    img[64 + 32..64 + 40].copy_from_slice(&filesz.to_le_bytes());
    img[64 + 40..64 + 48].copy_from_slice(&memsz.to_le_bytes());
    img
}

#[test]
fn load_layout_grows_for_segments_then_the_stack() {
    let args = vec![b"hi\0".to_vec()];
    assert_eq!(load_layout(&elf_image(1, 0x1800, 120), &args), Ok((0x3800, vec![0x37f0])));
    assert_eq!(load_layout(&elf_image(0, 0x1800, 120), &args), Ok((0x2000, vec![0x1ff0])));
    assert_eq!(load_layout(&[0u8; 10], &args), Err("cannot read the elf file"));
    let mut bad = elf_image(1, 0x1800, 120);
    bad[0] = 0;
    assert_eq!(load_layout(&bad, &args), Err("elf magic invalid"));
    assert_eq!(load_layout(&elf_image(2, 0x1800, 120), &args), Err("cannot read the program section"));
    assert_eq!(load_layout(&elf_image(1, 0x1800, 121), &args), Err("load_segment: cannot read the program segment"));
}
