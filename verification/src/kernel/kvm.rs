//! The kernel's address space: devices, kernel text and data, and RAM,
//! mapped at their own addresses, and the trampoline at the top.
use vstd::prelude::*;

use super::page_table::{map_view, page_count, page_start, PageTable, PageTableView, PteFlag};
use super::param::{
    CLINT, CLINT_MAP_SIZE, KERNBASE, PAGESIZE, PHYSTOP, PLIC, PLIC_MAP_SIZE, QEMU_TEST0, TRAMPOLINE,
    UART0, UART0_MAP_SIZE, VIRTIO0, VIRTIO0_MAP_SIZE,
};

verus! {

/// Read and write.
pub open spec fn perm_rw() -> usize {
    0x6
}

/// Read and execute.
pub open spec fn perm_rx() -> usize {
    0xa
}

/// Mapping `size` bytes at `va` onto `pa`, after `prev`.
pub open spec fn then_map(prev: (PageTableView, bool), va: nat, pa: nat, size: nat, perm: usize) -> (
    PageTableView,
    bool,
) {
    let (v, r) = map_view(prev.0, page_start(va), page_count(va, size), pa, perm);
    (v, prev.1 && r is Ok)
}

/// The kernel's mappings, in the order they are made, whose text ends at
/// `etext` and whose trampoline page is at physical `trampoline`; and
/// whether every one succeeds.
pub open spec fn kvm_view(v: PageTableView, etext: nat, trampoline: nat) -> (PageTableView, bool) {
    let s1 = then_map((v, true), UART0 as nat, UART0 as nat, UART0_MAP_SIZE as nat, perm_rw());
    let s2 = then_map(s1, VIRTIO0 as nat, VIRTIO0 as nat, VIRTIO0_MAP_SIZE as nat, perm_rw());
    let s3 = then_map(s2, QEMU_TEST0 as nat, QEMU_TEST0 as nat, PAGESIZE as nat, perm_rw());
    let s4 = then_map(s3, CLINT as nat, CLINT as nat, CLINT_MAP_SIZE as nat, perm_rw());
    let s5 = then_map(s4, PLIC as nat, PLIC as nat, PLIC_MAP_SIZE as nat, perm_rw());
    let s6 = then_map(s5, KERNBASE as nat, KERNBASE as nat, (etext - KERNBASE) as nat, perm_rx());
    let s7 = then_map(s6, etext, etext, (PHYSTOP - etext) as nat, perm_rw());
    then_map(s7, TRAMPOLINE as nat, trampoline, PAGESIZE as nat, perm_rx())
}

/// Maps `size` bytes at `va` onto `pa` in the kernel's address space; the
/// mapping must succeed.
pub fn kvm_map(pt: &mut PageTable, va: usize, pa: usize, size: usize, perm: PteFlag)
    requires
        old(pt).wf(),
        va + size + 4095 <= usize::MAX,
        pa + page_count(va as nat, size as nat) * 4096 <= usize::MAX,
        map_view(old(pt)@, page_start(va as nat), page_count(va as nat, size as nat), pa as nat, perm@).1 is Ok,
    ensures
        final(pt).wf(),
        final(pt).root_addr() == old(pt).root_addr(),
        final(pt)@ == map_view(old(pt)@, page_start(va as nat), page_count(va as nat, size as nat), pa as nat, perm@).0,
{
    let r = pt.map_pages(va, pa, size, perm);
    assert(r is Ok);
}

proof fn lemma_count_bound(va: nat, size: nat)
    requires
        va + size + 4095 <= usize::MAX,
    ensures
        page_count(va, size) * 4096 <= size + 8191,
        page_start(va) == va - va % 4096,
{
    let e = va + size + 4095;
    assert(page_count(va, size) * 4096 == (e - e % 4096) - (va - va % 4096)) by {
        assert((e - e % 4096) % 4096 == 0) by (nonlinear_arith)
            requires e >= 0;
        assert((va - va % 4096) % 4096 == 0) by (nonlinear_arith)
            requires va >= 0;
        assert(((e - e % 4096) - (va - va % 4096)) % 4096 == 0) by (nonlinear_arith)
            requires (e - e % 4096) % 4096 == 0, (va - va % 4096) % 4096 == 0;
    }
}

/// Builds the kernel's address space in `pt`: the UART, the virtio disk, the
/// test device, the CLINT and the PLIC read-write; the kernel text, up to
/// `etext`, read-execute; the rest of RAM read-write; and the trampoline
/// page, at physical `trampoline`, read-execute at the top. Every mapping
/// must succeed.
pub fn init(pt: &mut PageTable, etext: usize, trampoline: usize)
    requires
        old(pt).wf(),
        usize::MAX == u64::MAX,
        KERNBASE <= etext <= PHYSTOP,
        trampoline + 8192 <= usize::MAX,
        kvm_view(old(pt)@, etext as nat, trampoline as nat).1,
    ensures
        final(pt).wf(),
        final(pt).root_addr() == old(pt).root_addr(),
        final(pt)@ == kvm_view(old(pt)@, etext as nat, trampoline as nat).0,
{
    let rw = PteFlag::read().union(PteFlag::write());
    let rx = PteFlag::read().union(PteFlag::exec());
    assert(2usize | 4usize == 0x6 && 2usize | 8usize == 0xa) by (bit_vector);
    proof {
        lemma_count_bound(UART0 as nat, UART0_MAP_SIZE as nat);
        lemma_count_bound(VIRTIO0 as nat, VIRTIO0_MAP_SIZE as nat);
        lemma_count_bound(QEMU_TEST0 as nat, PAGESIZE as nat);
        lemma_count_bound(CLINT as nat, CLINT_MAP_SIZE as nat);
        lemma_count_bound(PLIC as nat, PLIC_MAP_SIZE as nat);
        lemma_count_bound(KERNBASE as nat, (etext - KERNBASE) as nat);
        lemma_count_bound(etext as nat, (PHYSTOP - etext) as nat);
        lemma_count_bound(TRAMPOLINE as nat, PAGESIZE as nat);
    }
    kvm_map(pt, UART0, UART0, UART0_MAP_SIZE, rw);
    kvm_map(pt, VIRTIO0, VIRTIO0, VIRTIO0_MAP_SIZE, rw);
    kvm_map(pt, QEMU_TEST0, QEMU_TEST0, PAGESIZE, rw);
    kvm_map(pt, CLINT, CLINT, CLINT_MAP_SIZE, rw);
    kvm_map(pt, PLIC, PLIC, PLIC_MAP_SIZE, rw);
    kvm_map(pt, KERNBASE, KERNBASE, etext - KERNBASE, rx);
    kvm_map(pt, etext, etext, PHYSTOP - etext, rw);
    kvm_map(pt, TRAMPOLINE as usize, trampoline, PAGESIZE, rx);
}

} // verus!
