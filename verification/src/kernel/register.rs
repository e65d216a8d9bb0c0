//! The control and status registers the kernel changes, as values: what each
//! change makes of the value read, for the caller to write back.
use vstd::prelude::*;

verus! {

/// The bit of `sstatus` that enables supervisor interrupts.
pub const SIE: u64 = 0x2;

/// The bit of `sstatus` that held SIE before the last trap.
pub const SPIE: u64 = 0x20;

/// The bit of `sstatus` that holds the privilege before the last trap.
pub const SPP: u64 = 0x100;

/// The top bit of `scause`: the trap was an interrupt.
pub const INTERRUPT: u64 = 0x8000_0000_0000_0000;

/// A software interrupt in supervisor mode.
pub const INTERRUPT_SUPERVISOR_SOFTWARE: u64 = 0x8000_0000_0000_0001;

/// An external interrupt in supervisor mode.
pub const INTERRUPT_SUPERVISOR_EXTERNAL: u64 = 0x8000_0000_0000_0009;

/// The privilege that `mret` returns to.
#[derive(Clone, Copy, PartialEq, Eq, Structural, Debug)]
pub enum MPPMode {
    User,
    Supervisor,
    Machine,
}

/// The two MPP bits of a mode.
pub open spec fn mpp_bits(mode: MPPMode) -> u64 {
    match mode {
        MPPMode::User => 0,
        MPPMode::Supervisor => 1,
        MPPMode::Machine => 3,
    }
}

/// `mstatus` with its previous privilege set to `mode`.
pub fn set_mpp(mstatus: u64, mode: MPPMode) -> (r: u64)
    ensures
        r == (mstatus & !(3u64 << 11u64)) | (mpp_bits(mode) << 11u64),
{
    let cleared = mstatus & !(3u64 << 11u64);
    let bits: u64 = match mode {
        MPPMode::User => 0,
        MPPMode::Supervisor => 1,
        MPPMode::Machine => 3,
    };
    cleared | (bits << 11u64)
}

/// What a trap was.
#[derive(Clone, Copy, PartialEq, Eq, Structural, Debug)]
pub enum ScauseType {
    /// Another interrupt, by its code.
    Unknown(u64),
    /// A software interrupt: the timer, relayed.
    IntSSoft,
    /// A device interrupt, through the PLIC.
    IntSExt,
}

/// The kind of the interrupt `scause` reports.
pub fn get_type(scause: u64) -> (r: ScauseType)
    requires
        scause >= INTERRUPT,
    ensures
        r == if scause == INTERRUPT_SUPERVISOR_SOFTWARE {
            ScauseType::IntSSoft
        } else if scause == INTERRUPT_SUPERVISOR_EXTERNAL {
            ScauseType::IntSExt
        } else {
            ScauseType::Unknown((scause - INTERRUPT) as u64)
        },
{
    if scause == INTERRUPT_SUPERVISOR_SOFTWARE {
        ScauseType::IntSSoft
    } else if scause == INTERRUPT_SUPERVISOR_EXTERNAL {
        ScauseType::IntSExt
    } else {
        ScauseType::Unknown(scause - INTERRUPT)
    }
}

/// `sstatus` with supervisor interrupts enabled.
pub fn intr_on(sstatus: u64) -> (r: u64)
    ensures
        r == sstatus | SIE,
{
    sstatus | SIE
}

/// `sstatus` with supervisor interrupts disabled.
pub fn intr_off(sstatus: u64) -> (r: u64)
    ensures
        r == sstatus & !SIE,
{
    sstatus & !SIE
}

/// Whether `sstatus` has supervisor interrupts enabled.
pub fn intr_get(sstatus: u64) -> (r: bool)
    ensures
        r == (sstatus & SIE != 0),
{
    (sstatus & SIE) != 0
}

/// Turning interrupts on then reading gives on; off then reading gives off;
/// and neither touches another bit.
pub proof fn lemma_intr_on_off(sstatus: u64)
    ensures
        (sstatus | SIE) & SIE != 0,
        (sstatus & !SIE) & SIE == 0,
        (sstatus | SIE) & !SIE == sstatus & !SIE,
        (sstatus & !SIE) | SIE == sstatus | SIE,
{
    assert((sstatus | 2u64) & 2u64 != 0) by (bit_vector);
    assert((sstatus & !2u64) & 2u64 == 0) by (bit_vector);
    assert((sstatus | 2u64) & !2u64 == sstatus & !2u64) by (bit_vector);
    assert((sstatus & !2u64) | 2u64 == sstatus | 2u64) by (bit_vector);
}

/// `sie` with the software, timer and external interrupts of supervisor mode
/// enabled.
pub fn enable_supervisor_all(sie: u64) -> (r: u64)
    ensures
        r == sie | 0x222,
{
    let mut v = sie;
    v = v | (1u64 << 1u64);
    v = v | (1u64 << 5u64);
    v = v | (1u64 << 9u64);
    assert(v == sie | 0x222) by (bit_vector)
        requires
            v == ((sie | (1u64 << 1u64)) | (1u64 << 5u64)) | (1u64 << 9u64),
    ;
    v
}

} // verus!
