//! The virtio disk: the checks and values its setup goes through, and what
//! a completion interrupt does with the used ring. The registers themselves
//! are read and written by the caller.
use vstd::prelude::*;

verus! {

/// Descriptors of the queue.
pub const NUM: u32 = 8;

/// "virt" in little-endian.
pub const VIRTIO_MAGIC: u32 = 0x74726976;

/// "QEMU" in little-endian.
pub const VIRTIO_VENDOR_QEMU: u32 = 0x554d4551;

/// Status: the driver has seen the device.
pub const VIRTIO_CONFIG_S_ACKNOWLEDGE: u32 = 1;
/// Status: the driver knows how to drive it.
pub const VIRTIO_CONFIG_S_DRIVER: u32 = 2;
/// Status: the driver knows how to drive it.
pub const VIRTIO_CONFIG_S_DRIVER_OK: u32 = 4;
/// Status: the features are settled.
pub const VIRTIO_CONFIG_S_FEATURE_OK: u32 = 8;

/// Feature bit: the disk is read-only.
pub const VIRTIO_BLK_F_RO: u32 = 5;
/// Feature bit: SCSI commands.
pub const VIRTIO_BLK_F_SCSI: u32 = 7;
/// Feature bit: write-cache configuration.
pub const VIRTIO_BLK_F_CONFIG_WCE: u32 = 11;
/// Feature bit: several queues.
pub const VIRTIO_BLK_F_MQ: u32 = 12;
/// Feature bit: any descriptor layout.
pub const VIRTIO_F_ANY_LAYOUT: u32 = 27;
/// Feature bit: indirect descriptors.
pub const VIRTIO_RING_F_INDIRECT_DESC: u32 = 28;
/// Feature bit: event indices.
pub const VIRTIO_RING_F_EVENT_IDX: u32 = 29;

/// The device answers as QEMU's legacy virtio disk.
pub fn is_virtio_disk(magic: u32, version: u32, device_id: u32, vendor: u32) -> (r: bool)
    ensures
        r == (magic == VIRTIO_MAGIC && version == 1 && device_id == 2 && vendor == VIRTIO_VENDOR_QEMU),
{
    !(magic != VIRTIO_MAGIC || version != 1 || device_id != 2 || vendor != VIRTIO_VENDOR_QEMU)
}

/// The features the driver keeps of those the device offers: all but
/// read-only, SCSI, write-cache configuration, multiple queues, any layout,
/// event indices and indirect descriptors.
pub fn negotiate_features(offered: u32) -> (r: u32)
    ensures
        r == offered & !0x3800_18a0u32,
        r & (1u32 << VIRTIO_BLK_F_RO) == 0,
        r & (1u32 << VIRTIO_RING_F_EVENT_IDX) == 0,
        r | offered == offered,
{
    let mut features = offered;
    features = features & !(1u32 << VIRTIO_BLK_F_RO);
    features = features & !(1u32 << VIRTIO_BLK_F_SCSI);
    features = features & !(1u32 << VIRTIO_BLK_F_CONFIG_WCE);
    features = features & !(1u32 << VIRTIO_BLK_F_MQ);
    features = features & !(1u32 << VIRTIO_F_ANY_LAYOUT);
    features = features & !(1u32 << VIRTIO_RING_F_EVENT_IDX);
    features = features & !(1u32 << VIRTIO_RING_F_INDIRECT_DESC);
    assert(features == offered & !0x3800_18a0u32 && features & (1u32 << 5u32) == 0 && features & (1u32
        << 29u32) == 0 && features | offered == offered) by (bit_vector)
        requires
            features == offered & !(1u32 << 5u32) & !(1u32 << 7u32) & !(1u32 << 11u32) & !(1u32
                << 12u32) & !(1u32 << 27u32) & !(1u32 << 29u32) & !(1u32 << 28u32),
    ;
    features
}

/// The status values the setup writes, in order: acknowledged, driver
/// found, features settled, driver ready.
pub fn status_steps() -> (r: [u32; 4])
    ensures
        r@ == seq![1u32, 3u32, 11u32, 15u32],
{
    let mut status: u32 = 0;
    status = status | VIRTIO_CONFIG_S_ACKNOWLEDGE;
    let s1 = status;
    status = status | VIRTIO_CONFIG_S_DRIVER;
    let s2 = status;
    status = status | VIRTIO_CONFIG_S_FEATURE_OK;
    let s3 = status;
    status = status | VIRTIO_CONFIG_S_DRIVER_OK;
    let s4 = status;
    assert(s1 == 1 && s2 == 3 && s3 == 11 && s4 == 15) by (bit_vector)
        requires
            s1 == 0u32 | 1u32,
            s2 == s1 | 2u32,
            s3 == s2 | 8u32,
            s4 == s3 | 4u32,
    ;
    let r = [s1, s2, s3, s4];
    assert(r@ =~= seq![1u32, 3u32, 11u32, 15u32]);
    r
}

/// Whether queue 0, of at most `max` descriptors, is long enough.
pub fn check_queue(max: u32) -> (r: Result<(), &'static str>)
    ensures
        r is Ok <==> max >= NUM,
{
    if max == 0 {
        Err("virtio disk has no queue 0")
    } else if max < NUM {
        Err("virtio disk max queue too short")
    } else {
        Ok(())
    }
}

/// An entry of the used ring: the head descriptor of a finished request.
#[derive(Clone, Copy, Debug)]
pub struct UsedElem {
    pub id: u32,
    pub len: u32,
}

/// What the driver keeps of a request in flight: the buffer to wake, whether
/// the disk still has it, and the status the device wrote.
#[derive(Clone, Copy, Debug)]
pub struct Info {
    pub buf_chan: Option<usize>,
    pub disk: bool,
    pub status: u8,
}

/// The driver's side of the queue.
pub struct Disk {
    pub free: [bool; 8],
    pub used_idx: u32,
    pub used_ring: [UsedElem; 8],
    pub used_device_idx: u16,
    pub info: [Info; 8],
}

/// The request ids the device finished since `from`, up to `to`.
pub open spec fn finished(ring: Seq<UsedElem>, from: u32, count: nat) -> Seq<usize> {
    Seq::new(count, |k: int| ring[((from + k) as u32 % NUM) as int].id as usize)
}

impl Disk {
    /// A queue with every descriptor taken and nothing in flight.
    pub fn new() -> (d: Disk)
        ensures
            forall|i: int| 0 <= i < NUM ==> !d.free@[i],
            d.used_idx == 0,
            d.used_device_idx == 0,
    {
        Disk {
            free: [false; 8],
            used_idx: 0,
            used_ring: [UsedElem { id: 0, len: 0 }; 8],
            used_device_idx: 0,
            info: [Info { buf_chan: None, disk: false, status: 0 }; 8],
        }
    }

    /// Frees every descriptor, once the queue is set up.
    pub fn free_all(&mut self)
        ensures
            forall|i: int| 0 <= i < NUM ==> final(self).free@[i],
            final(self).used_idx == old(self).used_idx,
            final(self).info@ == old(self).info@,
    {
        let mut i: usize = 0;
        while i < 8
            invariant
                i <= 8,
                forall|j: int| 0 <= j < i ==> self.free@[j],
                self.used_idx == old(self).used_idx,
                self.info@ == old(self).info@,
            decreases 8 - i,
        {
            self.free.set(i, true);
            i += 1;
        }
    }

    /// Takes the requests the device finished: each one's buffer is to be
    /// woken and the disk no longer holds it. Returns the buffers to wake,
    /// in the order the device finished them.
    pub fn intr(&mut self) -> (woken: Vec<usize>)
        requires
            forall|k: int| 0 <= k < NUM ==> (#[trigger] old(self).used_ring@[k]).id < NUM,
            forall|k: int|
                0 <= k < NUM ==> old(self).info@[old(self).used_ring@[k].id as int].status == 0
                    && old(self).info@[old(self).used_ring@[k].id as int].buf_chan is Some,
            old(self).used_device_idx as u32 >= old(self).used_idx,
        ensures
            final(self).used_idx == old(self).used_device_idx as u32,
            woken@.len() == old(self).used_device_idx - old(self).used_idx,
            forall|k: int|
                0 <= k < woken@.len() ==> #[trigger] woken@[k] == old(self).info@[old(
                    self,
                ).used_ring@[((old(self).used_idx + k) % (NUM as int))].id as int].buf_chan.unwrap(),
            final(self).used_ring@ == old(self).used_ring@,
    {
        let mut woken: Vec<usize> = Vec::new();
        while self.used_idx != self.used_device_idx as u32
            invariant
                forall|k: int| 0 <= k < NUM ==> (#[trigger] self.used_ring@[k]).id < NUM,
                self.used_ring@ == old(self).used_ring@,
                self.used_device_idx == old(self).used_device_idx,
                old(self).used_idx <= self.used_idx <= self.used_device_idx as u32,
                woken@.len() == self.used_idx - old(self).used_idx,
                forall|k: int|
                    0 <= k < NUM ==> self.info@[self.used_ring@[k].id as int].status == 0
                        && self.info@[self.used_ring@[k].id as int].buf_chan == old(self).info@[old(self).used_ring@[k].id as int].buf_chan,
                forall|k: int|
                    0 <= k < NUM ==> old(self).info@[old(self).used_ring@[k].id as int].buf_chan is Some,
                forall|k: int|
                    0 <= k < woken@.len() ==> #[trigger] woken@[k] == old(self).info@[old(
                        self,
                    ).used_ring@[((old(self).used_idx + k) % (NUM as int))].id as int].buf_chan.unwrap(),
            decreases self.used_device_idx as u32 - self.used_idx,
        {
            let slot = (self.used_idx % NUM) as usize;
            let id = self.used_ring[slot].id as usize;
            let info = self.info[id];
            let chan = match info.buf_chan {
                Some(c) => c,
                None => {
                    assert(false);
                    0
                },
            };
            woken.push(chan);
            self.info.set(id, Info { disk: false, ..info });
            self.used_idx = self.used_idx + 1;
        }
        woken
    }
}

/// The page frame number of the queue at physical address `addr`.
pub fn queue_pfn(addr: usize) -> (r: u32)
    requires
        addr / 4096 <= u32::MAX,
    ensures
        r == addr / 4096,
{
    let pfn = addr >> 12;
    assert(addr >> 12usize == addr / 4096) by (bit_vector);
    pfn as u32
}

} // verus!
