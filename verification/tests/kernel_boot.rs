use lib::kernel::elf::{place_args, strlen, ELFHeader, ProgHeader, MAGIC};
use lib::kernel::kvm;
use lib::kernel::page_table::PageTable;
use lib::kernel::virtio::{check_queue, is_virtio_disk, negotiate_features, queue_pfn, status_steps, Disk, Info, UsedElem};

#[test]
fn kernel_address_space_builds() {
    let mut pt = PageTable::empty(0x8700_0000, 64);
    kvm::init(&mut pt, 0x8000_8000, 0x8000_7000);
}

#[test]
fn elf_header_needs_magic() {
    let mut b = vec![0u8; 64];
    b[0..4].copy_from_slice(&MAGIC.to_le_bytes());
    b[24..32].copy_from_slice(&0x1000u64.to_le_bytes());
    b[32..40].copy_from_slice(&64u64.to_le_bytes());
    b[56..58].copy_from_slice(&2u16.to_le_bytes());
    let h = ELFHeader::from_bytes(&b).ok().unwrap();
    assert_eq!(h.entry, 0x1000);
    assert_eq!(h.phoff, 64);
    assert_eq!(h.phnum, 2);
    b[0] = 0;
    assert_eq!(ELFHeader::from_bytes(&b).err(), Some("elf magic invalid"));
}

#[test]
fn program_header_fields() {
    let mut b = vec![0u8; 56];
    b[0..4].copy_from_slice(&1u32.to_le_bytes());
    b[16..24].copy_from_slice(&0xdead_beef_0000u64.to_le_bytes());
    b[40..48].copy_from_slice(&0x2000u64.to_le_bytes());
    let p = ProgHeader::from_bytes(&b);
    assert_eq!(p.typed, 1);
    assert_eq!(p.vaddr, 0xdead_beef_0000);
    assert_eq!(p.memsz, 0x2000);
}

#[test]
fn arguments_go_down_the_stack() {
    assert_eq!(strlen(b"init\0rest"), 4);
    let args = vec![b"init\0".to_vec(), b"hello\0".to_vec()];
    // 0x3000 - 5 = 0x2ffb, down to 0x2ff0; then - 6 = 0x2fea, down to 0x2fe0
    assert_eq!(place_args(0x3000, &args).ok(), Some(vec![0x2ff0, 0x2fe0]));
}

#[test]
fn arguments_that_do_not_fit_are_refused() {
    let long = {
        let mut v = vec![b'a'; 63];
        v.push(0);
        v
    };
    let args: Vec<Vec<u8>> = (0..70).map(|_| long.clone()).collect();
    assert_eq!(place_args(0x3000, &args).err(), Some("pushing arguments causes stack over flow"));
}

#[test]
fn virtio_setup_values() {
    assert!(is_virtio_disk(0x74726976, 1, 2, 0x554d4551));
    assert!(!is_virtio_disk(0x74726976, 2, 2, 0x554d4551));
    assert_eq!(negotiate_features(0xffff_ffff), !0x3800_18a0u32);
    assert_eq!(status_steps(), [1, 3, 11, 15]);
    assert_eq!(check_queue(0), Err("virtio disk has no queue 0"));
    assert_eq!(check_queue(4), Err("virtio disk max queue too short"));
    assert_eq!(check_queue(8), Ok(()));
    assert_eq!(queue_pfn(0x8000_5000), 0x80005);
}

#[test]
fn virtio_interrupt_wakes_finished_requests() {
    let mut d = Disk::new();
    d.free_all();
    assert!(d.free.iter().all(|&f| f));
    for i in 0..8 {
        d.info[i] = Info { buf_chan: Some(100 + i), disk: true, status: 0 };
    }
    d.used_ring[0] = UsedElem { id: 3, len: 0 };
    d.used_ring[1] = UsedElem { id: 5, len: 0 };
    d.used_device_idx = 2;
    assert_eq!(d.intr(), vec![103, 105]);
    assert_eq!(d.used_idx, 2);
    assert!(!d.info[3].disk);
    assert!(d.info[4].disk);
}
