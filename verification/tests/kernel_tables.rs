use lib::kernel::bio::BCache;
use lib::kernel::bmap::{alloc_in_block, balloc_start, balloc_step, bitmap_block, free, AllocStep};
use lib::kernel::file::{open_path, O_RDONLY, O_RDWR, O_WRONLY};
use lib::kernel::fs::{DirEnt, DiskINode, INodeData, INodeTable, INodeType, NINODE};
use lib::kernel::log::{Log, LogHeader};
use lib::kernel::page_table::{MapError, PageTable, PageTableEntry, PteFlag};
use lib::kernel::superblock::{inode_offset, SuperBlock, FSMAGIC};

#[test]
fn page_table_maps_a_range() {
    let mut pt = PageTable::empty(0x8000_0000, 8);
    let rw = PteFlag::read().union(PteFlag::write());
    assert_eq!(pt.map_pages(0x1000, 0x8020_0000, 0x2000, rw), Ok(()));
    // the same page again is refused
    assert_eq!(pt.map_pages(0x1fff, 0x8030_0000, 1, rw), Err(MapError::Remap));
    assert_eq!(MapError::Remap.message(), "map_pages: remap");
}

#[test]
fn page_table_runs_out_of_tables() {
    // the root only: the first walk needs two more tables
    let mut pt = PageTable::empty(0x8000_0000, 1);
    let r = pt.map_pages(0, 0x8020_0000, 4096, PteFlag::read());
    assert_eq!(r, Err(MapError::OutOfMemory));
    // one table more is not enough either
    let mut pt = PageTable::empty(0x8000_0000, 2);
    assert_eq!(pt.map_pages(0, 0x8020_0000, 4096, PteFlag::read()), Err(MapError::OutOfMemory));
    // two are
    let mut pt = PageTable::empty(0x8000_0000, 3);
    assert_eq!(pt.map_pages(0, 0x8020_0000, 4096, PteFlag::read()), Ok(()));
}

#[test]
fn page_table_satp() {
    let pt = PageTable::empty(0x8765_4000, 1);
    assert_eq!(pt.as_satp(), (8u64 << 60) | 0x87654);
}

#[test]
fn page_table_entry_bits() {
    let mut e = PageTableEntry::new();
    assert!(!e.is_valid());
    e.set_addr(0x800, PteFlag::read());
    assert!(e.is_valid());
    assert!(e.is_leaf());
    let mut d = PageTableEntry::new();
    d.set_addr(0x400, PteFlag::valid());
    assert!(d.is_valid());
    assert!(!d.is_leaf());
    assert_eq!(d.as_page_addr(), 0x1000);
}

#[test]
fn user_page_table_needs_its_tables() {
    assert!(PageTable::alloc_user_page_table(0x8000_0000, 3, 0x8000_1000, 0x8000_2000).is_some());
    assert!(PageTable::alloc_user_page_table(0x8000_0000, 2, 0x8000_1000, 0x8000_2000).is_none());
}

#[test]
fn uvm_init_refuses_a_page_of_code() {
    let mut pt = PageTable::empty(0x8000_0000, 4);
    let big = vec![0u8; 4096];
    assert_eq!(pt.uvm_init(&big, 0x8010_0000), Err("uvm_init: more than a page"));
    assert_eq!(pt.uvm_init(&[1, 2, 3], 0x8010_0000), Ok(()));
    assert_eq!(pt.uvm_init(&[1, 2, 3], 0x8011_0000), Err("map_pages: remap"));
}

fn name_str(name: &[u8; 14]) -> Vec<u8> {
    name.iter().take_while(|&&b| b != 0).cloned().collect()
}

#[test]
fn skip_elem_examples() {
    let t = INodeTable::new();
    let mut name = [0u8; 14];
    assert_eq!(t.skip_elem(b"a/bb/c\0", 0, &mut name), 1);
    assert_eq!(name_str(&name), b"a".to_vec());
    let mut name = [0u8; 14];
    assert_eq!(t.skip_elem(b"///a//bb\0", 0, &mut name), 5);
    assert_eq!(name_str(&name), b"a".to_vec());
    let mut name = [0u8; 14];
    assert_eq!(t.skip_elem(b"a\0", 0, &mut name), 0);
    assert_eq!(name_str(&name), b"a".to_vec());
    let mut name = [7u8; 14];
    assert_eq!(t.skip_elem(b"\0", 0, &mut name), 0);
    assert_eq!(t.skip_elem(b"////\0", 0, &mut name), 0);
    assert_eq!(name, [7u8; 14]);
}

#[test]
fn skip_elem_walks_a_path_and_cuts_long_names() {
    let t = INodeTable::new();
    let path = b"/usr/averyveryverylongname\0";
    let mut name = [0u8; 14];
    let next = t.skip_elem(path, 0, &mut name);
    assert_eq!(name_str(&name), b"usr".to_vec());
    assert_eq!(next, 4);
    let last = t.skip_elem(path, next, &mut name);
    assert_eq!(last, 0);
    assert_eq!(name_str(&name), b"averyveryvery".to_vec());
}

#[test]
fn iget_finds_or_takes_a_slot() {
    let mut t = INodeTable::new();
    let a = t.iget(1, 5);
    assert_eq!(a.index(), 0);
    let b = t.iget(1, 6);
    assert_eq!(b.index(), 1);
    let c = t.iget(1, 5);
    assert_eq!(c.index(), 0);
    assert_eq!((c.dev(), c.inum()), (1, 5));
    let d = t.idup(&b);
    assert_eq!(d.index(), 1);
    assert_eq!(d.inum(), 6);
    t.iput(0);
    t.iput(0);
    // slot 0 has no reference now but still holds inode 5: it is found again
    let e = t.iget(1, 5);
    assert_eq!(e.index(), 0);
    assert!(NINODE == 50);
}

#[test]
fn superblock_from_bytes() {
    let mut block = vec![0u8; 1024];
    let fields: [u32; 8] = [FSMAGIC, 2000, 1954, 200, 30, 2, 32, 45];
    for (i, f) in fields.iter().enumerate() {
        block[4 * i..4 * i + 4].copy_from_slice(&f.to_le_bytes());
    }
    let sb = SuperBlock::from_bytes(&block).unwrap();
    assert_eq!(sb.size, 2000);
    assert_eq!(sb.logstart, 2);
    assert_eq!(sb.inodestart, 32);
    assert_eq!(sb.inode_block(1), 32);
    assert_eq!(sb.inode_block(33), 34);
    assert_eq!(inode_offset(33), 1);
    block[0] = 0;
    assert!(SuperBlock::from_bytes(&block).is_none());
}

#[test]
fn log_header_round_trip_and_replay() {
    let mut h = LogHeader::new();
    h.n = 2;
    h.blocks[0] = 70;
    h.blocks[1] = 71;
    let bytes = h.to_bytes();
    assert_eq!(bytes.len(), 124);
    assert_eq!(&bytes[0..4], &[2, 0, 0, 0]);
    let back = LogHeader::from_bytes(&bytes);
    assert_eq!(back.n, 2);
    assert_eq!(back.blocks[1], 71);

    let mut log = Log::new();
    let mut sb = SuperBlock::new();
    sb.logstart = 2;
    sb.nlog = 30;
    let (plan, head) = log.init(1, &sb, &bytes);
    assert_eq!(plan, vec![(3, 70), (4, 71)]);
    assert_eq!(&head[0..4], &[0, 0, 0, 0]);
    assert_eq!(log.header.n, 0);
    assert_eq!(log.start, 2);
    assert_eq!(log.dev, 1);
}

#[test]
fn bcache_links_in_order() {
    let mut c = BCache::new();
    c.init();
    let l = c.lru();
    assert_eq!(l.head, Some(0));
    assert_eq!(l.tail, Some(l.inner.len() - 1));
    let mut at = l.head;
    let mut seen = 0;
    while let Some(i) = at {
        assert_eq!(i, seen);
        seen += 1;
        at = l.inner[i].next;
    }
    assert_eq!(seen, l.inner.len());
    assert_eq!(l.inner[0].prev, None);
    assert_eq!(l.inner[5].prev, Some(4));
}

#[test]
fn bitmap_allocates_first_free_block() {
    let mut block = vec![0u8; 1024];
    block[0] = 0xff;
    block[1] = 0x0b;
    assert_eq!(alloc_in_block(&mut block, 0, 100), Some(10));
    assert_eq!(block[1], 0x0f);
    assert_eq!(alloc_in_block(&mut block, 0, 100), Some(12));
    let mut fresh = vec![0u8; 1024];
    fresh[0] = 0x01;
    assert_eq!(alloc_in_block(&mut fresh, 8192, 8200), Some(8193));
    let mut full = vec![0xffu8; 1024];
    assert_eq!(alloc_in_block(&mut full, 0, 8192), None);
    let mut block = vec![0xffu8; 1024];
    block[2] = 0;
    // block 16 is free but past the end of the disk
    assert_eq!(alloc_in_block(&mut block, 0, 16), None);
}

fn disk_inode(typed: INodeType) -> DiskINode {
    let mut d = DiskINode::new();
    d.typed = typed;
    d.nlink = 1;
    d
}

fn dirent(inum: u16, name: &str) -> DirEnt {
    let mut d = DirEnt::empty();
    d.inum = inum;
    d.name[..name.len()].copy_from_slice(name.as_bytes());
    d
}

fn padded(name: &str) -> [u8; 14] {
    let mut n = [0u8; 14];
    n[..name.len()].copy_from_slice(name.as_bytes());
    n
}

/// A small tree: the root (1) holds "usr" (2) and a free entry "x"; "usr"
/// holds "bin" (3), a file.
fn tree_entries(inum: u32) -> Vec<DirEnt> {
    match inum {
        1 => vec![dirent(1, "."), dirent(0, "x"), dirent(2, "usr")],
        2 => vec![dirent(2, "."), dirent(1, ".."), dirent(3, "bin")],
        _ => vec![],
    }
}

fn tree_inode(_dev: u32, inum: u32) -> DiskINode {
    let mut d = disk_inode(if inum == 3 { INodeType::File } else { INodeType::Directory });
    d.size = (tree_entries(inum).len() * 16) as u32;
    d
}

fn tree_dir(_dev: u32, inum: u32, _size: u32) -> Vec<DirEnt> {
    tree_entries(inum)
}

#[test]
fn namei_looks_up_each_element() {
    let mut t = INodeTable::new();
    let cwd = t.iget(1, 2);
    let root = t.namei(b"/\0", &cwd, &tree_inode, &tree_dir).unwrap();
    assert_eq!((root.dev(), root.inum()), (1, 1));
    let usr = t.namei(b"/usr\0", &cwd, &tree_inode, &tree_dir).unwrap();
    assert_eq!(usr.inum(), 2);
    let bin = t.namei(b"//usr//bin\0", &cwd, &tree_inode, &tree_dir).unwrap();
    assert_eq!(bin.inum(), 3);
    let here = t.namei(b"bin\0", &cwd, &tree_inode, &tree_dir).unwrap();
    assert_eq!(here.inum(), 3);
    let up = t.namei(b"../usr/../usr\0", &cwd, &tree_inode, &tree_dir).unwrap();
    assert_eq!(up.inum(), 2);
}

#[test]
fn namei_of_a_missing_name_finds_nothing() {
    let mut t = INodeTable::new();
    let cwd = t.iget(1, 2);
    // "x" is only in a free entry, "us" is no name of the root
    assert!(t.namei(b"/x\0", &cwd, &tree_inode, &tree_dir).is_none());
    assert!(t.namei(b"/us\0", &cwd, &tree_inode, &tree_dir).is_none());
    // "bin" is a file: nothing is looked up in it
    assert!(t.namei(b"/usr/bin/x\0", &cwd, &tree_inode, &tree_dir).is_none());
    // every reference taken on the way was dropped: slot 1, which held the
    // root, and slot 2, which held "bin", have none left
    assert_eq!(t.iget(1, 98).index(), 1);
    assert_eq!(t.iget(1, 99).index(), 2);
}

#[test]
fn namex_parent_stops_one_level_early() {
    let mut t = INodeTable::new();
    let cwd = t.iget(1, 7);
    let mut name = [0u8; 14];
    let p = t.namex(b"/usr/bin\0", &mut name, true, &cwd, &tree_inode, &tree_dir).unwrap();
    assert_eq!(p.inum(), 2);
    assert_eq!(name_str(&name), b"bin".to_vec());
    let mut name = [0u8; 14];
    let p = t.namex(b"/nothing\0", &mut name, true, &cwd, &tree_inode, &tree_dir).unwrap();
    assert_eq!(p.inum(), 1);
    assert_eq!(name_str(&name), b"nothing".to_vec());
    let mut name = [0u8; 14];
    assert!(t.namex(b"/x/y\0", &mut name, true, &cwd, &tree_inode, &tree_dir).is_none());
}

#[test]
fn dirlookup_takes_the_inode_of_the_first_matching_entry() {
    let mut t = INodeTable::new();
    let mut dinode = disk_inode(INodeType::Directory);
    dinode.size = 48;
    let dir = INodeData { valid: Some((1, 1)), dinode };
    let entries = tree_entries(1);
    let ip = dir.dirlookup(&padded("usr"), &entries, &mut t).unwrap();
    assert_eq!((ip.dev(), ip.inum(), ip.index()), (1, 2, 0));
    assert!(dir.dirlookup(&padded("x"), &entries, &mut t).is_none());
    assert!(dir.dirlookup(&padded("us"), &entries, &mut t).is_none());
    // only the entries within the size are looked at
    let mut small = dinode;
    small.size = 32;
    let short = INodeData { valid: Some((1, 1)), dinode: small };
    assert!(short.dirlookup(&padded("usr"), &entries, &mut t).is_none());
    // the name matches up to the entry's first 0; what follows it is not read
    let mut name = padded("usr");
    name[5] = b'q';
    assert_eq!(dir.dirlookup(&name, &entries, &mut t).unwrap().inum(), 2);
}

#[test]
fn ilock_reads_once() {
    let mut t = INodeTable::new();
    let ip = t.iget(1, 3);
    let read = |_dev: u32, _inum: u32| disk_inode(INodeType::File);
    t.ilock(&ip, &read);
    let read_dir = |_dev: u32, _inum: u32| disk_inode(INodeType::Directory);
    // already held: not read again, so it stays a file
    t.ilock(&ip, &read_dir);
    let cwd = t.iget(1, 3);
    let entries = |_dev: u32, _inum: u32, _size: u32| vec![dirent(4, "x")];
    assert!(t.namei(b"x/y\0", &cwd, &read_dir, &entries).is_none());
}

#[test]
fn free_clears_only_the_bit_of_the_block() {
    let mut block = vec![0xffu8; 1024];
    free(&mut block, 8192 + 10);
    assert_eq!(block[1], 0xfb);
    assert!(block.iter().enumerate().all(|(i, &b)| i == 1 || b == 0xff));
    // the block is handed out again
    assert_eq!(alloc_in_block(&mut block, 8192, 20000), Some(8192 + 10));
    // freeing a free block leaves it free
    let mut fresh = vec![0u8; 1024];
    free(&mut fresh, 3);
    assert!(fresh.iter().all(|&b| b == 0));
}

fn superblock(size: u32, bmapstart: u32) -> SuperBlock {
    let mut sb = SuperBlock::new();
    sb.size = size;
    sb.bmapstart = bmapstart;
    sb
}

#[test]
fn balloc_reads_the_bitmap_blocks_in_turn() {
    let sb = superblock(10000, 45);
    assert_eq!(bitmap_block(&sb, 9000), 46);
    assert_eq!(balloc_start(&sb), AllocStep::Read(0, 45));
    let mut full = vec![0xffu8; 1024];
    assert_eq!(balloc_step(&sb, 0, &mut full), AllocStep::Read(8192, 46));
    let mut second = vec![0xffu8; 1024];
    second[0] = 0xfe;
    assert_eq!(balloc_step(&sb, 8192, &mut second), AllocStep::Found(8192));
    assert_eq!(second[0], 0xff);
    let mut full = vec![0xffu8; 1024];
    assert_eq!(balloc_step(&sb, 8192, &mut full), AllocStep::OutOfBlocks);
    assert_eq!(balloc_start(&superblock(0, 45)), AllocStep::OutOfBlocks);
}

#[test]
fn open_path_looks_the_path_up_then_opens() {
    let mut t = INodeTable::new();
    let cwd = t.iget(1, 1);
    let f = open_path(&mut t, b"/usr/bin\0", O_RDWR, &cwd, &tree_inode, &tree_dir).unwrap();
    assert_eq!(f.inode.inum(), 3);
    assert!(f.readable && f.writable);
    assert_eq!(f.offset, 0);
    let w = open_path(&mut t, b"usr/bin\0", O_WRONLY, &cwd, &tree_inode, &tree_dir).unwrap();
    assert!(!w.readable && w.writable);
    let d = open_path(&mut t, b"/usr\0", O_RDONLY, &cwd, &tree_inode, &tree_dir).unwrap();
    assert_eq!(d.inode.inum(), 2);
    assert!(d.readable && !d.writable);
    // a path that leads nowhere, and a directory opened for writing
    assert!(open_path(&mut t, b"/x\0", O_RDONLY, &cwd, &tree_inode, &tree_dir).is_none());
    assert!(open_path(&mut t, b"/\0", O_RDWR, &cwd, &tree_inode, &tree_dir).is_none());
}
