//! Open files: a counted handle on an inode, with the modes it was opened
//! in and an offset.
use vstd::prelude::*;

use super::fs::{
    any_free, any_holding, ilock_view, iput_view, namex_begin, next_elem, reads_dir, reads_typed,
    terminated_from, two_free, walk, DirEnt, DiskINode, INode, INodeTable, INodeType, TableView,
    ROOTINO,
};
use super::param::{BSIZE, MAXOPBLOCKS, ROOTDEV};

verus! {

/// Open for reading only.
pub const O_RDONLY: i32 = 0x000;

/// Open for writing only.
pub const O_WRONLY: i32 = 0x001;

/// Open for reading and writing.
pub const O_RDWR: i32 = 0x002;

/// Create the file if it does not exist.
pub const O_CREATE: i32 = 0x200;

/// Empty the file.
pub const O_TRUNC: i32 = 0x400;

/// Bytes a write puts in one log transaction at most: room for the inode,
/// an indirect block, allocation blocks and two blocks of slop for writes
/// that are not aligned.
pub const MAX_WRITE: usize = ((MAXOPBLOCKS - 1 - 1 - 2) / 2) * BSIZE;

/// The length of the piece that starts at byte `i` of `n`.
pub open spec fn piece(i: usize, n: usize) -> usize {
    if MAX_WRITE < n - i {
        MAX_WRITE
    } else {
        (n - i) as usize
    }
}

/// Writing the bytes `i` to `n` of the source from file offset `off`, in
/// pieces of at most `MAX_WRITE` bytes, each written by `writei` (given the
/// file offset, the position in the source and the length; `true` where it
/// wrote): `ok` where every piece was written, and the offset after the
/// pieces written, `fin`. The first piece not written ends the run.
pub open spec fn writes<W: Fn(usize, usize, usize) -> bool>(writei: &W, off: usize, i: usize, n: usize, ok: bool, fin: usize) -> bool
    decreases n - i,
{
    if i >= n {
        ok && fin == off
    } else {
        exists|b: bool|
            #[trigger] writei.ensures((off, i, piece(i, n)), b) && if b {
                writes(writei, (off + piece(i, n)) as usize, (i + piece(i, n)) as usize, n, ok, fin)
            } else {
                !ok && fin == off
            }
    }
}

/// An open file.
pub struct File {
    pub readable: bool,
    pub writable: bool,
    pub inode: INode,
    pub offset: usize,
}

/// A file opened in `o_mode` may be read.
pub open spec fn mode_readable(o_mode: i32) -> bool {
    o_mode & O_WRONLY == 0
}

/// A file opened in `o_mode` may be written.
pub open spec fn mode_writable(o_mode: i32) -> bool {
    (o_mode & O_WRONLY > 0) || (o_mode & O_RDWR > 0)
}

impl File {
    /// Opens the inode that the path led to, of type `typed`, in `o_mode`,
    /// at offset 0. A directory opens for reading only: any other mode is
    /// refused.
    pub fn open(inode: INode, typed: INodeType, o_mode: i32) -> (r: Option<File>)
        requires
            typed == INodeType::Directory || typed == INodeType::File,
        ensures
            r is None <==> (typed == INodeType::Directory && o_mode != O_RDONLY),
            r matches Some(f) ==> {
                &&& f.readable == mode_readable(o_mode)
                &&& f.writable == mode_writable(o_mode)
                &&& f.offset == 0
                &&& f.inode.names() == inode.names()
                &&& f.inode.slot() == inode.slot()
            },
    {
        let readable = o_mode & O_WRONLY == 0;
        let writable = (o_mode & O_WRONLY > 0) || (o_mode & O_RDWR > 0);
        match typed {
            INodeType::Directory => {
                if o_mode != O_RDONLY {
                    return None;
                }
            },
            _ => {},
        }
        Some(File { readable, writable, inode, offset: 0 })
    }

    /// Writes `n` bytes at the file's offset, in pieces of at most
    /// `MAX_WRITE` bytes, each by `writei` (see `writes`), and moves the
    /// offset past what was written. A file not open for writing is refused.
    pub fn fwrite<W: Fn(usize, usize, usize) -> bool>(&mut self, n: usize, writei: &W) -> (r: Result<usize, &'static str>)
        requires
            old(self).offset + n <= usize::MAX,
            forall|off: usize, i: usize, len: usize| #[trigger] writei.requires((off, i, len)),
        ensures
            final(self).readable == old(self).readable,
            final(self).writable == old(self).writable,
            final(self).inode == old(self).inode,
            !old(self).writable ==> r == Err::<usize, &'static str>("fwrite: not writable") && final(self).offset
                == old(self).offset,
            old(self).writable ==> exists|ok: bool, fin: usize|
                #[trigger] writes(writei, old(self).offset, 0, n, ok, fin) && final(self).offset == fin && (ok
                    ==> r == Ok::<usize, &'static str>(n)) && (!ok ==> r == Err::<usize, &'static str>(
                    "fwrite: inode type",
                )),
    {
        if !self.writable {
            return Err("fwrite: not writable");
        }
        let start = self.offset;
        let mut i: usize = 0;
        while i < n
            invariant
                i <= n,
                self.offset == start + i,
                start == old(self).offset,
                old(self).writable,
                start + n <= usize::MAX,
                self.readable == old(self).readable,
                self.writable == old(self).writable,
                self.inode == old(self).inode,
                forall|off: usize, j: usize, len: usize| #[trigger] writei.requires((off, j, len)),
                forall|ok: bool, fin: usize|
                    #[trigger] writes(writei, self.offset, i, n, ok, fin) ==> writes(writei, start, 0, n, ok, fin),
            decreases n - i,
        {
            let write_n = if MAX_WRITE < n - i { MAX_WRITE } else { n - i };
            let off = self.offset;
            assert(write_n == piece(i, n));
            let b = writei(off, i, write_n);
            if !b {
                assert(writei.ensures((off, i, write_n), false));
                assert(writes(writei, off, i, n, false, off));
                assert(writes(writei, start, 0, n, false, off));
                return Err("fwrite: inode type");
            }
            proof {
                assert(writei.ensures((off, i, write_n), true));
                assert forall|ok: bool, fin: usize|
                    #[trigger] writes(writei, (off + write_n) as usize, (i + write_n) as usize, n, ok, fin)
                    implies writes(writei, start, 0, n, ok, fin) by {
                    assert(writes(writei, off, i, n, ok, fin));
                }
            }
            self.offset = off + write_n;
            i = i + write_n;
        }
        assert(writes(writei, self.offset, i, n, true, self.offset));
        assert(writes(writei, start, 0, n, true, self.offset));
        Ok(n)
    }
}

/// What opening the outcome `rn` of a walk that left table `tn` gives, with
/// the table after it: nothing where the walk found nothing; otherwise see
/// `opened_at`.
pub open spec fn opened<F: Fn(u32, u32) -> DiskINode>(
    read: &F,
    tn: TableView,
    rn: Option<(int, (u32, u32))>,
    o_mode: i32,
    tf: TableView,
    r: Option<File>,
) -> bool {
    match rn {
        None => r is None && tf == tn,
        Some((slot, names)) => opened_at(read, tn, slot, names, o_mode, tf, r),
    }
}

/// Opening the inode `names` held in `slot` of table `tn`: it is locked, and
/// a directory opened other than for reading only is refused and its
/// reference dropped; anything else is opened as `File::open` does.
pub open spec fn opened_at<F: Fn(u32, u32) -> DiskINode>(
    read: &F,
    tn: TableView,
    slot: int,
    names: (u32, u32),
    o_mode: i32,
    tf: TableView,
    r: Option<File>,
) -> bool {
    exists|t2: TableView|
        #[trigger] ilock_view(read, tn, slot, names, t2) && {
            let typed = t2.datas[slot].1.typed;
            if typed == INodeType::Directory && o_mode != O_RDONLY {
                r is None && tf == iput_view(t2, slot)
            } else {
                &&& r matches Some(f) && {
                    &&& f.readable == mode_readable(o_mode)
                    &&& f.writable == mode_writable(o_mode)
                    &&& f.offset == 0
                    &&& f.inode.slot() == slot
                    &&& f.inode.names() == names
                }
                &&& tf == t2
            }
        }
}

/// What opening `path` from the table `t0`, with the working directory in
/// slot `cwd`, gives: some outcome of the walk (see `walk`), opened as
/// `opened` says, with the table `tf` after it.
pub open spec fn open_path_outcome<F: Fn(u32, u32) -> DiskINode, G: Fn(u32, u32, u32) -> Vec<DirEnt>>(
    read: &F,
    read_dir: &G,
    t0: TableView,
    path: Seq<u8>,
    cwd: int,
    o_mode: i32,
    tf: TableView,
    r: Option<File>,
) -> bool {
    exists|tn: TableView, rn: Option<(int, (u32, u32))>|
        #[trigger] walk(read, read_dir, path, 0, false, namex_begin(t0, path, cwd).0, namex_begin(t0, path, cwd).1, tn, rn)
            && opened(read, tn, rn, o_mode, tf, r)
}

/// Opening `path` never meets an inode that is not a file or a directory
/// where the walk ends.
pub open spec fn opens_typed<F: Fn(u32, u32) -> DiskINode, G: Fn(u32, u32, u32) -> Vec<DirEnt>>(
    read: &F,
    read_dir: &G,
    t0: TableView,
    path: Seq<u8>,
    cwd: int,
) -> bool {
    forall|tn: TableView, slot: int, names: (u32, u32), t2: TableView|
        #![trigger walk(read, read_dir, path, 0, false, namex_begin(t0, path, cwd).0, namex_begin(t0, path, cwd).1, tn, Some((slot, names))), ilock_view(read, tn, slot, names, t2)]
        walk(read, read_dir, path, 0, false, namex_begin(t0, path, cwd).0, namex_begin(t0, path, cwd).1, tn, Some((slot, names)))
            && ilock_view(read, tn, slot, names, t2) ==> (t2.datas[slot].1.typed == INodeType::Directory
            || t2.datas[slot].1.typed == INodeType::File)
}

/// Opens the file `path` leads to (see `INodeTable::namei`) in `o_mode`:
/// nothing where the path leads nowhere; otherwise the inode, locked, is
/// opened as `File::open` does, and a refused directory's reference is
/// dropped.
pub fn open_path<F: Fn(u32, u32) -> DiskINode, G: Fn(u32, u32, u32) -> Vec<DirEnt>>(
    table: &mut INodeTable,
    path: &[u8],
    o_mode: i32,
    cwd: &INode,
    read: &F,
    read_dir: &G,
) -> (r: Option<File>)
    requires
        old(table).wf(),
        terminated_from(path@, 0),
        reads_typed(read),
        reads_dir(read_dir),
        cwd.slot() < old(table).slots().len(),
        any_holding(old(table).slots(), ROOTDEV, ROOTINO) || any_free(old(table).slots()),
        next_elem(path@, 0) is Some ==> two_free(old(table).slots()),
        forall|i: int|
            0 <= i < old(table).slots().len() ==> #[trigger] old(table).slots()[i].refcnt < usize::MAX - 1,
        o_mode & O_CREATE == 0,
        opens_typed(read, read_dir, old(table).tview(), path@, cwd.slot()),
    ensures
        final(table).wf(),
        final(table).slots().len() == old(table).slots().len(),
        open_path_outcome(read, read_dir, old(table).tview(), path@, cwd.slot(), o_mode, final(table).tview(), r),
        r matches Some(f) ==> 0 <= f.inode.slot() < old(table).slots().len() && final(table).slots()[f.inode.slot()].refcnt >= 1,
{
    let ip = match table.namei(path, cwd, read, read_dir) {
        Some(ip) => ip,
        None => {
            return None;
        },
    };
    let ghost tn = table.tview();
    let ghost slot = ip.slot();
    let ghost names = ip.names();
    proof {
        table.lemma_tview();
    }
    table.ilock(&ip, read);
    let ghost t2 = table.tview();
    let typed = table.itype(&ip);
    let ghost begin = namex_begin(old(table).tview(), path@, cwd.slot());
    proof {
        assert(ilock_view(read, tn, slot, names, t2));
        assert(walk(read, read_dir, path@, 0, false, begin.0, begin.1, tn, Some((slot, names))));
    }
    if typed == INodeType::Directory && o_mode != O_RDONLY {
        let i = ip.index();
        table.iput(i);
        assert(typed == t2.datas[slot].1.typed);
        assert(table.tview() == iput_view(t2, slot));
        assert(opened_at(read, tn, slot, names, o_mode, table.tview(), None));
        return None;
    }
    let f = File::open(ip, typed, o_mode);
    assert(opened_at(read, tn, slot, names, o_mode, table.tview(), f));
    f
}

} // verus!
