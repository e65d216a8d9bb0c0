//! Program loading: the ELF headers, and where the arguments go on the new
//! user stack.
use vstd::prelude::*;

use super::layout::{get_u16, get_u32, get_u64, u16_at, u32_at, u64_at};
use super::param::PAGESIZE;

verus! {

/// "\x7fELF" read as a little-endian number.
pub const MAGIC: u32 = 0x464C457F;

/// Bytes of the file header.
pub const ELF_HEADER_SIZE: usize = 64;

/// Bytes of a program header.
pub const PROG_HEADER_SIZE: usize = 56;

/// Arguments a program gets at most.
pub const MAXARG: usize = 16;

/// Bytes of an argument at most, with its ending 0.
pub const MAXARGLEN: usize = 64;

/// The file header of an ELF program.
pub struct ELFHeader {
    pub magic: u32,
    pub elf: [u8; 12],
    pub typed: u16,
    pub machine: u16,
    pub version: u32,
    pub entry: u64,
    pub phoff: u64,
    pub shoff: u64,
    pub flags: u32,
    pub ehsize: u16,
    pub phentsize: u16,
    pub phnum: u16,
    pub shentsize: u16,
    pub shnum: u16,
    pub shstrndx: u16,
}

/// A program header: a segment to load.
pub struct ProgHeader {
    pub typed: u32,
    pub flags: u32,
    pub off: u64,
    pub vaddr: u64,
    pub paddr: u64,
    pub filesz: u64,
    pub memsz: u64,
    pub align: u64,
}

impl ELFHeader {
    /// The file header at the start of `b`, when it has the ELF magic.
    pub fn from_bytes(b: &[u8]) -> (r: Result<ELFHeader, &'static str>)
        requires
            b@.len() >= ELF_HEADER_SIZE,
        ensures
            r is Ok <==> u32_at(b@, 0) == MAGIC,
            r matches Ok(h) ==> {
                &&& h.magic == MAGIC
                &&& forall|i: int| 0 <= i < 12 ==> h.elf@[i] == b@[4 + i]
                &&& h.typed == u16_at(b@, 16)
                &&& h.machine == u16_at(b@, 18)
                &&& h.version == u32_at(b@, 20)
                &&& h.entry == u64_at(b@, 24)
                &&& h.phoff == u64_at(b@, 32)
                &&& h.shoff == u64_at(b@, 40)
                &&& h.flags == u32_at(b@, 48)
                &&& h.ehsize == u16_at(b@, 52)
                &&& h.phentsize == u16_at(b@, 54)
                &&& h.phnum == u16_at(b@, 56)
                &&& h.shentsize == u16_at(b@, 58)
                &&& h.shnum == u16_at(b@, 60)
                &&& h.shstrndx == u16_at(b@, 62)
            },
    {
        let magic = get_u32(b, 0);
        if magic != MAGIC {
            return Err("elf magic invalid");
        }
        let mut elf = [0u8; 12];
        let mut i: usize = 0;
        while i < 12
            invariant
                i <= 12,
                b@.len() >= ELF_HEADER_SIZE,
                forall|j: int| 0 <= j < i ==> elf@[j] == b@[4 + j],
            decreases 12 - i,
        {
            elf.set(i, b[4 + i]);
            i += 1;
        }
        Ok(
            ELFHeader {
                magic,
                elf,
                typed: get_u16(b, 16),
                machine: get_u16(b, 18),
                version: get_u32(b, 20),
                entry: get_u64(b, 24),
                phoff: get_u64(b, 32),
                shoff: get_u64(b, 40),
                flags: get_u32(b, 48),
                ehsize: get_u16(b, 52),
                phentsize: get_u16(b, 54),
                phnum: get_u16(b, 56),
                shentsize: get_u16(b, 58),
                shnum: get_u16(b, 60),
                shstrndx: get_u16(b, 62),
            },
        )
    }
}

impl ProgHeader {
    /// The program header at the start of `b`.
    pub fn from_bytes(b: &[u8]) -> (h: ProgHeader)
        requires
            b@.len() >= PROG_HEADER_SIZE,
        ensures
            h.typed == u32_at(b@, 0),
            h.flags == u32_at(b@, 4),
            h.off == u64_at(b@, 8),
            h.vaddr == u64_at(b@, 16),
            h.paddr == u64_at(b@, 24),
            h.filesz == u64_at(b@, 32),
            h.memsz == u64_at(b@, 40),
            h.align == u64_at(b@, 48),
    {
        ProgHeader {
            typed: get_u32(b, 0),
            flags: get_u32(b, 4),
            off: get_u64(b, 8),
            vaddr: get_u64(b, 16),
            paddr: get_u64(b, 24),
            filesz: get_u64(b, 32),
            memsz: get_u64(b, 40),
            align: get_u64(b, 48),
        }
    }
}

/// The first 0 of `s` is at `n`.
pub open spec fn first_zero(s: Seq<u8>, n: int) -> bool {
    &&& 0 <= n < s.len()
    &&& s[n] == 0
    &&& forall|j: int| 0 <= j < n ==> s[j] != 0
}

/// The length of the string that `s` holds, up to its first 0.
pub fn strlen(s: &[u8]) -> (n: usize)
    requires
        exists|k: int| 0 <= k < s@.len() && s@[k] == 0,
    ensures
        first_zero(s@, n as int),
{
    let mut i: usize = 0;
    while i < s.len()
        invariant
            i <= s@.len(),
            forall|j: int| 0 <= j < i ==> s@[j] != 0,
            exists|k: int| 0 <= k < s@.len() && s@[k] == 0,
        decreases s.len() - i,
    {
        if s[i] == 0 {
            return i;
        }
        i += 1;
    }
    i
}

/// Where the arguments of lengths `lens` go, from the top of the stack `sp`
/// down: each string with its 0, then down to a multiple of 16; `None` once
/// one would fall below `base`.
pub open spec fn arg_places(sp: int, base: int, lens: Seq<nat>) -> Option<Seq<int>>
    decreases lens.len(),
{
    if lens.len() == 0 {
        Some(Seq::empty())
    } else {
        let p = sp - (lens[0] + 1);
        let q = p - p % 16;
        if q < base {
            None
        } else {
            match arg_places(q, base, lens.drop_first()) {
                Some(rest) => Some(seq![q].add(rest)),
                None => None,
            }
        }
    }
}

/// The length of the string `s` holds: where its first 0 is.
pub open spec fn zlen(s: Seq<u8>) -> int {
    choose|n: int| first_zero(s, n)
}

proof fn lemma_zlen(s: Seq<u8>, n: int)
    requires
        first_zero(s, n),
    ensures
        zlen(s) == n,
{
    let m = zlen(s);
    assert(first_zero(s, m));
    if m < n {
        assert(s[m] != 0);
    } else if m > n {
        assert(s[n] != 0);
    }
}

/// One more argument goes below the last one placed.
proof fn lemma_places_push(sp: int, base: int, lens: Seq<nat>, l: nat)
    requires
        arg_places(sp, base, lens) is Some,
    ensures
        ({
            let ps = arg_places(sp, base, lens).unwrap();
            let last = if ps.len() == 0 { sp } else { ps.last() };
            let p = last - (l + 1);
            let q = p - p % 16;
            arg_places(sp, base, lens.push(l)) == if q < base {
                None::<Seq<int>>
            } else {
                Some(ps.push(q))
            }
        }),
        arg_places(sp, base, lens).unwrap().len() == lens.len(),
    decreases lens.len(),
{
    reveal_with_fuel(arg_places, 2);
    if lens.len() > 0 {
        let p0 = sp - (lens[0] + 1);
        let q0 = p0 - p0 % 16;
        assert(lens.push(l).drop_first() =~= lens.drop_first().push(l));
        assert(lens.push(l)[0] == lens[0]);
        lemma_places_push(q0, base, lens.drop_first(), l);
        let rest = arg_places(q0, base, lens.drop_first()).unwrap();
        let ps = seq![q0] + rest;
        assert(arg_places(sp, base, lens) == Some(ps));
        let last = if rest.len() == 0 { q0 } else { rest.last() };
        assert(last == ps.last());
        let p = last - (l + 1);
        let q = p - p % 16;
        if q >= base {
            assert(ps.push(q) =~= seq![q0] + rest.push(q));
        }
    } else {
        assert(lens.push(l).drop_first() =~= Seq::<nat>::empty());
        assert(lens.push(l)[0] == l);
        let p = sp - (l + 1);
        let q = p - p % 16;
        assert(Seq::<int>::empty().push(q) =~= seq![q].add(Seq::<int>::empty()));
    }
}

/// Once an argument does not fit, the arguments after it change nothing.
proof fn lemma_places_none(sp: int, base: int, a: Seq<nat>, b: Seq<nat>)
    requires
        arg_places(sp, base, a) is None,
    ensures
        arg_places(sp, base, a + b) is None,
    decreases a.len(),
{
    if a.len() > 0 {
        let p0 = sp - (a[0] + 1);
        let q0 = p0 - p0 % 16;
        assert((a + b).drop_first() =~= a.drop_first() + b);
        assert((a + b)[0] == a[0]);
        if q0 >= base {
            lemma_places_none(q0, base, a.drop_first(), b);
        }
    }
}

/// Placed arguments lie on 16-byte boundaries, each below the one before,
/// all from `base` up to below the top of the stack.
pub proof fn lemma_places_aligned(sp: int, base: int, lens: Seq<nat>)
    requires
        arg_places(sp, base, lens) is Some,
    ensures
        ({
            let ps = arg_places(sp, base, lens).unwrap();
            &&& ps.len() == lens.len()
            &&& forall|i: int| 0 <= i < ps.len() ==> #[trigger] ps[i] % 16 == 0 && base <= ps[i] < sp
            &&& forall|i: int, j: int| 0 <= i < j < ps.len() ==> ps[j] < ps[i]
        }),
    decreases lens.len(),
{
    if lens.len() > 0 {
        let p = sp - (lens[0] + 1);
        let q = p - p % 16;
        assert(q % 16 == 0) by (nonlinear_arith)
            requires q == p - p % 16;
        lemma_places_aligned(q, base, lens.drop_first());
        let rest = arg_places(q, base, lens.drop_first()).unwrap();
        let ps = seq![q] + rest;
        assert forall|i: int, j: int| 0 <= i < j < ps.len() implies ps[j] < ps[i] by {
            if i > 0 {
                assert(ps[i] == rest[i - 1] && ps[j] == rest[j - 1]);
            } else {
                assert(ps[j] == rest[j - 1]);
            }
        }
        assert forall|i: int| 0 <= i < ps.len() implies #[trigger] ps[i] % 16 == 0 && base <= ps[i] < sp by {
            if i > 0 {
                assert(ps[i] == rest[i - 1]);
            }
        }
    }
}

/// A 0 ends the argument within `MAXARGLEN` bytes.
pub open spec fn arg_fits(s: Seq<u8>) -> bool {
    exists|k: int| 0 <= k < s.len() && k < MAXARGLEN && s[k] == 0
}

/// Places the argument strings `args` on a user stack whose top is `size`
/// and which is one page deep: returns where each string starts. Fails when
/// they do not fit.
pub fn place_args(size: usize, args: &[Vec<u8>]) -> (r: Result<Vec<usize>, &'static str>)
    requires
        size >= 2 * PAGESIZE,
        forall|i: int| 0 <= i < args@.len() ==> arg_fits(#[trigger] args@[i]@),
    ensures
        match arg_places(size as int, size - PAGESIZE, Seq::new(args@.len(), |i: int| zlen(args@[i]@) as nat)) {
            Some(ps) => r matches Ok(v) && v@.map_values(|x: usize| x as int) == ps,
            None => r is Err,
        },
{
    let ghost all = Seq::new(args@.len(), |i: int| zlen(args@[i]@) as nat);
    let mut sp = size;
    let stackbase = sp - PAGESIZE;
    let mut ustack: Vec<usize> = Vec::new();
    let mut i: usize = 0;
    while i < args.len()
        invariant
            i <= args@.len(),
            all == Seq::new(args@.len(), |i: int| zlen(args@[i]@) as nat),
            stackbase == size - PAGESIZE,
            stackbase >= PAGESIZE,
            stackbase <= sp <= size,
            forall|j: int| 0 <= j < args@.len() ==> arg_fits(#[trigger] args@[j]@),
            arg_places(size as int, stackbase as int, all.subrange(0, i as int)) == Some(ustack@.map_values(|x: usize| x as int)),
            ustack@.len() == i,
            sp == if i == 0 { size } else { ustack@[i - 1] },
        decreases args.len() - i,
    {
        let n = strlen(args[i].as_slice());
        proof {
            lemma_zlen(args@[i as int]@, n as int);
            assert(arg_fits(args@[i as int]@));
            let k = choose|k: int| 0 <= k < args@[i as int]@.len() && k < MAXARGLEN && args@[i as int]@[k] == 0;
            assert(n <= k);
            assert(all.subrange(0, i + 1) =~= all.subrange(0, i as int).push(all[i as int]));
            lemma_places_push(size as int, stackbase as int, all.subrange(0, i as int), all[i as int]);
        }
        sp = sp - (n + 1);
        sp = sp - sp % 16;
        if sp < stackbase {
            proof {
                assert(all =~= all.subrange(0, i + 1) + all.subrange(i + 1, all.len() as int));
                lemma_places_none(size as int, stackbase as int, all.subrange(0, i + 1), all.subrange(i + 1, all.len() as int));
            }
            return Err("pushing arguments causes stack over flow");
        }
        let ghost before = ustack@;
        ustack.push(sp);
        proof {
            assert(ustack@.map_values(|x: usize| x as int) =~= before.map_values(|x: usize| x as int).push(sp as int));
        }
        i += 1;
    }
    proof {
        assert(all.subrange(0, i as int) =~= all);
    }
    Ok(ustack)
}

/// The size of the address space after growing it to hold `end`: it only
/// grows.
pub open spec fn grown(size: int, end: int) -> int {
    if end > size {
        end
    } else {
        size
    }
}

/// Loading the segments of `image` whose program headers sit from `phoff`
/// on, from number `k` to `phnum`, into an address space of `size` bytes:
/// the size once each has grown it to its end (`vaddr + memsz`), or why it
/// stopped: a header, or the bytes of a segment (`filesz` from `off`), not
/// all in the image.
pub open spec fn segments_end(image: Seq<u8>, phoff: int, phnum: int, k: int, size: int) -> Result<int, &'static str>
    decreases phnum - k,
{
    if k >= phnum {
        Ok(size)
    } else {
        let at = phoff + k * PROG_HEADER_SIZE;
        if at + PROG_HEADER_SIZE > image.len() {
            Err("cannot read the program section")
        } else {
            let size2 = grown(size, u64_at(image, at + 16) + u64_at(image, at + 40));
            if u64_at(image, at + 8) + u64_at(image, at + 32) > image.len() {
                Err("load_segment: cannot read the program segment")
            } else {
                segments_end(image, phoff, phnum, k + 1, size2)
            }
        }
    }
}

/// Segment ends within the machine's addresses: every header in the image,
/// from number `k` on, has `vaddr + memsz` below `usize::MAX`.
pub open spec fn ends_fit(image: Seq<u8>, phoff: int, phnum: int) -> bool {
    forall|k: int|
        0 <= k < phnum && phoff + k * PROG_HEADER_SIZE + PROG_HEADER_SIZE <= image.len() ==> #[trigger] u64_at(
            image,
            phoff + k * PROG_HEADER_SIZE + 16,
        ) + u64_at(image, phoff + k * PROG_HEADER_SIZE + 40) <= usize::MAX
}

/// Lays a program out: the file header of `image` (its magic checked), then
/// each segment its program headers name grows the address space to hold
/// it, and two pages more go on top, the upper one the stack, where the
/// argument strings go (see `place_args`). Gives the size of the address
/// space and where each argument starts.
pub fn load_layout(image: &[u8], args: &[Vec<u8>]) -> (r: Result<(usize, Vec<usize>), &'static str>)
    requires
        forall|i: int| 0 <= i < args@.len() ==> arg_fits(#[trigger] args@[i]@),
        image@.len() >= ELF_HEADER_SIZE && u32_at(image@, 0) == MAGIC ==> {
            let phoff = u64_at(image@, 32) as int;
            let phnum = u16_at(image@, 56) as int;
            &&& phoff + phnum * PROG_HEADER_SIZE <= usize::MAX
            &&& ends_fit(image@, phoff, phnum)
            &&& segments_end(image@, phoff, phnum, 0, 0) matches Ok(sz) ==> sz + 2 * PAGESIZE <= usize::MAX
        },
    ensures
        image@.len() < ELF_HEADER_SIZE ==> r == Err::<(usize, Vec<usize>), &'static str>("cannot read the elf file"),
        image@.len() >= ELF_HEADER_SIZE && u32_at(image@, 0) != MAGIC ==> r == Err::<(usize, Vec<usize>), &'static str>(
            "elf magic invalid",
        ),
        image@.len() >= ELF_HEADER_SIZE && u32_at(image@, 0) == MAGIC ==> match segments_end(
            image@,
            u64_at(image@, 32) as int,
            u16_at(image@, 56) as int,
            0,
            0,
        ) {
            Err(e) => r == Err::<(usize, Vec<usize>), &'static str>(e),
            Ok(sz) => {
                let size = sz + 2 * PAGESIZE;
                match arg_places(size, size - PAGESIZE, Seq::new(args@.len(), |i: int| zlen(args@[i]@) as nat)) {
                    Some(ps) => r matches Ok((s, v)) && s == size && v@.map_values(|x: usize| x as int) == ps,
                    None => r is Err,
                }
            },
        },
{
    if image.len() < ELF_HEADER_SIZE {
        return Err("cannot read the elf file");
    }
    let hdr = match ELFHeader::from_bytes(image) {
        Ok(h) => h,
        Err(_) => {
            return Err("elf magic invalid");
        },
    };
    let phoff = hdr.phoff as usize;
    let phnum = hdr.phnum as usize;
    let ghost img = image@;
    let mut size: usize = 0;
    let mut k: usize = 0;
    while k < phnum
        invariant
            img == image@,
            img.len() >= ELF_HEADER_SIZE,
            u32_at(img, 0) == MAGIC,
            phoff == u64_at(img, 32),
            phnum == u16_at(img, 56),
            phoff + phnum * PROG_HEADER_SIZE <= usize::MAX,
            ends_fit(img, phoff as int, phnum as int),
            k <= phnum,
            segments_end(img, phoff as int, phnum as int, k as int, size as int) == segments_end(
                img,
                phoff as int,
                phnum as int,
                0,
                0,
            ),
        decreases phnum - k,
    {
        proof {
            assert(phoff + k * PROG_HEADER_SIZE + PROG_HEADER_SIZE <= phoff + phnum * PROG_HEADER_SIZE) by (nonlinear_arith)
                requires
                    k < phnum,
            ;
        }
        let at = phoff + k * PROG_HEADER_SIZE;
        if at + PROG_HEADER_SIZE > image.len() {
            return Err("cannot read the program section");
        }
        let vaddr = get_u64(image, at + 16);
        let memsz = get_u64(image, at + 40);
        let off = get_u64(image, at + 8);
        let filesz = get_u64(image, at + 32);
        proof {
            assert(vaddr + memsz <= usize::MAX);
        }
        let end = (vaddr + memsz) as usize;
        if end > size {
            size = end;
        }
        if filesz > image.len() as u64 || off > image.len() as u64 - filesz {
            return Err("load_segment: cannot read the program segment");
        }
        k += 1;
    }
    let top = size + 2 * PAGESIZE;
    match place_args(top, args) {
        Ok(v) => Ok((top, v)),
        Err(e) => Err(e),
    }
}

} // verus!
