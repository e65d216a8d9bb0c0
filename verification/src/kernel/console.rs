//! The console's input ring: what an interrupt does with a typed byte.
use vstd::prelude::*;

verus! {

/// Bytes the input ring holds.
pub const INPUT_BUF: usize = 128;

/// Backspace.
pub const CTRL_BS: u8 = 0x08;

/// Line feed.
pub const CTRL_LF: u8 = 0x0A;

/// Carriage return.
pub const CTRL_CR: u8 = 0x0D;

/// The input ring: bytes typed so far, and three counters that only grow
/// (with wrap-around): read up to `r`, handed to readers up to `w`, edited up
/// to `e`.
pub struct Console {
    pub buf: [u8; 128],
    pub r: usize,
    pub w: usize,
    pub e: usize,
}

/// Bytes typed and not yet read.
pub open spec fn pending(c: &Console) -> usize {
    c.e.wrapping_sub(c.r)
}

impl Console {
    /// An empty ring.
    pub fn new() -> (c: Console)
        ensures
            c.r == 0 && c.w == 0 && c.e == 0,
            forall|i: int| 0 <= i < INPUT_BUF ==> c.buf@[i] == 0,
    {
        Console { buf: [0u8; 128], r: 0, w: 0, e: 0 }
    }

    /// Takes the byte `c` typed at the console. A nonzero byte is stored when
    /// the ring has room, a carriage return as a line feed; the stored byte
    /// is returned to be echoed, with whether readers are to be woken: at the
    /// end of a line or when the ring is full, what was typed is handed to
    /// them.
    pub fn intr(&mut self, c: u8) -> (r: (Option<u8>, bool))
        ensures
            old(self).r == final(self).r,
            pending(old(self)) <= INPUT_BUF ==> pending(final(self)) <= INPUT_BUF,
            if c != 0 && pending(old(self)) < INPUT_BUF {
                let ch = if c == CTRL_CR {
                    CTRL_LF
                } else {
                    c
                };
                let e = old(self).e.wrapping_add(1);
                &&& r.0 == Some(ch)
                &&& r.1 == (ch == CTRL_LF || e == old(self).r.wrapping_add(INPUT_BUF))
                &&& final(self).e == e
                &&& final(self).buf@ == old(self).buf@.update((e % INPUT_BUF) as int, ch)
                &&& final(self).w == if r.1 {
                    e
                } else {
                    old(self).w
                }
            } else {
                &&& r == (None::<u8>, false)
                &&& final(self).e == old(self).e
                &&& final(self).w == old(self).w
                &&& final(self).buf@ == old(self).buf@
            },
    {
        if c != 0 && self.e.wrapping_sub(self.r) < INPUT_BUF {
            let ch = if c == CTRL_CR {
                CTRL_LF
            } else {
                c
            };
            self.e = self.e.wrapping_add(1);
            let i = self.e % INPUT_BUF;
            self.buf.set(i, ch);
            let wake = ch == CTRL_LF || self.e == self.r.wrapping_add(INPUT_BUF);
            if wake {
                self.w = self.e;
            }
            (Some(ch), wake)
        } else {
            (None, false)
        }
    }
}

} // verus!
