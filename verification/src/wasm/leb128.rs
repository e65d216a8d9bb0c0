//! Integers as the binary format writes them, and counted lists.
use vstd::prelude::*;

use super::{read_bytes, read_u8, DecodeResult, Decoder, Error, Parse, Read};

verus! {

/// The bits of an unsigned LEB128 number, read from byte `i` on, where `acc`
/// holds the bits of the bytes before it; the bits of the fifth byte that do
/// not fit in 32 bits are dropped, and a sixth byte is refused.
pub open spec fn parse_uleb32(s: Seq<u8>, i: nat, acc: u32) -> Result<(u32, nat), Error>
    decreases 5 - i,
{
    if i >= s.len() {
        Err(Error::UnexpectedEOF)
    } else if i >= 5 {
        Err(Error::InvalidUint32)
    } else {
        let b = s[i as int];
        let acc2 = acc | (((b & 0x7f) as u32) << ((7 * i) as u32));
        if b & 0x80 == 0 {
            Ok((acc2, i + 1))
        } else {
            parse_uleb32(s, i + 1, acc2)
        }
    }
}

/// The bits of a signed LEB128 number read from byte `i` on, as `parse_uleb32`,
/// sign-extended from the last byte's bit 6; `None` where the sign bit sits in
/// the fifth byte, where the extension would shift past 32 bits.
pub open spec fn parse_sleb32(s: Seq<u8>, i: nat, acc: u32) -> Option<Result<(u32, nat), Error>>
    decreases 5 - i,
{
    if i >= s.len() {
        Some(Err(Error::UnexpectedEOF))
    } else if i >= 5 {
        Some(Err(Error::InvalidInt32))
    } else {
        let b = s[i as int];
        let acc2 = acc | (((b & 0x7f) as u32) << ((7 * i) as u32));
        if b & 0x80 == 0 {
            if b & 0x40 == 0x40 {
                if i >= 4 {
                    None
                } else {
                    Some(Ok((acc2 | (0xffff_ffffu32 << ((7 * (i + 1)) as u32)), i + 1)))
                }
            } else {
                Some(Ok((acc2, i + 1)))
            }
        } else {
            parse_sleb32(s, i + 1, acc2)
        }
    }
}

/// An unsigned LEB128 number takes between one and five bytes.
pub proof fn lemma_uleb32_consumes(s: Seq<u8>, i: nat, acc: u32)
    ensures
        parse_uleb32(s, i, acc) matches Ok((_, n)) ==> i < n <= s.len(),
    decreases 5 - i,
{
    if i < s.len() && i < 5 {
        let b = s[i as int];
        let acc2 = acc | (((b & 0x7f) as u32) << ((7 * i) as u32));
        if b & 0x80 != 0 {
            lemma_uleb32_consumes(s, i + 1, acc2);
        }
    }
}

/// A signed LEB128 number takes between one and five bytes.
pub proof fn lemma_sleb32_consumes(s: Seq<u8>, i: nat, acc: u32)
    ensures
        parse_sleb32(s, i, acc) matches Some(Ok((_, n))) ==> i < n <= s.len(),
    decreases 5 - i,
{
    if i < s.len() && i < 5 {
        let b = s[i as int];
        let acc2 = acc | (((b & 0x7f) as u32) << ((7 * i) as u32));
        if b & 0x80 != 0 {
            lemma_sleb32_consumes(s, i + 1, acc2);
        }
    }
}

/// The little-endian number in the first four bytes.
pub open spec fn le_u32(s: Seq<u8>) -> u32
    recommends
        s.len() >= 4,
{
    (s[0] + 256 * s[1] + 65536 * s[2] + 16777216 * s[3]) as u32
}

/// An unsigned 32-bit number in LEB128.
#[derive(Debug, PartialEq, Eq, Structural, Clone, Copy)]
pub struct VarUint32(u32);

impl View for VarUint32 {
    type V = u32;

    closed spec fn view(&self) -> u32 {
        self.0
    }
}

impl From<VarUint32> for u32 {
    fn from(v: VarUint32) -> (r: u32) {
        v.0
    }
}

impl vstd::std_specs::convert::FromSpecImpl<VarUint32> for u32 {
    open spec fn obeys_from_spec() -> bool {
        true
    }

    open spec fn from_spec(v: VarUint32) -> u32 {
        v@
    }
}

impl From<u32> for VarUint32 {
    fn from(n: u32) -> (r: VarUint32) {
        VarUint32(n)
    }
}

impl vstd::std_specs::convert::FromSpecImpl<u32> for VarUint32 {
    open spec fn obeys_from_spec() -> bool {
        true
    }

    closed spec fn from_spec(n: u32) -> VarUint32 {
        VarUint32(n)
    }
}

impl VarUint32 {
    /// The number.
    pub fn value(&self) -> (r: u32)
        ensures
            r == self@,
    {
        self.0
    }

    /// Converting a number to the wrapper and back gives the number.
    pub proof fn lemma_from_view(n: u32)
        ensures
            <VarUint32 as vstd::std_specs::convert::FromSpec<u32>>::from_spec(n)@ == n,
    {
    }
}

impl Decoder for VarUint32 {
    open spec fn parse(s: Seq<u8>) -> Parse<u32> {
        match parse_uleb32(s, 0, 0) {
            Ok((v, n)) => Some(Ok((v, n))),
            Err(e) => Some(Err(e)),
        }
    }

    fn decode<R: Read>(reader: &mut R) -> (res: DecodeResult<Self>) {
        let ghost s = reader.rest();
        let mut ret: u32 = 0;
        let mut shift: u32 = 0;
        let mut i: usize = 0;
        loop
            invariant
                i <= 5,
                i <= s.len(),
                shift == 7 * i,
                s == old(reader).rest(),
                reader.rest() == s.skip(i as int),
                parse_uleb32(s, 0, 0) == parse_uleb32(s, i as nat, ret),
            decreases 5 - i,
        {
            let ghost before = reader.rest();
            let b = match read_u8(reader) {
                Ok(b) => b,
                Err(e) => {
                    return Err(e);
                },
            };
            assert(b == s[i as int]);
            if shift >= 32 {
                return Err(Error::InvalidUint32);
            }
            assert(shift == ((7 * i) as u32));
            ret = ret | (((b & 0x7f) as u32) << shift);
            assert(reader.rest() =~= s.skip(i + 1));
            if b & 0x80 == 0 {
                return Ok(VarUint32(ret));
            }
            shift = shift + 7;
            i = i + 1;
            assert(reader.rest() =~= s.skip(i as int));
        }
    }
}

/// A signed 32-bit number in LEB128.
#[derive(Debug, PartialEq, Eq, Structural, Clone, Copy)]
pub struct VarInt32(i32);

impl View for VarInt32 {
    type V = i32;

    closed spec fn view(&self) -> i32 {
        self.0
    }
}

impl From<VarInt32> for i32 {
    fn from(v: VarInt32) -> (r: i32) {
        v.0
    }
}

impl vstd::std_specs::convert::FromSpecImpl<VarInt32> for i32 {
    open spec fn obeys_from_spec() -> bool {
        true
    }

    open spec fn from_spec(v: VarInt32) -> i32 {
        v@
    }
}

impl From<i32> for VarInt32 {
    fn from(n: i32) -> (r: VarInt32) {
        VarInt32(n)
    }
}

impl vstd::std_specs::convert::FromSpecImpl<i32> for VarInt32 {
    open spec fn obeys_from_spec() -> bool {
        true
    }

    closed spec fn from_spec(n: i32) -> VarInt32 {
        VarInt32(n)
    }
}

impl VarInt32 {
    /// The number.
    pub fn value(&self) -> (r: i32)
        ensures
            r == self@,
    {
        self.0
    }
}

impl Decoder for VarInt32 {
    open spec fn parse(s: Seq<u8>) -> Parse<i32> {
        match parse_sleb32(s, 0, 0) {
            Some(Ok((v, n))) => Some(Ok((v as i32, n))),
            Some(Err(e)) => Some(Err(e)),
            None => None,
        }
    }

    fn decode<R: Read>(reader: &mut R) -> (res: DecodeResult<Self>) {
        let ghost s = reader.rest();
        let mut ret: u32 = 0;
        let mut i: u32 = 0;
        loop
            invariant
                i <= 5,
                i <= s.len(),
                s == old(reader).rest(),
                reader.rest() == s.skip(i as int),
                parse_sleb32(s, 0, 0) == parse_sleb32(s, i as nat, ret),
            decreases 5 - i,
        {
            let b = match read_u8(reader) {
                Ok(b) => b,
                Err(e) => {
                    return Err(e);
                },
            };
            assert(b == s[i as int]);
            if i >= 5 {
                return Err(Error::InvalidInt32);
            }
            assert(i * 7 == ((7 * i) as u32));
            ret = ret | (((b & 0x7f) as u32) << (i * 7));
            assert(reader.rest() =~= s.skip(i + 1));
            if b & 0x80 == 0 {
                if b & 0x40 == 0x40 {
                    if i >= 4 {
                        return Err(Error::Unsupported);
                    }
                    assert((i + 1) * 7 == ((7 * (i + 1)) as u32));
                    ret = ret | (0xffff_ffffu32 << ((i + 1) * 7));
                }
                return Ok(VarInt32(#[verifier::truncate] (ret as i32)));
            }
            i = i + 1;
            assert(reader.rest() =~= s.skip(i as int));
        }
    }
}

/// One byte taken as a number.
#[derive(Debug, PartialEq, Eq, Structural, Clone, Copy)]
pub struct VarUint8(u8);

impl View for VarUint8 {
    type V = u8;

    closed spec fn view(&self) -> u8 {
        self.0
    }
}

impl From<VarUint8> for u8 {
    fn from(v: VarUint8) -> (r: u8) {
        v.0
    }
}

impl vstd::std_specs::convert::FromSpecImpl<VarUint8> for u8 {
    open spec fn obeys_from_spec() -> bool {
        true
    }

    open spec fn from_spec(v: VarUint8) -> u8 {
        v@
    }
}

impl From<u8> for VarUint8 {
    fn from(n: u8) -> (r: VarUint8) {
        VarUint8(n)
    }
}

impl vstd::std_specs::convert::FromSpecImpl<u8> for VarUint8 {
    open spec fn obeys_from_spec() -> bool {
        true
    }

    closed spec fn from_spec(n: u8) -> VarUint8 {
        VarUint8(n)
    }
}

impl VarUint8 {
    /// The number.
    pub fn value(&self) -> (r: u8)
        ensures
            r == self@,
    {
        self.0
    }
}

impl Decoder for VarUint8 {
    open spec fn parse(s: Seq<u8>) -> Parse<u8> {
        if s.len() == 0 {
            Some(Err(Error::UnexpectedEOF))
        } else {
            Some(Ok((s[0], 1)))
        }
    }

    fn decode<R: Read>(reader: &mut R) -> (res: DecodeResult<Self>) {
        match read_u8(reader) {
            Ok(b) => Ok(VarUint8(b)),
            Err(e) => Err(e),
        }
    }
}

/// A 32-bit number in four little-endian bytes.
#[derive(Debug, PartialEq, Eq, Structural, Clone, Copy)]
pub struct Uint32(u32);

impl View for Uint32 {
    type V = u32;

    closed spec fn view(&self) -> u32 {
        self.0
    }
}

impl From<Uint32> for u32 {
    fn from(v: Uint32) -> (r: u32) {
        v.0
    }
}

impl vstd::std_specs::convert::FromSpecImpl<Uint32> for u32 {
    open spec fn obeys_from_spec() -> bool {
        true
    }

    open spec fn from_spec(v: Uint32) -> u32 {
        v@
    }
}

impl From<u32> for Uint32 {
    fn from(n: u32) -> (r: Uint32) {
        Uint32(n)
    }
}

impl vstd::std_specs::convert::FromSpecImpl<u32> for Uint32 {
    open spec fn obeys_from_spec() -> bool {
        true
    }

    closed spec fn from_spec(n: u32) -> Uint32 {
        Uint32(n)
    }
}

impl Uint32 {
    /// The number.
    pub fn value(&self) -> (r: u32)
        ensures
            r == self@,
    {
        self.0
    }
}

impl Decoder for Uint32 {
    open spec fn parse(s: Seq<u8>) -> Parse<u32> {
        if s.len() < 4 {
            Some(Err(Error::UnexpectedEOF))
        } else {
            Some(Ok((le_u32(s), 4)))
        }
    }

    fn decode<R: Read>(reader: &mut R) -> (res: DecodeResult<Self>) {
        let buf = match read_bytes(reader, 4) {
            Ok(b) => b,
            Err(e) => {
                return Err(e);
            },
        };
        let v: u32 = (buf[0] as u32) + (buf[1] as u32) * 256 + (buf[2] as u32) * 65536 + (buf[3] as u32)
            * 16777216;
        Ok(Uint32(v))
    }
}


/// Puts the values `vs`, which took `c` bytes, in front of what `p` parsed.
pub open spec fn prepend<V>(vs: Seq<V>, c: nat, p: Parse<Seq<V>>) -> Parse<Seq<V>> {
    match p {
        Some(Ok((ws, m))) => Some(Ok((vs + ws, c + m))),
        Some(Err(e)) => Some(Err(e)),
        None => None,
    }
}

/// `count` values of `T` one after another.
pub open spec fn parse_items<T: Decoder>(s: Seq<u8>, count: nat) -> Parse<Seq<T::V>>
    decreases count,
{
    if count == 0 {
        Some(Ok((Seq::empty(), 0)))
    } else {
        match T::parse(s) {
            Some(Ok((v, n))) => if n <= s.len() {
                prepend(seq![v], n, parse_items::<T>(s.skip(n as int), (count - 1) as nat))
            } else {
                None
            },
            Some(Err(e)) => Some(Err(e)),
            None => None,
        }
    }
}

/// A count in LEB128 followed by that many values.
#[derive(Debug, Clone)]
pub struct List<T: Decoder>(Vec<T>);

/// The views of the values.
pub open spec fn views<T: View>(v: Seq<T>) -> Seq<T::V> {
    v.map_values(|t: T| t@)
}

impl<T: Decoder> View for List<T> {
    type V = Seq<T::V>;

    closed spec fn view(&self) -> Seq<T::V> {
        views(self.0@)
    }
}

impl<T: Decoder> List<T> {
    /// The values.
    pub fn into_inner(self) -> (r: Vec<T>)
        ensures
            views(r@) == self@,
    {
        self.0
    }
}

/// Putting values in front of a parse commutes with adding one at its end.
pub proof fn lemma_prepend_push<V>(vs: Seq<V>, c: nat, v: V, n: nat, p: Parse<Seq<V>>)
    ensures
        prepend(vs, c, prepend(seq![v], n, p)) == prepend(vs.push(v), c + n, p),
{
    match p {
        Some(Ok((ws, m))) => {
            assert(vs + (seq![v] + ws) =~= vs.push(v) + ws);
        },
        _ => {},
    }
}

impl<T: Decoder> Decoder for List<T> {
    open spec fn parse(s: Seq<u8>) -> Parse<Seq<T::V>> {
        match VarUint32::parse(s) {
            Some(Ok((count, n))) => prepend(Seq::empty(), n, parse_items::<T>(s.skip(n as int), count as nat)),
            Some(Err(e)) => Some(Err(e)),
            None => None,
        }
    }

    fn decode<R: Read>(reader: &mut R) -> (res: DecodeResult<Self>) {
        let ghost s = reader.rest();
        let count: u32 = match VarUint32::decode(reader) {
            Ok(c) => c.value(),
            Err(e) => {
                return Err(e);
            },
        };
        let ghost n1 = (s.len() - reader.rest().len()) as nat;
        let ghost s1 = reader.rest();
        assert(s1 == s.skip(n1 as int));
        let mut list: Vec<T> = Vec::new();
        let mut k: u32 = 0;
        let ghost mut consumed: nat = 0;
        while k < count
            invariant
                k <= count,
                s == old(reader).rest(),
                VarUint32::parse(s) == Some(Ok::<(u32, nat), Error>((count, n1))),
                s1 == s.skip(n1 as int),
                n1 <= s.len(),
                consumed <= s1.len(),
                reader.rest() == s1.skip(consumed as int),
                parse_items::<T>(s1, count as nat) == prepend(views(list@), consumed, parse_items::<T>(reader.rest(), (count - k) as nat)),
            decreases count - k,
        {
            let ghost before = reader.rest();
            proof {
                match T::parse(before) {
                    Some(Ok((v, n))) => {},
                    _ => {},
                }
            }
            let item = match T::decode(reader) {
                Ok(item) => item,
                Err(e) => {
                    proof {
                        if T::parse(before) is None {
                            assert(parse_items::<T>(before, (count - k) as nat) is None);
                            assert(parse_items::<T>(s1, count as nat) is None);
                        } else {
                            assert(parse_items::<T>(before, (count - k) as nat) == Some(Err::<(Seq<T::V>, nat), Error>(e)));
                            assert(parse_items::<T>(s1, count as nat) == Some(Err::<(Seq<T::V>, nat), Error>(e)));
                        }
                    }
                    return Err(e);
                },
            };
            let ghost n = (before.len() - reader.rest().len()) as nat;
            proof {
                lemma_prepend_push(views(list@), consumed, item@, n, parse_items::<T>(reader.rest(), (count - k - 1) as nat));
                assert(views(list@.push(item)) =~= views(list@).push(item@));
                assert(s1.skip(consumed as int).skip(n as int) =~= s1.skip((consumed + n) as int));
            }
            list.push(item);
            k = k + 1;
            proof {
                consumed = consumed + n;
            }
        }
        proof {
            assert(s.skip(n1 as int).skip(consumed as int) =~= s.skip((n1 + consumed) as int));
        }
        Ok(List(list))
    }
}

} // verus!
