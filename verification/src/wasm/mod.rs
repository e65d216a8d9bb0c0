//! Decoding of the WebAssembly binary format.
use vstd::prelude::*;

pub mod bytes;
pub mod exports;
pub mod instance;
pub mod func;
pub mod leb128;
pub mod module;
pub mod ops;
pub mod section;
pub mod types;

verus! {

broadcast use bytes::lemma_skip_skip;

/// Why decoding failed.
#[derive(Debug, Clone)]
pub enum Error {
    UnexpectedEOF,
    InvalidMagic,
    InvalidUint32,
    InvalidInt32,
    InvalidSectionId(u8),
    InvalidTypeSection(u8),
    InvalidValueType(u8),
    InvalidExportDesc(u8),
    InvalidExportSection(u8),
    UnknownBlockType(i32),
    Io(String),
    UnsupportedVersion(u32),
    /// The bytes hold something this reader does not handle: a signed number
    /// whose sign reaches past 32 bits, a reference type, a name that is not
    /// UTF-8 or longer than its section, a function body shorter than its
    /// declarations, or a piece whose parse runs past what it was given.
    Unsupported,
}

pub type DecodeResult<T> = Result<T, Error>;

/// What decoding a value from a byte sequence yields: `None` where the decoder
/// would abort (a case the format reader does not support), otherwise either the
/// view of the decoded value with the number of bytes it took, or the error.
pub type Parse<V> = Option<Result<(V, nat), Error>>;

/// A source of bytes that is consumed from the front.
pub trait Read {
    /// The bytes not consumed yet.
    spec fn rest(&self) -> Seq<u8>;

    /// Fills `buf` with the next `buf.len()` bytes, or fails with
    /// `UnexpectedEOF` where fewer bytes are left, consuming nothing and
    /// leaving `buf` as it was.
    fn read(&mut self, buf: &mut [u8]) -> (r: DecodeResult<()>)
        ensures
            final(buf)@.len() == old(buf)@.len(),
            old(buf)@.len() <= old(self).rest().len() ==> {
                &&& r is Ok
                &&& final(buf)@ == old(self).rest().take(old(buf)@.len() as int)
                &&& final(self).rest() == old(self).rest().skip(old(buf)@.len() as int)
            },
            old(buf)@.len() > old(self).rest().len() ==> {
                &&& r matches Err(Error::UnexpectedEOF)
                &&& final(buf)@ == old(buf)@
                &&& final(self).rest() == old(self).rest()
            },
    ;
}

/// A reader over a byte slice.
pub struct Cursor<'a> {
    inner: &'a [u8],
    pos: usize,
}

impl<'a> Cursor<'a> {
    #[verifier::type_invariant]
    spec fn inv(self) -> bool {
        self.pos <= self.inner@.len()
    }

    /// A cursor at the start of `inner`.
    pub fn new(inner: &'a [u8]) -> (c: Self)
        ensures
            c.rest() == inner@,
    {
        let c = Cursor { inner, pos: 0 };
        assert(c.inner@.skip(0) =~= inner@);
        c
    }
}

impl<'a> Read for Cursor<'a> {
    closed spec fn rest(&self) -> Seq<u8> {
        self.inner@.skip(self.pos as int)
    }

    fn read(&mut self, buf: &mut [u8]) -> (r: DecodeResult<()>) {
        proof {
            use_type_invariant(&*self);
        }
        let remain = self.inner.len() - self.pos;
        let requested = buf.len();
        if requested > remain {
            return Err(Error::UnexpectedEOF);
        }
        let mut i: usize = 0;
        while i < requested
            invariant
                self.pos + requested <= self.inner.len(),
                self.pos == old(self).pos,
                self.inner@ == old(self).inner@,
                buf@.len() == requested,
                i <= requested,
                forall|j: int| 0 <= j < i ==> buf@[j] == self.inner@[self.pos + j],
            decreases requested - i,
        {
            buf[i] = self.inner[self.pos + i];
            i = i + 1;
        }
        assert(buf@ =~= old(self).rest().take(requested as int));
        self.pos = self.pos + requested;
        assert(self.rest() =~= old(self).rest().skip(requested as int));
        Ok(())
    }
}

/// Whether the result of a decoder agrees with the parse of the bytes it read.
pub open spec fn outcome_matches<T: View>(
    p: Parse<T::V>,
    res: &DecodeResult<T>,
    before: Seq<u8>,
    after: Seq<u8>,
) -> bool {
    match p {
        Some(Ok((v, n))) => {
            &&& res matches Ok(x) && x@ == v
            &&& n <= before.len()
            &&& after == before.skip(n as int)
        },
        Some(Err(e)) => res matches Err(e2) && e2 == e,
        None => res matches Err(Error::Unsupported),
    }
}

/// A value that can be decoded from the binary format.
pub trait Decoder: Sized + View {
    /// What decoding from the front of `s` gives.
    spec fn parse(s: Seq<u8>) -> Parse<Self::V>;

    fn decode<R: Read>(reader: &mut R) -> (res: DecodeResult<Self>)
        ensures
            outcome_matches::<Self>(Self::parse(old(reader).rest()), &res, old(reader).rest(), final(reader).rest()),
    ;
}

/// Reads one byte.
pub fn read_u8<R: Read>(reader: &mut R) -> (r: DecodeResult<u8>)
    ensures
        old(reader).rest().len() > 0 ==> {
            &&& r == Ok::<u8, Error>(old(reader).rest()[0])
            &&& final(reader).rest() == old(reader).rest().skip(1)
        },
        old(reader).rest().len() == 0 ==> r matches Err(Error::UnexpectedEOF),
{
    let mut buf: Vec<u8> = vec![0u8];
    let r = reader.read(buf.as_mut_slice());
    match r {
        Ok(()) => Ok(buf[0]),
        Err(e) => Err(e),
    }
}

/// Reads the next `length` bytes, a kilobyte at a time.
pub fn read_bytes<R: Read>(reader: &mut R, length: usize) -> (r: DecodeResult<Vec<u8>>)
    ensures
        length <= old(reader).rest().len() ==> {
            &&& r matches Ok(v) && v@ == old(reader).rest().take(length as int)
            &&& final(reader).rest() == old(reader).rest().skip(length as int)
        },
        length > old(reader).rest().len() ==> r matches Err(Error::UnexpectedEOF),
{
    let ghost start = reader.rest();
    let mut ret: Vec<u8> = Vec::new();
    let mut current_read: usize = 0;
    while current_read < length
        invariant
            current_read <= length,
            current_read <= start.len(),
            start == old(reader).rest(),
            ret@ == start.take(current_read as int),
            reader.rest() == start.skip(current_read as int),
        decreases length - current_read,
    {
        let try_read: usize = if length - current_read > 1024 {
            1024
        } else {
            length - current_read
        };
        let mut buf: Vec<u8> = vec![0u8; try_read];
        let ghost before = reader.rest();
        match reader.read(buf.as_mut_slice()) {
            Ok(()) => {},
            Err(e) => {
                assert(try_read > before.len());
                assert(before.len() == start.len() - current_read);
                assert(length > start.len());
                return Err(e);
            },
        }
        let mut i: usize = 0;
        while i < try_read
            invariant
                i <= try_read,
                buf@.len() == try_read,
                buf@ == before.take(try_read as int),
                ret@ == start.take(current_read + i),
                before == start.skip(current_read as int),
                current_read + try_read <= start.len(),
            decreases try_read - i,
        {
            ret.push(buf[i]);
            i = i + 1;
            assert(ret@ =~= start.take(current_read + i));
        }
        current_read = current_read + try_read;
        assert(reader.rest() =~= start.skip(current_read as int));
    }
    assert(ret@ =~= start.take(length as int));
    Ok(ret)
}


/// Calls `String::from_utf8`, which std documents to succeed exactly when the
/// bytes are valid UTF-8 and then to hold the characters they encode.
#[verifier::external_body]
fn string_from_utf8(bytes: Vec<u8>) -> (r: Option<String>)
    ensures
        r is Some <==> vstd::utf8::valid_utf8(bytes@),
        r matches Some(s) ==> s@ == vstd::utf8::decode_utf8(bytes@),
{
    String::from_utf8(bytes).ok()
}

/// A name of `len` bytes: empty when `len` is zero, otherwise the characters of
/// the next `len` bytes, which must be valid UTF-8 (`None` where they are not).
pub open spec fn parse_name(s: Seq<u8>, len: nat) -> Parse<Seq<char>> {
    if len == 0 {
        Some(Ok((Seq::empty(), 0)))
    } else if len > s.len() {
        Some(Err(Error::UnexpectedEOF))
    } else if !vstd::utf8::valid_utf8(s.take(len as int)) {
        None
    } else {
        Some(Ok((vstd::utf8::decode_utf8(s.take(len as int)), len)))
    }
}

/// Reads a name of `length` bytes.
pub fn read_name<R: Read>(reader: &mut R, length: usize) -> (r: DecodeResult<String>)
    ensures
        match parse_name(old(reader).rest(), length as nat) {
            Some(Ok((v, n))) => {
                &&& r matches Ok(x) && x@ == v
                &&& final(reader).rest() == old(reader).rest().skip(n as int)
            },
            Some(Err(e)) => r matches Err(e2) && e2 == e,
            None => r matches Err(Error::Unsupported),
        },
{
    if length == 0 {
        assert(reader.rest().skip(0) =~= reader.rest());
        return Ok(String::new());
    }
    let bytes = match read_bytes(reader, length) {
        Ok(b) => b,
        Err(e) => {
            return Err(e);
        },
    };
    match string_from_utf8(bytes) {
        Some(name) => Ok(name),
        None => Err(Error::Unsupported),
    }
}

} // verus!
