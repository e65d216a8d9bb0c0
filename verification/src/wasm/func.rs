//! Function bodies of the code section.
use vstd::prelude::*;

use super::leb128::{views, List, VarUint32};
use super::ops::{Instruction, Instructions};
use super::types::ValueType;
use super::{read_bytes, Cursor, DecodeResult, Decoder, Error, Parse, Read};

verus! {

broadcast use super::bytes::lemma_skip_skip;

/// A function body: its local declarations and its instructions.
#[derive(Debug, Clone, PartialEq)]
pub struct Func {
    locals: Vec<Local>,
    body: Instructions,
}

impl View for Func {
    type V = (Seq<(u32, ValueType)>, Seq<Instruction>);

    closed spec fn view(&self) -> (Seq<(u32, ValueType)>, Seq<Instruction>) {
        (views(self.locals@), self.body@)
    }
}

impl Func {
    /// The locals, in runs of one type.
    pub fn locals(&self) -> (r: &[Local])
        ensures
            views(r@) == self@.0,
    {
        self.locals.as_slice()
    }

    /// The instructions.
    pub fn body(&self) -> (r: &Instructions)
        ensures
            r@ == self@.1,
    {
        &self.body
    }
}

/// The part of a body after its size and local declarations: where the size is
/// not zero, the instructions decoded from the `len` bytes that follow, where
/// `len` is the size less one byte for the count and two for each declaration
/// (`None` where that difference is negative).
pub open spec fn parse_body(s: Seq<u8>, size: nat, nlocals: nat) -> Parse<Seq<Instruction>> {
    if size == 0 {
        Some(Ok((Seq::empty(), 0)))
    } else if nlocals * 2 + 1 > usize::MAX || size < nlocals * 2 + 1 {
        None
    } else {
        let len = (size - (nlocals * 2 + 1)) as nat;
        if len > s.len() {
            Some(Err(Error::UnexpectedEOF))
        } else {
            match Instructions::parse(s.take(len as int)) {
                Some(Ok((body, _))) => Some(Ok((body, len))),
                Some(Err(e)) => Some(Err(e)),
                None => None,
            }
        }
    }
}

impl Decoder for Func {
    open spec fn parse(s: Seq<u8>) -> Parse<(Seq<(u32, ValueType)>, Seq<Instruction>)> {
        match VarUint32::parse(s) {
            Some(Ok((size, n1))) => if n1 <= s.len() {
                match List::<Local>::parse(s.skip(n1 as int)) {
                    Some(Ok((locals, n2))) => if n1 + n2 <= s.len() {
                        match parse_body(s.skip((n1 + n2) as int), size as nat, locals.len()) {
                            Some(Ok((body, n3))) => Some(Ok(((locals, body), n1 + n2 + n3))),
                            Some(Err(e)) => Some(Err(e)),
                            None => None,
                        }
                    } else {
                        None
                    },
                    Some(Err(e)) => Some(Err(e)),
                    None => None,
                }
            } else {
                None
            },
            Some(Err(e)) => Some(Err(e)),
            None => None,
        }
    }

    fn decode<R: Read>(reader: &mut R) -> (res: DecodeResult<Self>) {
        let ghost s = reader.rest();
        let length: usize = match VarUint32::decode(reader) {
            Ok(v) => v.value() as usize,
            Err(e) => {
                return Err(e);
            },
        };
        let ghost n1 = (s.len() - reader.rest().len()) as nat;
        let locals = match List::<Local>::decode(reader) {
            Ok(l) => l.into_inner(),
            Err(e) => {
                return Err(e);
            },
        };
        let ghost n2 = (s.len() - n1 - reader.rest().len()) as nat;
        assert(reader.rest() == s.skip((n1 + n2) as int));
        let body = if length > 0 {
            if locals.len() > (usize::MAX - 1) / 2 || length < locals.len() * 2 + 1 {
                return Err(Error::Unsupported);
            }
            let buf = match read_bytes(reader, length - (locals.len() * 2 + 1)) {
                Ok(b) => b,
                Err(e) => {
                    return Err(e);
                },
            };
            let mut inner = Cursor::new(buf.as_slice());
            match Instructions::decode(&mut inner) {
                Ok(b) => b,
                Err(e) => {
                    return Err(e);
                },
            }
        } else {
            Instructions::new()
        };
        Ok(Func { locals, body })
    }
}

/// A run of `n` locals of one value type.
#[derive(Debug, Clone, Copy, PartialEq, Eq, Structural)]
pub struct Local {
    n: u32,
    value_type: ValueType,
}

impl View for Local {
    type V = (u32, ValueType);

    closed spec fn view(&self) -> (u32, ValueType) {
        (self.n, self.value_type)
    }
}

impl Local {
    /// How many locals the run declares.
    pub fn n(&self) -> (r: u32)
        ensures
            r == self@.0,
    {
        self.n
    }

    /// Their type.
    pub fn value_type(&self) -> (r: ValueType)
        ensures
            r == self@.1,
    {
        self.value_type
    }
}

impl Decoder for Local {
    open spec fn parse(s: Seq<u8>) -> Parse<(u32, ValueType)> {
        match VarUint32::parse(s) {
            Some(Ok((n, n1))) => if n1 <= s.len() {
                match ValueType::parse(s.skip(n1 as int)) {
                    Some(Ok((t, n2))) => Some(Ok(((n, t), n1 + n2))),
                    Some(Err(e)) => Some(Err(e)),
                    None => None,
                }
            } else {
                None
            },
            Some(Err(e)) => Some(Err(e)),
            None => None,
        }
    }

    fn decode<R: Read>(reader: &mut R) -> (res: DecodeResult<Self>) {
        let n: u32 = match VarUint32::decode(reader) {
            Ok(v) => v.value(),
            Err(e) => {
                return Err(e);
            },
        };
        let value_type = match ValueType::decode(reader) {
            Ok(t) => t,
            Err(e) => {
                return Err(e);
            },
        };
        Ok(Local { n, value_type })
    }
}

} // verus!
