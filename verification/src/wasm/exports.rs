//! Exported names.
use vstd::prelude::*;

use super::leb128::{VarUint32, VarUint8};
use super::{parse_name, read_name, read_u8, DecodeResult, Decoder, Error, Parse, Read};

verus! {

broadcast use super::bytes::lemma_skip_skip;

/// A name exported by a module and what it names.
#[derive(Debug, Clone, PartialEq)]
pub struct Export {
    name: String,
    desc: ExportDesc,
}

impl View for Export {
    type V = (Seq<char>, ExportDesc);

    closed spec fn view(&self) -> (Seq<char>, ExportDesc) {
        (self.name@, self.desc)
    }
}

impl Export {
    /// The exported name.
    pub fn name(&self) -> (r: &str)
        ensures
            r@ == self@.0,
    {
        self.name.as_str()
    }

    /// What the name stands for.
    pub fn desc(&self) -> (r: &ExportDesc)
        ensures
            *r == self@.1,
    {
        &self.desc
    }
}

impl Decoder for Export {
    open spec fn parse(s: Seq<u8>) -> Parse<(Seq<char>, ExportDesc)> {
        match VarUint32::parse(s) {
            Some(Ok((len, n1))) => if n1 <= s.len() {
                match parse_name(s.skip(n1 as int), len as nat) {
                    Some(Ok((name, n2))) => if n1 + n2 <= s.len() {
                        match ExportDesc::parse(s.skip((n1 + n2) as int)) {
                            Some(Ok((d, n3))) => Some(Ok(((name, d), n1 + n2 + n3))),
                            Some(Err(e)) => Some(Err(e)),
                            None => None,
                        }
                    } else {
                        None
                    },
                    Some(Err(e)) => Some(Err(e)),
                    None => None,
                }
            } else {
                None
            },
            Some(Err(e)) => Some(Err(e)),
            None => None,
        }
    }

    fn decode<R: Read>(reader: &mut R) -> (res: DecodeResult<Self>) {
        let ghost s = reader.rest();
        let length: u32 = match VarUint32::decode(reader) {
            Ok(v) => v.value(),
            Err(e) => {
                return Err(e);
            },
        };
        let ghost n1 = (s.len() - reader.rest().len()) as nat;
        let name = match read_name(reader, length as usize) {
            Ok(n) => n,
            Err(e) => {
                return Err(e);
            },
        };
        let ghost n2 = (s.len() - n1 - reader.rest().len()) as nat;
        assert(reader.rest() == s.skip((n1 + n2) as int));
        let desc = match ExportDesc::decode(reader) {
            Ok(d) => d,
            Err(e) => {
                return Err(e);
            },
        };
        Ok(Export { name, desc })
    }
}

/// What an export names: an index into the functions, tables, memories or
/// globals.
#[derive(Debug, Clone, Copy, PartialEq, Eq, Structural)]
pub enum ExportDesc {
    Func(u32),
    Table(u32),
    Memory(u32),
    Global(u32),
}

impl View for ExportDesc {
    type V = ExportDesc;

    open spec fn view(&self) -> ExportDesc {
        *self
    }
}

impl Decoder for ExportDesc {
    open spec fn parse(s: Seq<u8>) -> Parse<ExportDesc> {
        if s.len() == 0 {
            Some(Err(Error::UnexpectedEOF))
        } else if s[0] > 3 {
            Some(Err(Error::InvalidExportDesc(s[0])))
        } else {
            match VarUint32::parse(s.skip(1)) {
                Some(Ok((i, n))) => Some(
                    Ok(
                        (
                            if s[0] == 0 {
                                ExportDesc::Func(i)
                            } else if s[0] == 1 {
                                ExportDesc::Table(i)
                            } else if s[0] == 2 {
                                ExportDesc::Memory(i)
                            } else {
                                ExportDesc::Global(i)
                            },
                            n + 1,
                        ),
                    ),
                ),
                Some(Err(e)) => Some(Err(e)),
                None => None,
            }
        }
    }

    fn decode<R: Read>(reader: &mut R) -> (res: DecodeResult<Self>) {
        let id = match read_u8(reader) {
            Ok(id) => id,
            Err(e) => {
                return Err(e);
            },
        };
        if id > 3 {
            return Err(Error::InvalidExportDesc(id));
        }
        let idx: u32 = match VarUint32::decode(reader) {
            Ok(v) => v.value(),
            Err(e) => {
                return Err(e);
            },
        };
        Ok(
            match id {
                0 => ExportDesc::Func(idx),
                1 => ExportDesc::Table(idx),
                2 => ExportDesc::Memory(idx),
                _ => ExportDesc::Global(idx),
            },
        )
    }
}

} // verus!
