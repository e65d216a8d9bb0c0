//! Value, function and block types.
use vstd::prelude::*;

use super::leb128::{List, VarInt32, VarUint32, VarUint8, views};
use super::{DecodeResult, Decoder, Error, Parse, Read, read_u8};

verus! {

broadcast use super::bytes::lemma_skip_skip;

/// A type of the function section: the only kind is a function type.
#[derive(Debug, Clone, PartialEq)]
pub enum Type {
    Func(FuncType),
}

impl View for Type {
    type V = (Seq<ValueType>, Seq<ValueType>);

    open spec fn view(&self) -> (Seq<ValueType>, Seq<ValueType>) {
        match self {
            Type::Func(f) => f@,
        }
    }
}

impl Type {
    /// The function type.
    pub fn func_type(&self) -> (r: Option<&FuncType>)
        ensures
            r matches Some(f) && f@ == self@,
    {
        match self {
            Type::Func(f) => Some(f),
        }
    }
}

impl Decoder for Type {
    open spec fn parse(s: Seq<u8>) -> Parse<(Seq<ValueType>, Seq<ValueType>)> {
        if s.len() == 0 {
            Some(Err(Error::UnexpectedEOF))
        } else if s[0] == 0x60 {
            match FuncType::parse(s.skip(1)) {
                Some(Ok((f, n))) => Some(Ok((f, n + 1))),
                Some(Err(e)) => Some(Err(e)),
                None => None,
            }
        } else {
            Some(Err(Error::InvalidTypeSection(s[0])))
        }
    }

    fn decode<R: Read>(reader: &mut R) -> (res: DecodeResult<Self>) {
        let header = match read_u8(reader) {
            Ok(h) => h,
            Err(e) => {
                return Err(e);
            },
        };
        if header == 0x60 {
            match FuncType::decode(reader) {
                Ok(f) => Ok(Type::Func(f)),
                Err(e) => Err(e),
            }
        } else {
            Err(Error::InvalidTypeSection(header))
        }
    }
}

/// The type of a value.
#[derive(Debug, Clone, Copy, PartialEq, Eq, Structural)]
pub enum ValueType {
    Int32,
    Int64,
    Float32,
    Float64,
}

impl View for ValueType {
    type V = ValueType;

    open spec fn view(&self) -> ValueType {
        *self
    }
}

impl Decoder for ValueType {
    /// The reference types `0x70` and `0x6f` are not supported.
    open spec fn parse(s: Seq<u8>) -> Parse<ValueType> {
        if s.len() == 0 {
            Some(Err(Error::UnexpectedEOF))
        } else if s[0] == 0x7f {
            Some(Ok((ValueType::Int32, 1)))
        } else if s[0] == 0x7e {
            Some(Ok((ValueType::Int64, 1)))
        } else if s[0] == 0x7d {
            Some(Ok((ValueType::Float32, 1)))
        } else if s[0] == 0x7c {
            Some(Ok((ValueType::Float64, 1)))
        } else if s[0] == 0x70 || s[0] == 0x6f {
            None
        } else {
            Some(Err(Error::InvalidValueType(s[0])))
        }
    }

    fn decode<R: Read>(reader: &mut R) -> (res: DecodeResult<Self>) {
        let n = match read_u8(reader) {
            Ok(n) => n,
            Err(e) => {
                return Err(e);
            },
        };
        if n == 0x7f {
            Ok(ValueType::Int32)
        } else if n == 0x7e {
            Ok(ValueType::Int64)
        } else if n == 0x7d {
            Ok(ValueType::Float32)
        } else if n == 0x7c {
            Ok(ValueType::Float64)
        } else if n == 0x70 || n == 0x6f {
            Err(Error::Unsupported)
        } else {
            Err(Error::InvalidValueType(n))
        }
    }
}

/// The view of a list of value types is the list itself.
pub proof fn lemma_value_type_views(v: Seq<ValueType>)
    ensures
        views(v) == v,
{
    assert(views(v) =~= v);
}

/// A function type: its parameter and result types.
#[derive(Debug, Clone, PartialEq)]
pub struct FuncType {
    params: Vec<ValueType>,
    results: Vec<ValueType>,
}

impl View for FuncType {
    type V = (Seq<ValueType>, Seq<ValueType>);

    closed spec fn view(&self) -> (Seq<ValueType>, Seq<ValueType>) {
        (self.params@, self.results@)
    }
}

impl FuncType {
    /// The parameter types.
    pub fn params(&self) -> (r: &[ValueType])
        ensures
            r@ == self@.0,
    {
        self.params.as_slice()
    }

    /// The result types.
    pub fn results(&self) -> (r: &[ValueType])
        ensures
            r@ == self@.1,
    {
        self.results.as_slice()
    }
}

impl Decoder for FuncType {
    open spec fn parse(s: Seq<u8>) -> Parse<(Seq<ValueType>, Seq<ValueType>)> {
        match List::<ValueType>::parse(s) {
            Some(Ok((ps, n1))) => if n1 <= s.len() {
                match List::<ValueType>::parse(s.skip(n1 as int)) {
                    Some(Ok((rs, n2))) => Some(Ok(((ps, rs), n1 + n2))),
                    Some(Err(e)) => Some(Err(e)),
                    None => None,
                }
            } else {
                None
            },
            Some(Err(e)) => Some(Err(e)),
            None => None,
        }
    }

    fn decode<R: Read>(reader: &mut R) -> (res: DecodeResult<Self>) {
        let params = match List::<ValueType>::decode(reader) {
            Ok(l) => l.into_inner(),
            Err(e) => {
                return Err(e);
            },
        };
        let results = match List::<ValueType>::decode(reader) {
            Ok(l) => l.into_inner(),
            Err(e) => {
                return Err(e);
            },
        };
        proof {
            lemma_value_type_views(params@);
            lemma_value_type_views(results@);
        }
        Ok(FuncType { params, results })
    }
}

/// The type of a block: none, one value type, or an index into the types.
#[derive(Debug, Clone, Copy, PartialEq, Eq, Structural)]
pub enum BlockType {
    Empty,
    ValueType(ValueType),
    TypeIndex(u32),
}

impl View for BlockType {
    type V = BlockType;

    open spec fn view(&self) -> BlockType {
        *self
    }
}

/// The block type a signed number stands for.
pub open spec fn block_type_of(v: i32) -> Result<BlockType, Error> {
    if v == -64 {
        Ok(BlockType::Empty)
    } else if v == -1 {
        Ok(BlockType::ValueType(ValueType::Int32))
    } else if v == -2 {
        Ok(BlockType::ValueType(ValueType::Int64))
    } else if v == -3 {
        Ok(BlockType::ValueType(ValueType::Float32))
    } else if v == -4 {
        Ok(BlockType::ValueType(ValueType::Float64))
    } else if v < 0 {
        Err(Error::UnknownBlockType(v))
    } else {
        Ok(BlockType::TypeIndex(v as u32))
    }
}

impl Decoder for BlockType {
    open spec fn parse(s: Seq<u8>) -> Parse<BlockType> {
        match VarInt32::parse(s) {
            Some(Ok((v, n))) => match block_type_of(v) {
                Ok(b) => Some(Ok((b, n))),
                Err(e) => Some(Err(e)),
            },
            Some(Err(e)) => Some(Err(e)),
            None => None,
        }
    }

    fn decode<R: Read>(reader: &mut R) -> (res: DecodeResult<Self>) {
        let val: i32 = match VarInt32::decode(reader) {
            Ok(v) => v.value(),
            Err(e) => {
                return Err(e);
            },
        };
        if val == -64 {
            Ok(BlockType::Empty)
        } else if val == -1 {
            Ok(BlockType::ValueType(ValueType::Int32))
        } else if val == -2 {
            Ok(BlockType::ValueType(ValueType::Int64))
        } else if val == -3 {
            Ok(BlockType::ValueType(ValueType::Float32))
        } else if val == -4 {
            Ok(BlockType::ValueType(ValueType::Float64))
        } else if val < 0 {
            Err(Error::UnknownBlockType(val))
        } else {
            Ok(BlockType::TypeIndex(val as u32))
        }
    }
}

} // verus!
