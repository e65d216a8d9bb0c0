//! The sections of a module.
use vstd::prelude::*;
use std::collections::HashMap;

use super::exports::{Export, ExportDesc};
use super::func::Func;
use super::leb128::{views, List, VarUint32, VarUint8};
use super::ops::Instruction;
use super::types::{FuncType, Type, ValueType};
use super::{parse_name, read_bytes, read_name, read_u8, Cursor, DecodeResult, Decoder, Error, Parse, Read};

verus! {

broadcast use {super::bytes::lemma_skip_skip, vstd::std_specs::hash::group_hash_axioms};

/// What a section holds.
pub ghost enum SectionView {
    Custom((Seq<char>, Seq<u8>)),
    Type(Seq<(Seq<ValueType>, Seq<ValueType>)>),
    Function(Seq<u32>),
    Export(Seq<(Seq<char>, ExportDesc)>),
    Code(Seq<(Seq<(u32, ValueType)>, Seq<Instruction>)>),
}

/// A section: its id byte decides its kind.
#[derive(Debug, Clone, PartialEq)]
pub enum Section {
    Custom(CustomSection),
    Type(TypeSection),
    Function(FunctionSection),
    Export(ExportSection),
    Code(CodeSection),
}

impl View for Section {
    type V = SectionView;

    open spec fn view(&self) -> SectionView {
        match self {
            Section::Custom(c) => SectionView::Custom(c@),
            Section::Type(t) => SectionView::Type(t@),
            Section::Function(f) => SectionView::Function(f@),
            Section::Export(e) => SectionView::Export(e@),
            Section::Code(c) => SectionView::Code(c@),
        }
    }
}

/// A parse of `T` turned into a parse of the section it makes, one byte longer.
pub open spec fn section_of<V>(p: Parse<V>, make: spec_fn(V) -> SectionView) -> Parse<SectionView> {
    match p {
        Some(Ok((v, n))) => Some(Ok((make(v), n + 1))),
        Some(Err(e)) => Some(Err(e)),
        None => None,
    }
}

impl Decoder for Section {
    open spec fn parse(s: Seq<u8>) -> Parse<SectionView> {
        if s.len() == 0 {
            Some(Err(Error::UnexpectedEOF))
        } else {
            let r = s.skip(1);
            if s[0] == 0 {
                section_of(CustomSection::parse(r), |v| SectionView::Custom(v))
            } else if s[0] == 1 {
                section_of(TypeSection::parse(r), |v| SectionView::Type(v))
            } else if s[0] == 3 {
                section_of(FunctionSection::parse(r), |v| SectionView::Function(v))
            } else if s[0] == 7 {
                section_of(ExportSection::parse(r), |v| SectionView::Export(v))
            } else if s[0] == 10 {
                section_of(CodeSection::parse(r), |v| SectionView::Code(v))
            } else {
                Some(Err(Error::InvalidSectionId(s[0])))
            }
        }
    }

    #[verifier::rlimit(50)]
    fn decode<R: Read>(reader: &mut R) -> (res: DecodeResult<Self>) {
        let id = match read_u8(reader) {
            Err(_) => {
                return Err(Error::UnexpectedEOF);
            },
            Ok(id) => id,
        };
        match id {
            0 => match CustomSection::decode(reader) {
                Ok(c) => Ok(Section::Custom(c)),
                Err(e) => Err(e),
            },
            1 => match TypeSection::decode(reader) {
                Ok(t) => Ok(Section::Type(t)),
                Err(e) => Err(e),
            },
            3 => match FunctionSection::decode(reader) {
                Ok(f) => Ok(Section::Function(f)),
                Err(e) => Err(e),
            },
            7 => match ExportSection::decode(reader) {
                Ok(x) => Ok(Section::Export(x)),
                Err(e) => Err(e),
            },
            10 => match CodeSection::decode(reader) {
                Ok(c) => Ok(Section::Code(c)),
                Err(e) => Err(e),
            },
            _ => Err(Error::InvalidSectionId(id)),
        }
    }
}

/// A custom section: a name and uninterpreted bytes.
#[derive(Debug, Clone, PartialEq)]
pub struct CustomSection {
    name: String,
    payload: Vec<u8>,
}

impl View for CustomSection {
    type V = (Seq<char>, Seq<u8>);

    closed spec fn view(&self) -> (Seq<char>, Seq<u8>) {
        (self.name@, self.payload@)
    }
}

/// The payload of a custom section of `size` bytes whose name took `name_len`:
/// the bytes of the size left after the name and the byte of its length
/// (`None` where the name is longer than that).
pub open spec fn parse_payload(s: Seq<u8>, size: nat, name_len: nat) -> Parse<Seq<u8>> {
    if name_len + 1 > usize::MAX || size < name_len + 1 {
        None
    } else {
        let len = (size - (name_len + 1)) as nat;
        if len == 0 {
            Some(Ok((Seq::empty(), 0)))
        } else if len > s.len() {
            Some(Err(Error::UnexpectedEOF))
        } else {
            Some(Ok((s.take(len as int), len)))
        }
    }
}

impl Decoder for CustomSection {
    open spec fn parse(s: Seq<u8>) -> Parse<(Seq<char>, Seq<u8>)> {
        match VarUint32::parse(s) {
            Some(Ok((size, n1))) => if n1 <= s.len() {
                match VarUint32::parse(s.skip(n1 as int)) {
                    Some(Ok((name_len, n2))) => if n1 + n2 > s.len() {
                        None
                    } else if size == 0 {
                        Some(Err(Error::UnexpectedEOF))
                    } else {
                        match parse_name(s.skip((n1 + n2) as int), name_len as nat) {
                            Some(Ok((name, n3))) => if n1 + n2 + n3 <= s.len() {
                                match parse_payload(s.skip((n1 + n2 + n3) as int), size as nat, name_len as nat) {
                                    Some(Ok((payload, n4))) => Some(Ok(((name, payload), n1 + n2 + n3 + n4))),
                                    Some(Err(e)) => Some(Err(e)),
                                    None => None,
                                }
                            } else {
                                None
                            },
                            Some(Err(e)) => Some(Err(e)),
                            None => None,
                        }
                    },
                    Some(Err(e)) => Some(Err(e)),
                    None => None,
                }
            } else {
                None
            },
            Some(Err(e)) => Some(Err(e)),
            None => None,
        }
    }

    fn decode<R: Read>(reader: &mut R) -> (res: DecodeResult<Self>) {
        let ghost s = reader.rest();
        let size: usize = match VarUint32::decode(reader) {
            Ok(v) => v.value() as usize,
            Err(e) => {
                return Err(e);
            },
        };
        let ghost n1 = (s.len() - reader.rest().len()) as nat;
        let name_len: usize = match VarUint32::decode(reader) {
            Ok(v) => v.value() as usize,
            Err(e) => {
                return Err(e);
            },
        };
        let ghost n2 = (s.len() - n1 - reader.rest().len()) as nat;
        assert(reader.rest() == s.skip((n1 + n2) as int));
        if size == 0 {
            return Err(Error::UnexpectedEOF);
        }
        let name = match read_name(reader, name_len) {
            Ok(n) => n,
            Err(e) => {
                return Err(e);
            },
        };
        let ghost n3 = (s.len() - n1 - n2 - reader.rest().len()) as nat;
        assert(reader.rest() == s.skip((n1 + n2 + n3) as int));
        if name_len == usize::MAX || size < name_len + 1 {
            return Err(Error::Unsupported);
        }
        let payload_len = size - (name_len + 1);
        let payload = if payload_len > 0 {
            match read_bytes(reader, payload_len) {
                Ok(p) => p,
                Err(e) => {
                    return Err(e);
                },
            }
        } else {
            Vec::new()
        };
        Ok(CustomSection { name, payload })
    }
}

/// The view of a name map.
pub open spec fn names_view(m: Map<u32, String>) -> Map<u32, Seq<char>> {
    m.map_values(|s: String| s@)
}

/// The subsections of a name section are skipped by their id byte and size
/// until the one with id 1; what follows it, or the error.
pub open spec fn skip_to_function_names(s: Seq<u8>) -> Result<nat, Error>
    decreases s.len(),
{
    if s.len() == 0 {
        Err(Error::UnexpectedEOF)
    } else {
        match parse_uleb32_after(s) {
            Ok(n) => if s[0] == 1 {
                Ok(n)
            } else if 0 < n <= s.len() {
                match skip_to_function_names(s.skip(n as int)) {
                    Ok(m) => Ok(n + m),
                    Err(e) => Err(e),
                }
            } else {
                Err(Error::UnexpectedEOF)
            },
            Err(e) => Err(e),
        }
    }
}

/// The bytes taken by an id byte and the LEB128 number after it.
pub open spec fn parse_uleb32_after(s: Seq<u8>) -> Result<nat, Error> {
    match VarUint32::parse(s.skip(1)) {
        Some(Ok((_, n))) => Ok(n + 1),
        Some(Err(e)) => Err(e),
        None => Err(Error::UnexpectedEOF),
    }
}

/// `count` entries of an index and a name each, inserted into `acc` in order.
pub open spec fn parse_function_names(s: Seq<u8>, count: nat, acc: Map<u32, Seq<char>>) -> Option<Result<Map<u32, Seq<char>>, Error>>
    decreases count,
{
    if count == 0 {
        Some(Ok(acc))
    } else {
        match VarUint32::parse(s) {
            Some(Ok((idx, n1))) => if n1 > s.len() {
                None
            } else {
                match VarUint32::parse(s.skip(n1 as int)) {
                    Some(Ok((size, n2))) => if n1 + n2 > s.len() {
                        None
                    } else {
                        let r = s.skip((n1 + n2) as int);
                        if size > r.len() {
                            Some(Err(Error::UnexpectedEOF))
                        } else if !vstd::utf8::valid_utf8(r.take(size as int)) {
                            None
                        } else {
                            parse_function_names(
                                r.skip(size as int),
                                (count - 1) as nat,
                                acc.insert(idx, vstd::utf8::decode_utf8(r.take(size as int))),
                            )
                        }
                    },
                    Some(Err(e)) => Some(Err(e)),
                    None => None,
                }
            },
            Some(Err(e)) => Some(Err(e)),
            None => None,
        }
    }
}

/// The function names of a name-section payload.
pub open spec fn function_names_of(p: Seq<u8>) -> Option<Result<Map<u32, Seq<char>>, Error>> {
    match skip_to_function_names(p) {
        Ok(n1) => if n1 > p.len() {
            None
        } else {
            match VarUint32::parse(p.skip(n1 as int)) {
                Some(Ok((count, n2))) => if n1 + n2 > p.len() {
                    None
                } else {
                    parse_function_names(p.skip((n1 + n2) as int), count as nat, Map::empty())
                },
                Some(Err(e)) => Some(Err(e)),
                None => None,
            }
        },
        Err(e) => Some(Err(e)),
    }
}

impl CustomSection {
    /// The function names that a name section holds, by function index.
    pub fn function_names(&self) -> (r: DecodeResult<HashMap<u32, String>>)
        requires
            function_names_of(self@.1) is Some,
        ensures
            match function_names_of(self@.1) {
                Some(Ok(m)) => r matches Ok(x) && names_view(x@) == m,
                Some(Err(e)) => r matches Err(e2) && e2 == e,
                None => false,
            },
    {
        let mut m: HashMap<u32, String> = HashMap::new();
        let mut reader = Cursor::new(self.payload.as_slice());
        let ghost p = self.payload@;
        let ghost mut consumed: nat = 0;
        loop
            invariant_except_break
                skip_to_function_names(p) == match skip_to_function_names(reader.rest()) {
                    Ok(k) => Ok::<nat, Error>(consumed + k),
                    Err(e) => Err(e),
                },
            invariant
                p == self@.1,
                consumed <= p.len(),
                reader.rest() == p.skip(consumed as int),
                function_names_of(p) is Some,
            ensures
                skip_to_function_names(p) == Ok::<nat, Error>(consumed),
            decreases reader.rest().len(),
        {
            let ghost before = reader.rest();
            let id: u8 = match read_u8(&mut reader) {
                Ok(id) => id,
                Err(e) => {
                    return Err(e);
                },
            };
            let _size: u32 = match VarUint32::decode(&mut reader) {
                Ok(v) => v.value(),
                Err(e) => {
                    assert(parse_uleb32_after(before) == Err::<nat, Error>(e));
                    assert(skip_to_function_names(before) == Err::<nat, Error>(e));
                    return Err(e);
                },
            };
            let ghost n = (before.len() - reader.rest().len()) as nat;
            proof {
                assert(parse_uleb32_after(before) == Ok::<nat, Error>(n));
                consumed = consumed + n;
            }
            if id == 1 {
                break;
            }
        }
        let ghost n1 = consumed;
        let count: u32 = match VarUint32::decode(&mut reader) {
            Ok(v) => v.value(),
            Err(e) => {
                return Err(e);
            },
        };
        let ghost n2 = (p.len() - n1 - reader.rest().len()) as nat;
        assert(names_view(m@) =~= Map::<u32, Seq<char>>::empty());
        let mut k: u32 = 0;
        while k < count
            invariant
                p == self@.1,
                k <= count,
                function_names_of(p) == parse_function_names(reader.rest(), (count - k) as nat, names_view(m@)),
                function_names_of(p) is Some,
            decreases count - k,
        {
            let idx: u32 = match VarUint32::decode(&mut reader) {
                Ok(v) => v.value(),
                Err(e) => {
                    return Err(e);
                },
            };
            let size: usize = match VarUint32::decode(&mut reader) {
                Ok(v) => v.value() as usize,
                Err(e) => {
                    return Err(e);
                },
            };
            let bytes = match read_bytes(&mut reader, size) {
                Ok(b) => b,
                Err(e) => {
                    return Err(e);
                },
            };
            let func_name = match super::string_from_utf8(bytes) {
                Some(n) => n,
                None => {
                    return Err(Error::UnexpectedEOF);
                },
            };
            let ghost old_m = m@;
            m.insert(idx, func_name);
            assert(names_view(m@) =~= names_view(old_m).insert(idx, func_name@));
            k = k + 1;
        }
        Ok(m)
    }
}

/// The type section: the function types of the module.
#[derive(Debug, Clone, PartialEq)]
pub struct TypeSection(Vec<Type>);

impl View for TypeSection {
    type V = Seq<(Seq<ValueType>, Seq<ValueType>)>;

    closed spec fn view(&self) -> Seq<(Seq<ValueType>, Seq<ValueType>)> {
        views(self.0@)
    }
}

/// A section that holds its size and then a counted list of `T`; the size is
/// not checked.
pub open spec fn parse_sized_list<T: Decoder>(s: Seq<u8>) -> Parse<Seq<T::V>> {
    match VarUint32::parse(s) {
        Some(Ok((_, n1))) => if n1 <= s.len() {
            match List::<T>::parse(s.skip(n1 as int)) {
                Some(Ok((v, n2))) => Some(Ok((v, n1 + n2))),
                Some(Err(e)) => Some(Err(e)),
                None => None,
            }
        } else {
            None
        },
        Some(Err(e)) => Some(Err(e)),
        None => None,
    }
}

fn decode_sized_list<T: Decoder, R: Read>(reader: &mut R) -> (res: DecodeResult<Vec<T>>)
    ensures
        match parse_sized_list::<T>(old(reader).rest()) {
            Some(Ok((v, n))) => {
                &&& res matches Ok(x) && views(x@) == v
                &&& n <= old(reader).rest().len()
                &&& final(reader).rest() == old(reader).rest().skip(n as int)
            },
            Some(Err(e)) => res matches Err(e2) && e2 == e,
            None => res matches Err(Error::Unsupported),
        },
{
    match VarUint32::decode(reader) {
        Ok(_) => {},
        Err(e) => {
            return Err(e);
        },
    }
    match List::<T>::decode(reader) {
        Ok(l) => Ok(l.into_inner()),
        Err(e) => Err(e),
    }
}

impl TypeSection {
    /// The function type at `idx`.
    pub fn get_func_type(&self, idx: u32) -> (r: &FuncType)
        requires
            idx < self@.len(),
        ensures
            r@ == self@[idx as int],
    {
        let Type::Func(ref func_type) = self.0[idx as usize];
        func_type
    }
}

impl Decoder for TypeSection {
    open spec fn parse(s: Seq<u8>) -> Parse<Seq<(Seq<ValueType>, Seq<ValueType>)>> {
        parse_sized_list::<Type>(s)
    }

    fn decode<R: Read>(reader: &mut R) -> (res: DecodeResult<Self>) {
        match decode_sized_list::<Type, R>(reader) {
            Ok(v) => Ok(TypeSection(v)),
            Err(e) => Err(e),
        }
    }
}

/// The function section: the type index of each function body, in order.
#[derive(Debug, Clone, PartialEq)]
pub struct FunctionSection(Vec<u32>);

impl View for FunctionSection {
    type V = Seq<u32>;

    closed spec fn view(&self) -> Seq<u32> {
        self.0@
    }
}

impl FunctionSection {
    /// The type index of each function.
    pub fn entries(&self) -> (r: &[u32])
        ensures
            r@ == self@,
    {
        self.0.as_slice()
    }
}

impl Decoder for FunctionSection {
    open spec fn parse(s: Seq<u8>) -> Parse<Seq<u32>> {
        parse_sized_list::<VarUint32>(s)
    }

    fn decode<R: Read>(reader: &mut R) -> (res: DecodeResult<Self>) {
        let list = match decode_sized_list::<VarUint32, R>(reader) {
            Ok(v) => v,
            Err(e) => {
                return Err(e);
            },
        };
        let mut entries: Vec<u32> = Vec::new();
        let mut i: usize = 0;
        while i < list.len()
            invariant
                i <= list@.len(),
                entries@ == views(list@).take(i as int),
            decreases list@.len() - i,
        {
            entries.push(list[i].value());
            i = i + 1;
            assert(entries@ =~= views(list@).take(i as int));
        }
        assert(entries@ =~= views(list@));
        Ok(FunctionSection(entries))
    }
}

/// The export section.
#[derive(Debug, Clone, PartialEq)]
pub struct ExportSection(Vec<Export>);

impl View for ExportSection {
    type V = Seq<(Seq<char>, ExportDesc)>;

    closed spec fn view(&self) -> Seq<(Seq<char>, ExportDesc)> {
        views(self.0@)
    }
}

impl ExportSection {
    /// The exports.
    pub fn entries(&self) -> (r: &[Export])
        ensures
            views(r@) == self@,
    {
        self.0.as_slice()
    }
}

impl Decoder for ExportSection {
    open spec fn parse(s: Seq<u8>) -> Parse<Seq<(Seq<char>, ExportDesc)>> {
        parse_sized_list::<Export>(s)
    }

    fn decode<R: Read>(reader: &mut R) -> (res: DecodeResult<Self>) {
        match decode_sized_list::<Export, R>(reader) {
            Ok(v) => Ok(ExportSection(v)),
            Err(e) => Err(e),
        }
    }
}

/// The code section: the function bodies.
#[derive(Debug, Clone, PartialEq)]
pub struct CodeSection(Vec<Func>);

impl View for CodeSection {
    type V = Seq<(Seq<(u32, ValueType)>, Seq<Instruction>)>;

    closed spec fn view(&self) -> Seq<(Seq<(u32, ValueType)>, Seq<Instruction>)> {
        views(self.0@)
    }
}

impl CodeSection {
    /// The function bodies.
    pub fn entries(&self) -> (r: &[Func])
        ensures
            views(r@) == self@,
    {
        self.0.as_slice()
    }
}

impl Decoder for CodeSection {
    open spec fn parse(s: Seq<u8>) -> Parse<Seq<(Seq<(u32, ValueType)>, Seq<Instruction>)>> {
        parse_sized_list::<Func>(s)
    }

    fn decode<R: Read>(reader: &mut R) -> (res: DecodeResult<Self>) {
        match decode_sized_list::<Func, R>(reader) {
            Ok(v) => Ok(CodeSection(v)),
            Err(e) => Err(e),
        }
    }
}

} // verus!
