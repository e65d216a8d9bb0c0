//! A whole module: the magic number, the version and the sections.
use vstd::prelude::*;
use std::collections::HashMap;

use super::leb128::{le_u32, views, Uint32};
use super::section::{
    function_names_of, names_view, CodeSection, CustomSection, ExportSection, FunctionSection, Section,
    SectionView, TypeSection,
};
use super::{read_bytes, DecodeResult, Decoder, Error, Read};

verus! {

broadcast use super::bytes::lemma_skip_skip;

/// The version of the binary format that is read.
pub const VERSION: u32 = 1;

/// Whether four bytes are the magic number `\0asm`.
pub open spec fn is_magic(b: Seq<u8>) -> bool {
    b.len() == 4 && b[0] == 0x00 && b[1] == 0x61 && b[2] == 0x73 && b[3] == 0x6d
}

/// Sections one after another until the input ends: a section that stops at
/// the end of the input ends the list too.
pub open spec fn parse_sections(s: Seq<u8>) -> Option<Result<Seq<SectionView>, Error>>
    decreases s.len(),
{
    match Section::parse(s) {
        Some(Ok((v, n))) => if 0 < n <= s.len() {
            match parse_sections(s.skip(n as int)) {
                Some(Ok(vs)) => Some(Ok(seq![v] + vs)),
                Some(Err(e)) => Some(Err(e)),
                None => None,
            }
        } else {
            None
        },
        Some(Err(Error::UnexpectedEOF)) => Some(Ok(Seq::empty())),
        Some(Err(e)) => Some(Err(e)),
        None => None,
    }
}

/// What the bytes of a module decode to.
pub open spec fn parse_module(s: Seq<u8>) -> Option<Result<Seq<SectionView>, Error>> {
    if s.len() < 4 {
        Some(Err(Error::UnexpectedEOF))
    } else if !is_magic(s.take(4)) {
        Some(Err(Error::InvalidMagic))
    } else if s.len() < 8 {
        Some(Err(Error::UnexpectedEOF))
    } else if le_u32(s.skip(4)) != VERSION {
        Some(Err(Error::UnsupportedVersion(le_u32(s.skip(4)))))
    } else {
        parse_sections(s.skip(8))
    }
}

/// The index of the first section that `pick` accepts, if there is one.
#[verifier::opaque]
pub open spec fn first_section(secs: Seq<SectionView>, pick: spec_fn(SectionView) -> bool) -> Option<int> {
    if exists|i: int| 0 <= i < secs.len() && pick(secs[i]) {
        Some(choose|i: int| 0 <= i < secs.len() && pick(secs[i]) && forall|j: int| 0 <= j < i ==> !pick(secs[j]))
    } else {
        None
    }
}

/// A decoded module.
#[derive(Debug, Clone, PartialEq)]
pub struct Module {
    sections: Vec<Section>,
}

impl View for Module {
    type V = Seq<SectionView>;

    closed spec fn view(&self) -> Seq<SectionView> {
        views(self.sections@)
    }
}

/// Where no section is accepted there is no first one.
proof fn lemma_no_section(secs: Seq<SectionView>, pick: spec_fn(SectionView) -> bool)
    requires
        forall|j: int| 0 <= j < secs.len() ==> !pick(secs[j]),
    ensures
        first_section(secs, pick) is None,
{
    reveal(first_section);
}

proof fn lemma_first_section(secs: Seq<SectionView>, pick: spec_fn(SectionView) -> bool, i: int)
    requires
        0 <= i < secs.len(),
        pick(secs[i]),
        forall|j: int| 0 <= j < i ==> !pick(secs[j]),
    ensures
        first_section(secs, pick) == Some(i),
{
    reveal(first_section);
    let k = choose|k: int| 0 <= k < secs.len() && pick(secs[k]) && forall|j: int| 0 <= j < k ==> !pick(secs[j]);
    assert(0 <= k < secs.len() && pick(secs[k]) && forall|j: int| 0 <= j < k ==> !pick(secs[j]));
    if k < i {
        assert(!pick(secs[k]));
    }
    if i < k {
        assert(!pick(secs[i]));
    }
}

impl Module {
    /// The sections, in the order they came.
    pub fn sections(&self) -> (r: &Vec<Section>)
        ensures
            views(r@) == self@,
    {
        &self.sections
    }

    /// The first type section.
    pub fn type_section(&self) -> (r: Option<&TypeSection>)
        ensures
            match first_section(self@, |v: SectionView| v is Type) {
                Some(i) => r matches Some(t) && self@[i] == SectionView::Type(t@),
                None => r is None,
            },
    {
        let mut i: usize = 0;
        while i < self.sections.len()
            invariant
                i <= self.sections@.len(),
                forall|j: int| 0 <= j < i ==> !(self@[j] is Type),
            decreases self.sections@.len() - i,
        {
            if let Section::Type(ref s) = self.sections[i] {
                proof {
                    lemma_first_section(self@, |v: SectionView| v is Type, i as int);
                }
                return Some(s);
            }
            i = i + 1;
        }
        proof {
            lemma_no_section(self@, |v: SectionView| v is Type);
        }
        None
    }

    /// The first function section.
    pub fn function_section(&self) -> (r: Option<&FunctionSection>)
        ensures
            match first_section(self@, |v: SectionView| v is Function) {
                Some(i) => r matches Some(t) && self@[i] == SectionView::Function(t@),
                None => r is None,
            },
    {
        let mut i: usize = 0;
        while i < self.sections.len()
            invariant
                i <= self.sections@.len(),
                forall|j: int| 0 <= j < i ==> !(self@[j] is Function),
            decreases self.sections@.len() - i,
        {
            if let Section::Function(ref s) = self.sections[i] {
                proof {
                    lemma_first_section(self@, |v: SectionView| v is Function, i as int);
                }
                return Some(s);
            }
            i = i + 1;
        }
        proof {
            lemma_no_section(self@, |v: SectionView| v is Function);
        }
        None
    }

    /// The first export section.
    pub fn export_section(&self) -> (r: Option<&ExportSection>)
        ensures
            match first_section(self@, |v: SectionView| v is Export) {
                Some(i) => r matches Some(t) && self@[i] == SectionView::Export(t@),
                None => r is None,
            },
    {
        let mut i: usize = 0;
        while i < self.sections.len()
            invariant
                i <= self.sections@.len(),
                forall|j: int| 0 <= j < i ==> !(self@[j] is Export),
            decreases self.sections@.len() - i,
        {
            if let Section::Export(ref s) = self.sections[i] {
                proof {
                    lemma_first_section(self@, |v: SectionView| v is Export, i as int);
                }
                return Some(s);
            }
            i = i + 1;
        }
        proof {
            lemma_no_section(self@, |v: SectionView| v is Export);
        }
        None
    }

    /// The first code section.
    pub fn code_section(&self) -> (r: Option<&CodeSection>)
        ensures
            match first_section(self@, |v: SectionView| v is Code) {
                Some(i) => r matches Some(t) && self@[i] == SectionView::Code(t@),
                None => r is None,
            },
    {
        let mut i: usize = 0;
        while i < self.sections.len()
            invariant
                i <= self.sections@.len(),
                forall|j: int| 0 <= j < i ==> !(self@[j] is Code),
            decreases self.sections@.len() - i,
        {
            if let Section::Code(ref s) = self.sections[i] {
                proof {
                    lemma_first_section(self@, |v: SectionView| v is Code, i as int);
                }
                return Some(s);
            }
            i = i + 1;
        }
        proof {
            lemma_no_section(self@, |v: SectionView| v is Code);
        }
        None
    }

    /// The first custom section.
    pub fn custom_function(&self) -> (r: Option<&CustomSection>)
        ensures
            match first_section(self@, |v: SectionView| v is Custom) {
                Some(i) => r matches Some(t) && self@[i] == SectionView::Custom(t@),
                None => r is None,
            },
    {
        let mut i: usize = 0;
        while i < self.sections.len()
            invariant
                i <= self.sections@.len(),
                forall|j: int| 0 <= j < i ==> !(self@[j] is Custom),
            decreases self.sections@.len() - i,
        {
            if let Section::Custom(ref s) = self.sections[i] {
                proof {
                    lemma_first_section(self@, |v: SectionView| v is Custom, i as int);
                }
                return Some(s);
            }
            i = i + 1;
        }
        proof {
            lemma_no_section(self@, |v: SectionView| v is Custom);
        }
        None
    }

    /// The function names of the first custom section, where it holds them.
    pub fn function_names(&self) -> (r: Option<HashMap<u32, String>>)
        requires
            self.spec_custom_names() is Some,
        ensures
            match self.spec_custom_names() {
                Some(Some(Ok(m))) => r matches Some(x) && names_view(x@) == m,
                _ => r is None,
            },
    {
        let c = match self.custom_function() {
            Some(c) => c,
            None => {
                return None;
            },
        };
        match c.function_names() {
            Ok(m) => Some(m),
            Err(_) => None,
        }
    }

    /// The function names of the payload of the first custom section, or
    /// `Some(None)` where there is no custom section.
    pub open spec fn spec_custom_names(self) -> Option<Option<Result<Map<u32, Seq<char>>, Error>>> {
        match first_section(self@, |v: SectionView| v is Custom) {
            Some(i) => match self@[i] {
                SectionView::Custom((_, p)) => match function_names_of(p) {
                    Some(r) => Some(Some(r)),
                    None => None,
                },
                _ => None,
            },
            None => Some(None),
        }
    }

    /// Decodes a module.
    pub fn decode<R: Read>(reader: &mut R) -> (res: DecodeResult<Self>)
        ensures
            match parse_module(old(reader).rest()) {
                Some(Ok(v)) => res matches Ok(m) && m@ == v,
                Some(Err(e)) => res matches Err(e2) && e2 == e,
                None => res matches Err(Error::Unsupported),
            },
    {
        let ghost s = reader.rest();
        let magic = match read_bytes(reader, 4) {
            Ok(m) => m,
            Err(e) => {
                return Err(e);
            },
        };
        if !(magic[0] == 0x00 && magic[1] == 0x61 && magic[2] == 0x73 && magic[3] == 0x6d) {
            return Err(Error::InvalidMagic);
        }
        let version: u32 = match Uint32::decode(reader) {
            Ok(v) => v.value(),
            Err(e) => {
                return Err(e);
            },
        };
        if version != VERSION {
            return Err(Error::UnsupportedVersion(version));
        }
        let mut sections: Vec<Section> = Vec::new();
        let ghost s8 = reader.rest();
        assert(s8 == s.skip(8));
        loop
            invariant_except_break
                parse_sections(s8) == match parse_sections(reader.rest()) {
                    Some(Ok(vs)) => Some(Ok::<Seq<SectionView>, Error>(views(sections@) + vs)),
                    Some(Err(e)) => Some(Err(e)),
                    None => None,
                },
            invariant
                s == old(reader).rest(),
                s8 == s.skip(8),
                parse_module(s) == parse_sections(s8),
            ensures
                parse_sections(s8) == Some(Ok::<Seq<SectionView>, Error>(views(sections@))),
            decreases reader.rest().len(),
        {
            let ghost before = reader.rest();
            match Section::decode(reader) {
                Ok(section) => {
                    let ghost n = (before.len() - reader.rest().len()) as nat;
                    proof {
                        assert(views(sections@.push(section)) =~= views(sections@).push(section@));
                        match parse_sections(reader.rest()) {
                            Some(Ok(vs)) => {
                                assert(views(sections@) + (seq![section@] + vs) =~= views(sections@).push(section@) + vs);
                            },
                            _ => {},
                        }
                    }
                    sections.push(section);
                },
                Err(Error::UnexpectedEOF) => {
                    assert(views(sections@) + Seq::<SectionView>::empty() =~= views(sections@));
                    break;
                },
                Err(e) => {
                    return Err(e);
                },
            }
        }
        Ok(Module { sections })
    }
}

} // verus!
