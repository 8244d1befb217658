//! The container's fixed part: magic, version, and the header with its table
//! of four sections.

use crate::endian::{push_u32_le, push_u64_le, read_u32_le, read_u64_le};
use vstd::bytes::{
    lemma_auto_spec_u32_to_from_le_bytes, lemma_auto_spec_u64_to_from_le_bytes,
    spec_u32_from_le_bytes, spec_u32_to_le_bytes, spec_u64_from_le_bytes, spec_u64_to_le_bytes,
};
use vstd::prelude::*;
use vstd::slice::slice_subrange;

verus! {

/// The four bytes every container starts with: `ZOK` and a zero byte.
pub const ZOKRATES_MAGIC: [u8; 4] = [0x5a, 0x4f, 0x4b, 0];

/// The format version: major, minor, patch, reserved.
pub const FILE_VERSION: [u8; 4] = [3, 0, 0, 0];

/// Length of magic and version together.
pub const PREAMBLE_LEN: usize = 8;

/// Length of an encoded header.
pub const HEADER_LEN: usize = 92;

pub open spec fn magic_bytes() -> Seq<u8> {
    seq![0x5au8, 0x4fu8, 0x4bu8, 0u8]
}

pub open spec fn version_bytes() -> Seq<u8> {
    seq![3u8, 0u8, 0u8, 0u8]
}

#[derive(Debug, PartialEq, Eq, Clone, Copy, Structural)]
pub enum SectionType {
    Parameters,
    Constraints,
    Solvers,
    Modules,
}

impl SectionType {
    /// The number that stands for this section type in the file.
    pub open spec fn spec_tag(self) -> u32 {
        match self {
            SectionType::Parameters => 1,
            SectionType::Constraints => 2,
            SectionType::Solvers => 3,
            SectionType::Modules => 4,
        }
    }

    pub open spec fn spec_from_tag(value: u32) -> Option<SectionType> {
        if value == 1 {
            Some(SectionType::Parameters)
        } else if value == 2 {
            Some(SectionType::Constraints)
        } else if value == 3 {
            Some(SectionType::Solvers)
        } else if value == 4 {
            Some(SectionType::Modules)
        } else {
            None
        }
    }

    pub fn tag(self) -> (t: u32)
        ensures
            t == self.spec_tag(),
    {
        match self {
            SectionType::Parameters => 1,
            SectionType::Constraints => 2,
            SectionType::Solvers => 3,
            SectionType::Modules => 4,
        }
    }

    /// The section type that `value` stands for, if it is one of 1 to 4.
    pub fn try_from(value: u32) -> (r: Result<SectionType, String>)
        ensures
            match r {
                Ok(t) => Self::spec_from_tag(value) == Some(t),
                Err(e) => Self::spec_from_tag(value) is None && e@ == "invalid section type"@,
            },
    {
        if value == 1 {
            Ok(SectionType::Parameters)
        } else if value == 2 {
            Ok(SectionType::Constraints)
        } else if value == 3 {
            Ok(SectionType::Solvers)
        } else if value == 4 {
            Ok(SectionType::Modules)
        } else {
            Err("invalid section type".to_string())
        }
    }
}

#[derive(Debug, Clone, Copy)]
pub struct Section {
    pub ty: SectionType,
    pub offset: u64,
    pub length: u64,
}

impl Section {
    pub fn new(ty: SectionType) -> (s: Section)
        ensures
            s == (Section { ty, offset: 0, length: 0 }),
    {
        Section { ty, offset: 0, length: 0 }
    }

    pub fn set_offset(&mut self, offset: u64)
        ensures
            *final(self) == (Section { offset, ..*old(self) }),
    {
        self.offset = offset;
    }

    pub fn set_length(&mut self, length: u64)
        ensures
            *final(self) == (Section { length, ..*old(self) }),
    {
        self.length = length;
    }

    /// The twenty bytes of a section table entry: tag, offset, length.
    pub open spec fn encoding(self) -> Seq<u8> {
        spec_u32_to_le_bytes(self.ty.spec_tag()) + spec_u64_to_le_bytes(self.offset)
            + spec_u64_to_le_bytes(self.length)
    }

    fn write(&self, w: &mut Vec<u8>)
        ensures
            final(w)@ == old(w)@ + self.encoding(),
    {
        push_u32_le(w, self.ty.tag());
        push_u64_le(w, self.offset);
        push_u64_le(w, self.length);
        assert(w@ =~= old(w)@ + self.encoding());
    }
}

/// Why a header could not be read.
#[derive(Debug, PartialEq, Eq, Clone, Copy, Structural)]
pub enum ReadError {
    /// The input ends before the header does.
    UnexpectedEof,
    /// The first four bytes are not the magic constant.
    InvalidMagic,
    /// The format version is not the one this library reads.
    InvalidVersion,
    /// A section table entry carries a tag that is no section type.
    InvalidSectionType,
}

impl ReadError {
    /// Magic or version mismatch: the input is not a container of this format.
    pub open spec fn spec_is_invalid_format(self) -> bool {
        self == ReadError::InvalidMagic || self == ReadError::InvalidVersion
    }

    pub fn is_invalid_format(&self) -> (b: bool)
        ensures
            b == self.spec_is_invalid_format(),
    {
        match self {
            ReadError::InvalidMagic => true,
            ReadError::InvalidVersion => true,
            _ => false,
        }
    }
}

#[derive(Debug, Clone, Copy)]
pub struct ProgHeader {
    pub curve_id: [u8; 4],
    pub constraint_count: u32,
    pub return_count: u32,
    pub sections: [Section; 4],
}

/// What stops the table entry at `at` from being read, if anything does.
pub open spec fn section_fault(bytes: Seq<u8>, at: int) -> Option<ReadError> {
    if bytes.len() < at + 4 {
        Some(ReadError::UnexpectedEof)
    } else if SectionType::spec_from_tag(spec_u32_from_le_bytes(bytes.subrange(at, at + 4)))
        is None {
        Some(ReadError::InvalidSectionType)
    } else if bytes.len() < at + 20 {
        Some(ReadError::UnexpectedEof)
    } else {
        None
    }
}

/// The table entry that the twenty bytes at `at` hold.
pub open spec fn section_at(bytes: Seq<u8>, at: int) -> Section {
    Section {
        ty: SectionType::spec_from_tag(
            spec_u32_from_le_bytes(bytes.subrange(at, at + 4)),
        ).unwrap(),
        offset: spec_u64_from_le_bytes(bytes.subrange(at + 4, at + 12)),
        length: spec_u64_from_le_bytes(bytes.subrange(at + 12, at + 20)),
    }
}

/// The first thing wrong with `bytes` as magic, version and header, going
/// from the front; `None` where a header can be read.
pub open spec fn header_fault(bytes: Seq<u8>) -> Option<ReadError> {
    if bytes.len() < 4 {
        Some(ReadError::UnexpectedEof)
    } else if bytes.subrange(0, 4) != magic_bytes() {
        Some(ReadError::InvalidMagic)
    } else if bytes.len() < 8 {
        Some(ReadError::UnexpectedEof)
    } else if bytes.subrange(4, 8) != version_bytes() {
        Some(ReadError::InvalidVersion)
    } else if bytes.len() < 20 {
        Some(ReadError::UnexpectedEof)
    } else if section_fault(bytes, 20) is Some {
        section_fault(bytes, 20)
    } else if section_fault(bytes, 40) is Some {
        section_fault(bytes, 40)
    } else if section_fault(bytes, 60) is Some {
        section_fault(bytes, 60)
    } else {
        section_fault(bytes, 80)
    }
}

/// `h` is the header that `bytes` hold behind magic and version.
pub open spec fn decodes_to(bytes: Seq<u8>, h: ProgHeader) -> bool {
    &&& bytes.len() >= 100
    &&& h.curve_id@ == bytes.subrange(8, 12)
    &&& h.constraint_count == spec_u32_from_le_bytes(bytes.subrange(12, 16))
    &&& h.return_count == spec_u32_from_le_bytes(bytes.subrange(16, 20))
    &&& h.sections@ == seq![
        section_at(bytes, 20),
        section_at(bytes, 40),
        section_at(bytes, 60),
        section_at(bytes, 80),
    ]
}

/// The bytes of a header with the given curve, counts and table.
pub open spec fn header_encoding(
    curve_id: Seq<u8>,
    constraint_count: u32,
    return_count: u32,
    sections: Seq<Section>,
) -> Seq<u8> {
    curve_id + spec_u32_to_le_bytes(constraint_count) + spec_u32_to_le_bytes(return_count)
        + sections[0].encoding() + sections[1].encoding() + sections[2].encoding()
        + sections[3].encoding()
}

impl ProgHeader {
    /// The 92 bytes of the header: curve, two counts, four table entries.
    pub open spec fn encoding(self) -> Seq<u8> {
        header_encoding(self.curve_id@, self.constraint_count, self.return_count, self.sections@)
    }

    /// Appends the header's encoding to `w`.
    pub fn write(&self, w: &mut Vec<u8>)
        ensures
            final(w)@ == old(w)@ + self.encoding(),
    {
        w.push(self.curve_id[0]);
        w.push(self.curve_id[1]);
        w.push(self.curve_id[2]);
        w.push(self.curve_id[3]);
        assert(w@ =~= old(w)@ + self.curve_id@);
        push_u32_le(w, self.constraint_count);
        push_u32_le(w, self.return_count);
        self.sections[0].write(w);
        self.sections[1].write(w);
        self.sections[2].write(w);
        self.sections[3].write(w);
        assert(w@ =~= old(w)@ + self.encoding());
    }

    /// Reads magic, version and header from the front of `bytes`.
    pub fn read(bytes: &[u8]) -> (r: Result<ProgHeader, ReadError>)
        ensures
            match r {
                Ok(h) => header_fault(bytes@) is None && decodes_to(bytes@, h),
                Err(e) => header_fault(bytes@) == Some(e),
            },
    {
        if bytes.len() < 4 {
            return Err(ReadError::UnexpectedEof);
        }
        let magic_ok = bytes[0] == ZOKRATES_MAGIC[0] && bytes[1] == ZOKRATES_MAGIC[1] && bytes[2]
            == ZOKRATES_MAGIC[2] && bytes[3] == ZOKRATES_MAGIC[3];
        proof {
            let m = bytes@.subrange(0, 4);
            assert(m[0] == bytes@[0] && m[1] == bytes@[1] && m[2] == bytes@[2] && m[3]
                == bytes@[3]);
            if magic_ok {
                assert(m =~= magic_bytes());
            }
        }
        if !magic_ok {
            return Err(ReadError::InvalidMagic);
        }
        if bytes.len() < 8 {
            return Err(ReadError::UnexpectedEof);
        }
        let version_ok = bytes[4] == FILE_VERSION[0] && bytes[5] == FILE_VERSION[1] && bytes[6]
            == FILE_VERSION[2] && bytes[7] == FILE_VERSION[3];
        proof {
            let v = bytes@.subrange(4, 8);
            assert(v[0] == bytes@[4] && v[1] == bytes@[5] && v[2] == bytes@[6] && v[3]
                == bytes@[7]);
            if version_ok {
                assert(v =~= version_bytes());
            }
        }
        if !version_ok {
            return Err(ReadError::InvalidVersion);
        }
        if bytes.len() < 20 {
            return Err(ReadError::UnexpectedEof);
        }
        let curve_id: [u8; 4] = [bytes[8], bytes[9], bytes[10], bytes[11]];
        assert(curve_id@ =~= bytes@.subrange(8, 12));
        let constraint_count = Self::read_u32_at(bytes, 12);
        let return_count = Self::read_u32_at(bytes, 16);
        let parameters = Self::read_section(bytes, 20)?;
        let constraints = Self::read_section(bytes, 40)?;
        let solvers = Self::read_section(bytes, 60)?;
        let module_map = Self::read_section(bytes, 80)?;
        let sections: [Section; 4] = [parameters, constraints, solvers, module_map];
        assert(sections@ =~= seq![
            section_at(bytes@, 20),
            section_at(bytes@, 40),
            section_at(bytes@, 60),
            section_at(bytes@, 80),
        ]);
        Ok(ProgHeader { curve_id, constraint_count, return_count, sections })
    }

    fn read_u32_at(bytes: &[u8], at: usize) -> (n: u32)
        requires
            at + 4 <= bytes@.len(),
        ensures
            n == spec_u32_from_le_bytes(bytes@.subrange(at as int, at + 4)),
    {
        let len = bytes.len();
        assert(at + 4 <= len);
        let part = slice_subrange(bytes, at, at + 4);
        assert(part@.subrange(0, 4) =~= part@);
        read_u32_le(part)
    }

    fn read_u64_at(bytes: &[u8], at: usize) -> (n: u64)
        requires
            at + 8 <= bytes@.len(),
        ensures
            n == spec_u64_from_le_bytes(bytes@.subrange(at as int, at + 8)),
    {
        let len = bytes.len();
        assert(at + 8 <= len);
        let part = slice_subrange(bytes, at, at + 8);
        assert(part@.subrange(0, 8) =~= part@);
        read_u64_le(part)
    }

    /// Reads the table entry at `at`.
    fn read_section(bytes: &[u8], at: usize) -> (r: Result<Section, ReadError>)
        requires
            at <= 80,
        ensures
            match r {
                Ok(s) => section_fault(bytes@, at as int) is None && s == section_at(
                    bytes@,
                    at as int,
                ),
                Err(e) => section_fault(bytes@, at as int) == Some(e),
            },
    {
        if bytes.len() < at + 4 {
            return Err(ReadError::UnexpectedEof);
        }
        let id = Self::read_u32_at(bytes, at);
        let mut section = match SectionType::try_from(id) {
            Ok(ty) => Section::new(ty),
            Err(_) => {
                return Err(ReadError::InvalidSectionType);
            },
        };
        if bytes.len() < at + 20 {
            return Err(ReadError::UnexpectedEof);
        }
        section.set_offset(Self::read_u64_at(bytes, at + 4));
        section.set_length(Self::read_u64_at(bytes, at + 12));
        Ok(section)
    }
}

/// A table entry written at `at` is read back unchanged.
proof fn lemma_section_round_trip(bytes: Seq<u8>, at: int, s: Section)
    requires
        0 <= at,
        at + 20 <= bytes.len(),
        bytes.subrange(at, at + 20) == s.encoding(),
    ensures
        section_fault(bytes, at) is None,
        section_at(bytes, at) == s,
{
    lemma_auto_spec_u32_to_from_le_bytes();
    lemma_auto_spec_u64_to_from_le_bytes();
    let e = bytes.subrange(at, at + 20);
    let tag = spec_u32_to_le_bytes(s.ty.spec_tag());
    let off = spec_u64_to_le_bytes(s.offset);
    let len = spec_u64_to_le_bytes(s.length);
    assert(tag.len() == 4 && off.len() == 8 && len.len() == 8);
    assert(bytes.subrange(at, at + 4) =~= e.subrange(0, 4));
    assert(e.subrange(0, 4) =~= tag);
    assert(bytes.subrange(at + 4, at + 12) =~= e.subrange(4, 12));
    assert(e.subrange(4, 12) =~= off);
    assert(bytes.subrange(at + 12, at + 20) =~= e.subrange(12, 20));
    assert(e.subrange(12, 20) =~= len);
}

/// The length of an encoded header is `HEADER_LEN`.
pub proof fn lemma_header_len(h: ProgHeader)
    ensures
        h.encoding().len() == HEADER_LEN,
        h.sections@.len() == 4,
{
    lemma_auto_spec_u32_to_from_le_bytes();
    lemma_auto_spec_u64_to_from_le_bytes();
}

/// A header's fields written behind magic and version are read back as
/// they were, whatever bytes follow.
pub proof fn lemma_header_fields_round_trip(
    curve_id: Seq<u8>,
    constraint_count: u32,
    return_count: u32,
    sections: Seq<Section>,
    rest: Seq<u8>,
)
    requires
        curve_id.len() == 4,
        sections.len() == 4,
    ensures
        ({
            let bytes = magic_bytes() + version_bytes() + header_encoding(
                curve_id,
                constraint_count,
                return_count,
                sections,
            ) + rest;
            &&& header_fault(bytes) is None
            &&& bytes.len() == 100 + rest.len()
            &&& bytes.subrange(8, 12) == curve_id
            &&& spec_u32_from_le_bytes(bytes.subrange(12, 16)) == constraint_count
            &&& spec_u32_from_le_bytes(bytes.subrange(16, 20)) == return_count
            &&& section_at(bytes, 20) == sections[0]
            &&& section_at(bytes, 40) == sections[1]
            &&& section_at(bytes, 60) == sections[2]
            &&& section_at(bytes, 80) == sections[3]
        }),
{
    lemma_auto_spec_u32_to_from_le_bytes();
    lemma_auto_spec_u64_to_from_le_bytes();
    let e = header_encoding(curve_id, constraint_count, return_count, sections);
    let bytes = magic_bytes() + version_bytes() + e + rest;
    assert(e.len() == 92);
    assert(bytes.subrange(0, 4) =~= magic_bytes());
    assert(bytes.subrange(4, 8) =~= version_bytes());
    assert(bytes.subrange(8, 100) =~= e);
    assert(bytes.subrange(8, 12) =~= e.subrange(0, 4));
    assert(e.subrange(0, 4) =~= curve_id);
    assert(bytes.subrange(12, 16) =~= e.subrange(4, 8));
    assert(e.subrange(4, 8) =~= spec_u32_to_le_bytes(constraint_count));
    assert(bytes.subrange(16, 20) =~= e.subrange(8, 12));
    assert(e.subrange(8, 12) =~= spec_u32_to_le_bytes(return_count));
    assert(bytes.subrange(20, 40) =~= e.subrange(12, 32));
    assert(e.subrange(12, 32) =~= sections[0].encoding());
    assert(bytes.subrange(40, 60) =~= e.subrange(32, 52));
    assert(e.subrange(32, 52) =~= sections[1].encoding());
    assert(bytes.subrange(60, 80) =~= e.subrange(52, 72));
    assert(e.subrange(52, 72) =~= sections[2].encoding());
    assert(bytes.subrange(80, 100) =~= e.subrange(72, 92));
    assert(e.subrange(72, 92) =~= sections[3].encoding());
    lemma_section_round_trip(bytes, 20, sections[0]);
    lemma_section_round_trip(bytes, 40, sections[1]);
    lemma_section_round_trip(bytes, 60, sections[2]);
    lemma_section_round_trip(bytes, 80, sections[3]);
}

/// A header written behind magic and version is read back as it was,
/// whatever bytes follow it.
pub proof fn lemma_header_round_trip(h: ProgHeader, rest: Seq<u8>)
    ensures
        header_fault(magic_bytes() + version_bytes() + h.encoding() + rest) is None,
        decodes_to(magic_bytes() + version_bytes() + h.encoding() + rest, h),
{
    lemma_header_fields_round_trip(
        h.curve_id@,
        h.constraint_count,
        h.return_count,
        h.sections@,
        rest,
    );
    let bytes = magic_bytes() + version_bytes() + h.encoding() + rest;
    assert(h.sections@ =~= seq![
        section_at(bytes, 20),
        section_at(bytes, 40),
        section_at(bytes, 60),
        section_at(bytes, 80),
    ]);
}

/// Changing any one byte of magic or version makes the read fail with a
/// format error; putting the byte back restores the input.
pub proof fn lemma_magic_version_guard(bytes: Seq<u8>, i: int, b: u8)
    requires
        bytes.len() >= 8,
        bytes.subrange(0, 4) == magic_bytes(),
        bytes.subrange(4, 8) == version_bytes(),
        0 <= i < 8,
        b != bytes[i],
    ensures
        header_fault(bytes.update(i, b)) matches Some(e) && e.spec_is_invalid_format(),
        bytes.update(i, b).update(i, bytes[i]) == bytes,
{
    let changed = bytes.update(i, b);
    assert(changed.update(i, bytes[i]) =~= bytes);
    if i < 4 {
        assert(changed.subrange(0, 4)[i] == b);
        assert(bytes.subrange(0, 4)[i] == bytes[i]);
    } else {
        assert(changed.subrange(0, 4) =~= bytes.subrange(0, 4));
        assert(changed.subrange(4, 8)[i - 4] == b);
        assert(bytes.subrange(4, 8)[i - 4] == bytes[i]);
    }
}

} // verus!
