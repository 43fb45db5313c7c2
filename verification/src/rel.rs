//! The relocatable-module format: a fixed header, a section table, and
//! per-module relocation runs encoded as deltas.

use vstd::prelude::*;

use crate::bytes::push_u8;
use crate::bytes::push_u16_be;
use crate::bytes::push_u32_be;
use crate::bytes::read_u8;
use crate::bytes::read_u16_be;
use crate::bytes::read_u32_be;
use crate::bytes::spec_u32_at;

verus! {

/// Failures while reading a module.
#[derive(Debug, Clone, Copy, PartialEq, Eq)]
pub enum RelReadError {
    Truncated { pos: u64 },
    OobRead { subject: &'static str, position: u32 },
    UnknownRelocation { value: u8, pos: u64 },
}

impl RelReadError {
    /// A short human-readable description of the failure.
    pub fn message(&self) -> (r: &'static str)
    {
        match self {
            RelReadError::Truncated { .. } => "unexpected end of data",
            RelReadError::OobRead { subject, .. } => subject,
            RelReadError::UnknownRelocation { .. } => "unknown relocation kind",
        }
    }
}

/// The window `[offset, offset+length)` of `bytes`, or an out-of-bounds
/// error naming the subject.
pub fn try_read_data<'a>(bytes: &'a [u8], subject: &'static str, offset: u32, length: u32) -> (r:
    Result<&'a [u8], RelReadError>)
    ensures
        r matches Ok(s) ==> offset + length <= bytes@.len() && s@ == bytes@.subrange(
            offset as int,
            offset as int + length as int,
        ),
        r is Err <==> offset + length > bytes@.len(),
{
    let n = bytes.len();
    assert(bytes@.len() <= usize::MAX);
    if offset as u64 > n as u64 || length as u64 > n as u64 - offset as u64 {
        return Err(RelReadError::OobRead { subject, position: offset });
    }
    Ok(vstd::slice::slice_subrange(bytes, offset as usize, offset as usize + length as usize))
}

/// The relocation kinds the format uses; the three `Dolphin` kinds structure
/// the relocation stream itself.
#[derive(Debug, Clone, Copy, PartialEq, Eq, Structural)]
#[allow(non_camel_case_types)]
pub enum RelocationKind {
    R_PPC_NONE,
    R_PPC_ADDR32,
    R_PPC_ADDR24,
    R_PPC_ADDR16,
    R_PPC_ADDR16_LO,
    R_PPC_ADDR16_HI,
    R_PPC_ADDR16_HA,
    R_PPC_ADDR14,
    R_PPC_ADDR14_BRTAKEN,
    R_PPC_ADDR14_BRNTAKEN,
    R_PPC_REL24,
    R_PPC_REL14,
    R_PPC_REL14_BRTAKEN,
    R_PPC_REL14_BRNTAKEN,
    R_DOLPHIN_NOP,
    R_DOLPHIN_SECTION,
    R_DOLPHIN_END,
    R_DOLPHIN_MRKREF,
}

/// The byte value of a relocation kind.
pub open spec fn spec_kind_byte(k: RelocationKind) -> u8 {
    match k {
        RelocationKind::R_PPC_NONE => 0x00,
        RelocationKind::R_PPC_ADDR32 => 0x01,
        RelocationKind::R_PPC_ADDR24 => 0x02,
        RelocationKind::R_PPC_ADDR16 => 0x03,
        RelocationKind::R_PPC_ADDR16_LO => 0x04,
        RelocationKind::R_PPC_ADDR16_HI => 0x05,
        RelocationKind::R_PPC_ADDR16_HA => 0x06,
        RelocationKind::R_PPC_ADDR14 => 0x07,
        RelocationKind::R_PPC_ADDR14_BRTAKEN => 0x08,
        RelocationKind::R_PPC_ADDR14_BRNTAKEN => 0x09,
        RelocationKind::R_PPC_REL24 => 0x0A,
        RelocationKind::R_PPC_REL14 => 0x0B,
        RelocationKind::R_PPC_REL14_BRTAKEN => 0x0C,
        RelocationKind::R_PPC_REL14_BRNTAKEN => 0x0D,
        RelocationKind::R_DOLPHIN_NOP => 0xC9,
        RelocationKind::R_DOLPHIN_SECTION => 0xCA,
        RelocationKind::R_DOLPHIN_END => 0xCB,
        RelocationKind::R_DOLPHIN_MRKREF => 0xCC,
    }
}

/// The byte value of a relocation kind.
pub fn kind_byte(k: RelocationKind) -> (r: u8)
    ensures
        r == spec_kind_byte(k),
{
    match k {
        RelocationKind::R_PPC_NONE => 0x00,
        RelocationKind::R_PPC_ADDR32 => 0x01,
        RelocationKind::R_PPC_ADDR24 => 0x02,
        RelocationKind::R_PPC_ADDR16 => 0x03,
        RelocationKind::R_PPC_ADDR16_LO => 0x04,
        RelocationKind::R_PPC_ADDR16_HI => 0x05,
        RelocationKind::R_PPC_ADDR16_HA => 0x06,
        RelocationKind::R_PPC_ADDR14 => 0x07,
        RelocationKind::R_PPC_ADDR14_BRTAKEN => 0x08,
        RelocationKind::R_PPC_ADDR14_BRNTAKEN => 0x09,
        RelocationKind::R_PPC_REL24 => 0x0A,
        RelocationKind::R_PPC_REL14 => 0x0B,
        RelocationKind::R_PPC_REL14_BRTAKEN => 0x0C,
        RelocationKind::R_PPC_REL14_BRNTAKEN => 0x0D,
        RelocationKind::R_DOLPHIN_NOP => 0xC9,
        RelocationKind::R_DOLPHIN_SECTION => 0xCA,
        RelocationKind::R_DOLPHIN_END => 0xCB,
        RelocationKind::R_DOLPHIN_MRKREF => 0xCC,
    }
}

/// The relocation kind for a byte, when it names one.
pub fn kind_of_byte(b: u8) -> (r: Option<RelocationKind>)
    ensures
        r matches Some(k) ==> spec_kind_byte(k) == b,
        r is None ==> (b > 0x0D && b != 0xC9 && b != 0xCA && b != 0xCB && b != 0xCC),
{
    if b == 0x00 {
        Some(RelocationKind::R_PPC_NONE)
    } else if b == 0x01 {
        Some(RelocationKind::R_PPC_ADDR32)
    } else if b == 0x02 {
        Some(RelocationKind::R_PPC_ADDR24)
    } else if b == 0x03 {
        Some(RelocationKind::R_PPC_ADDR16)
    } else if b == 0x04 {
        Some(RelocationKind::R_PPC_ADDR16_LO)
    } else if b == 0x05 {
        Some(RelocationKind::R_PPC_ADDR16_HI)
    } else if b == 0x06 {
        Some(RelocationKind::R_PPC_ADDR16_HA)
    } else if b == 0x07 {
        Some(RelocationKind::R_PPC_ADDR14)
    } else if b == 0x08 {
        Some(RelocationKind::R_PPC_ADDR14_BRTAKEN)
    } else if b == 0x09 {
        Some(RelocationKind::R_PPC_ADDR14_BRNTAKEN)
    } else if b == 0x0A {
        Some(RelocationKind::R_PPC_REL24)
    } else if b == 0x0B {
        Some(RelocationKind::R_PPC_REL14)
    } else if b == 0x0C {
        Some(RelocationKind::R_PPC_REL14_BRTAKEN)
    } else if b == 0x0D {
        Some(RelocationKind::R_PPC_REL14_BRNTAKEN)
    } else if b == 0xC9 {
        Some(RelocationKind::R_DOLPHIN_NOP)
    } else if b == 0xCA {
        Some(RelocationKind::R_DOLPHIN_SECTION)
    } else if b == 0xCB {
        Some(RelocationKind::R_DOLPHIN_END)
    } else if b == 0xCC {
        Some(RelocationKind::R_DOLPHIN_MRKREF)
    } else {
        None
    }
}

/// The module header, 0x4C bytes of 32-bit words and four section bytes.
#[derive(Debug, Clone, Copy, PartialEq, Eq)]
pub struct RelHeader {
    pub id: u32,
    pub next: u32,
    pub prev: u32,
    pub num_sections: u32,
    pub section_info_offset: u32,
    pub name_offset: u32,
    pub name_size: u32,
    pub version: u32,
    pub bss_size: u32,
    pub rel_offset: u32,
    pub imp_offset: u32,
    pub imp_size: u32,
    pub prolog_section: u8,
    pub epilog_section: u8,
    pub unresolved_section: u8,
    pub bss_section: u8,
    pub prolog_offset: u32,
    pub epilog_offset: u32,
    pub unresolved_offset: u32,
    pub align: u32,
    pub bss_align: u32,
    pub fix_size: u32,
}

impl RelHeader {
    /// Reads the header at the start of the buffer.
    pub fn decode(data: &[u8]) -> (r: Result<Self, RelReadError>)
        ensures
            r is Err <==> data@.len() < 0x4C,
            r matches Ok(h) ==> h.id == spec_u32_at(data@, 0) && h.num_sections == spec_u32_at(
                data@,
                12,
            ) && h.section_info_offset == spec_u32_at(data@, 16) && h.imp_offset == spec_u32_at(
                data@,
                40,
            ) && h.imp_size == spec_u32_at(data@, 44),
    {
        if data.len() < 0x4C {
            return Err(RelReadError::Truncated { pos: 0 });
        }
        Ok(
            RelHeader {
                id: read_u32_be(data, 0),
                next: read_u32_be(data, 4),
                prev: read_u32_be(data, 8),
                num_sections: read_u32_be(data, 12),
                section_info_offset: read_u32_be(data, 16),
                name_offset: read_u32_be(data, 20),
                name_size: read_u32_be(data, 24),
                version: read_u32_be(data, 28),
                bss_size: read_u32_be(data, 32),
                rel_offset: read_u32_be(data, 36),
                imp_offset: read_u32_be(data, 40),
                imp_size: read_u32_be(data, 44),
                prolog_section: read_u8(data, 48),
                epilog_section: read_u8(data, 49),
                unresolved_section: read_u8(data, 50),
                bss_section: read_u8(data, 51),
                prolog_offset: read_u32_be(data, 52),
                epilog_offset: read_u32_be(data, 56),
                unresolved_offset: read_u32_be(data, 60),
                align: read_u32_be(data, 64),
                bss_align: read_u32_be(data, 68),
                fix_size: read_u32_be(data, 72),
            },
        )
    }

    /// Appends the 0x4C-byte header image.
    pub fn encode_into(&self, out: &mut Vec<u8>)
        ensures
            final(out)@.len() == old(out)@.len() + 0x4C,
    {
        push_u32_be(out, self.id);
        push_u32_be(out, self.next);
        push_u32_be(out, self.prev);
        push_u32_be(out, self.num_sections);
        push_u32_be(out, self.section_info_offset);
        push_u32_be(out, self.name_offset);
        push_u32_be(out, self.name_size);
        push_u32_be(out, self.version);
        push_u32_be(out, self.bss_size);
        push_u32_be(out, self.rel_offset);
        push_u32_be(out, self.imp_offset);
        push_u32_be(out, self.imp_size);
        push_u8(out, self.prolog_section);
        push_u8(out, self.epilog_section);
        push_u8(out, self.unresolved_section);
        push_u8(out, self.bss_section);
        push_u32_be(out, self.prolog_offset);
        push_u32_be(out, self.epilog_offset);
        push_u32_be(out, self.unresolved_offset);
        push_u32_be(out, self.align);
        push_u32_be(out, self.bss_align);
        push_u32_be(out, self.fix_size);
    }
}

/// One relocation against a symbol in another section.
#[derive(Debug, Clone, Copy, PartialEq, Eq)]
pub struct Relocation {
    pub offset: u32,
    pub typ: RelocationKind,
    pub symbol_section: u8,
    pub symbol_offset: u32,
}

/// One section of the module: uninitialized space, an empty slot, or data
/// bytes at an offset (possibly executable).
#[derive(Debug, Clone, PartialEq, Eq)]
pub enum Section {
    Bss { size: u32 },
    Empty,
    Data { data: Vec<u8>, offset: u32, is_executable: bool },
}

impl Section {
    /// Decodes a section-table entry: the offset word carries the executable
    /// flag in its low bit; a zero length marks an empty slot, a zero offset
    /// uninitialized space.
    pub fn read(section_head: &[u8; 8], data: &[u8]) -> (r: Result<Section, RelReadError>)
        requires
            section_head@.len() == 8,
        ensures
            ({
                let off0 = spec_u32_at(section_head@, 0);
                let len0 = spec_u32_at(section_head@, 4);
                let base = off0 & !1u32;
                &&& len0 == 0 ==> r == Ok::<Section, RelReadError>(Section::Empty)
                &&& (len0 != 0 && base == 0) ==> r == Ok::<Section, RelReadError>(
                    Section::Bss { size: len0 },
                )
                &&& (len0 != 0 && base != 0) ==> match r {
                    Ok(s) => s matches Section::Data { data: d, offset, is_executable } && base
                        + len0 <= data@.len() && offset == base && is_executable == ((off0 & 1)
                        != 0) && d@ == data@.subrange(base as int, base as int + len0 as int),
                    Err(_) => base + len0 > data@.len(),
                }
            }),
    {
        let sh = section_head.as_slice();
        let mut offset = read_u32_be(sh, 0);
        let length = read_u32_be(sh, 4);
        if length == 0 {
            return Ok(Section::Empty);
        }
        let is_executable = (offset & 1) != 0;
        offset = offset & !1u32;
        if offset == 0 {
            return Ok(Section::Bss { size: length });
        }
        let section_data = match try_read_data(data, "section data", offset, length) {
            Ok(s) => s,
            Err(e) => {
                return Err(e);
            },
        };
        let mut copied: Vec<u8> = Vec::new();
        let mut i: usize = 0;
        while i < section_data.len()
            invariant
                i <= section_data@.len(),
                copied@ =~= section_data@.subrange(0, i as int),
            decreases section_data@.len() - i,
        {
            copied.push(section_data[i]);
            i = i + 1;
            assert(copied@ =~= section_data@.subrange(0, i as int));
        }
        Ok(Section::Data { data: copied, offset, is_executable })
    }

    /// The section with owned data (sections here always own their bytes).
    pub fn into_owned(self) -> (r: Section)
        ensures
            r == self,
    {
        self
    }

    /// Writes the section's bytes at its recorded offset and its table entry
    /// at `section_info_offset`; `end_offset` reports where the data ended.
    pub fn write(&self, w: &mut Vec<u8>, section_info_offset: u64, end_offset: &mut u64)
        requires
            section_info_offset <= 0xFFFF_FFFF,
    {
        let (first_val, second_val): (u32, u32) = match self {
            Section::Empty => (0, 0),
            Section::Bss { size } => (0, *size),
            Section::Data { data, offset, is_executable } => {
                if data.len() as u64 > 0xFFFF_FFFF {
                    return ;
                }
                put_at(w, *offset as u64, data);
                let mut first_val = *offset;
                if *is_executable {
                    first_val = first_val | 1;
                }
                *end_offset = *offset as u64 + data.len() as u64;
                #[verifier::truncate]
                let dl = data.len() as u32;
                (first_val, dl)
            },
        };
        let mut entry: Vec<u8> = Vec::new();
        push_u32_be(&mut entry, first_val);
        push_u32_be(&mut entry, second_val);
        put_at(w, section_info_offset, &entry);
    }
}

/// Writes `data` at `pos`, growing the buffer with zero filler when it ends
/// before `pos`.
pub fn put_at(w: &mut Vec<u8>, pos: u64, data: &Vec<u8>)
    requires
        pos <= 0xFFFF_FFFF,
        data@.len() <= 0xFFFF_FFFF,
    ensures
        final(w)@.len() >= pos + data@.len(),
        final(w)@.len() >= old(w)@.len(),
        forall|j: int| pos <= j < pos + data@.len() ==> final(w)@[j] == data@[j - pos],
        forall|j: int|
            0 <= j < old(w)@.len() && !(pos <= j < pos + data@.len()) ==> final(w)@[j] == old(
                w,
            )@[j],
        forall|j: int| old(w)@.len() <= j < pos ==> final(w)@[j] == 0,
{
    let ghost pre = w@;
    let need: u64 = pos + data.len() as u64;
    assert(w@.subrange(0, pre.len() as int) =~= pre);
    while (w.len() as u64) < need
        invariant
            need <= 0x2_0000_0000,
            pre.len() <= w@.len(),
            w@.subrange(0, pre.len() as int) =~= pre,
            forall|j: int| pre.len() <= j < w@.len() ==> w@[j] == 0,
        decreases need - w@.len(),
    {
        w.push(0);
        assert(w@.subrange(0, pre.len() as int) =~= pre);
    }
    assert(pos + data@.len() <= w@.len());
    crate::bytes::overwrite_bytes(w, pos, data);
}

/// Walks the section table from index `i` with `after` the end of the last
/// non-empty section: the first section whose range holds `off`, as (index,
/// offset inside it); nothing when no range holds it, when a range passes
/// the 32-bit limit, or when the index passes the 8-bit result field.
pub open spec fn spec_find_section(
    sections: Seq<Section>,
    off: int,
    i: int,
    after: int,
) -> Option<(int, int)>
    decreases sections.len() - i,
{
    if i < 0 || i >= sections.len() {
        None
    } else {
        match sections[i] {
            Section::Empty => spec_find_section(sections, off, i + 1, after),
            Section::Bss { size } => if after + size > 0xFFFF_FFFF {
                None
            } else if after <= off < after + size {
                if i > 255 {
                    None
                } else {
                    Some((i, off - after))
                }
            } else {
                spec_find_section(sections, off, i + 1, after + size)
            },
            Section::Data { data, offset: soff, .. } => if data@.len() > 0xFFFF_FFFF || soff
                + data@.len() > 0xFFFF_FFFF {
                None
            } else if soff <= off < soff + data@.len() {
                if i > 255 {
                    None
                } else {
                    Some((i, off - soff))
                }
            } else {
                spec_find_section(sections, off, i + 1, soff + data@.len())
            },
        }
    }
}

/// A found section's index and inner offset stay within their result field
/// widths.
proof fn lemma_find_section_props(sections: Seq<Section>, off: int, i: int, after: int)
    requires
        0 <= off <= 0xFFFF_FFFF,
        0 <= after,
    ensures
        spec_find_section(sections, off, i, after) matches Some(p) ==> 0 <= p.0 < sections.len()
            && p.0 <= 255 && 0 <= p.1 <= off,
    decreases sections.len() - i,
{
    if 0 <= i < sections.len() {
        match sections[i] {
            Section::Empty => {
                lemma_find_section_props(sections, off, i + 1, after);
            },
            Section::Bss { size } => {
                lemma_find_section_props(sections, off, i + 1, after + size);
            },
            Section::Data { data, offset: soff, .. } => {
                lemma_find_section_props(sections, off, i + 1, soff + data@.len());
            },
        }
    }
}

/// A decoded module: its header, sections, and relocations grouped by the
/// module they are against (ascending), then by local section (ascending).
#[derive(Debug)]
pub struct Rel {
    pub header: RelHeader,
    pub sections: Vec<Section>,
    pub relocations: Vec<(u32, Vec<(u8, Vec<Relocation>)>)>,
}

impl Rel {
    /// Decodes a module: the header, the section table, and every module's
    /// relocation run.
    pub fn from_bytes(bytes: &[u8]) -> (r: Result<Rel, RelReadError>)
        ensures
            r matches Ok(m) ==> bytes@.len() >= 0x4C && m.header.id == spec_u32_at(bytes@, 0),
    {
        let header = match RelHeader::decode(bytes) {
            Ok(h) => h,
            Err(e) => {
                return Err(e);
            },
        };
        let len: u64 = bytes.len() as u64;
        if header.num_sections > 0x0010_0000 {
            return Err(RelReadError::Truncated { pos: 16 });
        }
        let mut sections: Vec<Section> = Vec::new();
        let mut i: u32 = 0;
        while i < header.num_sections
            invariant
                len == bytes@.len(),
                header.num_sections <= 0x0010_0000,
        decreases header.num_sections - i,
        {
            let head_off: u64 = header.section_info_offset as u64 + (i as u64) * 8;
            if head_off > len || len - head_off < 8 {
                return Err(RelReadError::OobRead {
                    subject: "section head",
                    position: header.section_info_offset,
                });
            }
            let head: [u8; 8] = crate::records::read_array(bytes, head_off);
            let s = match Section::read(&head, bytes) {
                Ok(s) => s,
                Err(e) => {
                    return Err(e);
                },
            };
            sections.push(s);
            i = i + 1;
        }
        // relocation runs, one per referenced module
        let mut relocations: Vec<(u32, Vec<(u8, Vec<Relocation>)>)> = Vec::new();
        let mut imp_offset: u64 = header.imp_offset as u64;
        let imp_end: u64 = header.imp_offset as u64 + header.imp_size as u64;
        while imp_offset < imp_end
            invariant
                len == bytes@.len(),
            decreases imp_end - imp_offset,
        {
            if imp_offset > len || len - imp_offset < 8 {
                return Err(RelReadError::Truncated { pos: imp_offset });
            }
            let module_num = read_u32_be(bytes, imp_offset);
            let relocation_data_offset = read_u32_be(bytes, imp_offset + 4);
            imp_offset = if imp_offset + 8 > imp_end {
                imp_end
            } else {
                imp_offset + 8
            };

            let mut current_reloc_offset: u32 = 0;
            let mut section_relocations: Vec<(u8, Vec<Relocation>)> = Vec::new();
            let mut current_section: u8 = 0;
            let mut current_relocs: Vec<Relocation> = Vec::new();
            if relocation_data_offset as u64 > len {
                return Err(RelReadError::Truncated { pos: relocation_data_offset as u64 });
            }
            let mut pos: u64 = relocation_data_offset as u64;
            loop
                invariant
                    len == bytes@.len(),
                    pos <= len + 8,
                decreases len + 8 - pos,
            {
                if pos > len || len - pos < 8 {
                    return Err(RelReadError::Truncated { pos });
                }
                let offset_from_prev = read_u16_be(bytes, pos);
                let typ_byte = read_u8(bytes, pos + 2);
                let section = read_u8(bytes, pos + 3);
                let symbol_offset = read_u32_be(bytes, pos + 4);
                pos = pos + 8;
                let typ = match kind_of_byte(typ_byte) {
                    Some(t) => t,
                    None => {
                        return Err(RelReadError::UnknownRelocation { value: typ_byte, pos });
                    },
                };
                if current_reloc_offset as u64 + offset_from_prev as u64 > 0xFFFF_FFFF {
                    return Err(RelReadError::Truncated { pos });
                }
                current_reloc_offset = current_reloc_offset + offset_from_prev as u32;
                if typ == RelocationKind::R_DOLPHIN_NOP {
                    continue ;
                }
                if typ == RelocationKind::R_DOLPHIN_SECTION {
                    current_reloc_offset = 0;
                    section_relocations = merge_section_relocs(
                        section_relocations,
                        current_section,
                        current_relocs,
                    );
                    current_section = section;
                    current_relocs = Vec::new();
                    continue ;
                }
                if typ == RelocationKind::R_DOLPHIN_END {
                    break ;
                }
                current_relocs.push(
                    Relocation {
                        offset: current_reloc_offset,
                        typ,
                        symbol_section: section,
                        symbol_offset,
                    },
                );
            }
            section_relocations = merge_section_relocs(
                section_relocations,
                current_section,
                current_relocs,
            );
            relocations = merge_module_relocs(relocations, module_num, section_relocations);
        }
        Ok(Rel { header, sections, relocations })
    }

    /// The decoded header.
    pub fn get_header(&self) -> (r: &RelHeader)
        ensures
            *r == self.header,
    {
        &self.header
    }

    /// The relocations, grouped by target module then by local section.
    pub fn get_relocations(&self) -> (r: &Vec<(u32, Vec<(u8, Vec<Relocation>)>)>)
        ensures
            r@ == self.relocations@,
    {
        &self.relocations
    }

    /// The sections in table order.
    pub fn get_sections(&self) -> (r: &Vec<Section>)
        ensures
            r@ == self.sections@,
    {
        &self.sections
    }

    /// Maps an offset into the module image to (section index, offset inside
    /// that section); uninitialized sections count with their sizes.
    pub fn offset_in_rel_to_section_offset(&self, offset: u32) -> (r: Option<(u8, u32)>)
        ensures
            r == match spec_find_section(self.sections@, offset as int, 0, 0) {
                Some(p) => Some(((p.0 as u8), (p.1 as u32))),
                None => None::<(u8, u32)>,
            },
    {
        let ghost full = spec_find_section(self.sections@, offset as int, 0, 0);
        let mut offset_after_last_section: u32 = 0;
        let mut i: usize = 0;
        while i < self.sections.len()
            invariant
                i <= self.sections@.len(),
                full == spec_find_section(self.sections@, offset as int, 0, 0),
                full == spec_find_section(
                    self.sections@,
                    offset as int,
                    i as int,
                    offset_after_last_section as int,
                ),
            decreases self.sections@.len() - i,
        {
            let ghost after0 = offset_after_last_section as int;
            let se = &self.sections[i];
            let se_is_empty = matches!(se, Section::Empty);
            if !se_is_empty {
                let (start, end): (u32, u32) = match se {
                    Section::Bss { size } => {
                        if offset_after_last_section as u64 + *size as u64 > 0xFFFF_FFFF {
                            proof {
                                assert(spec_find_section(
                                    self.sections@,
                                    offset as int,
                                    i as int,
                                    after0,
                                ) is None);
                            }
                            return None;
                        }
                        (offset_after_last_section, offset_after_last_section + *size)
                    },
                    Section::Data { data, offset: soff, .. } => {
                        if data.len() as u64 > 0xFFFF_FFFF || *soff as u64 + data.len() as u64
                            > 0xFFFF_FFFF {
                            proof {
                                assert(spec_find_section(
                                    self.sections@,
                                    offset as int,
                                    i as int,
                                    after0,
                                ) is None);
                            }
                            return None;
                        }
                        #[verifier::truncate]
                        let dl = data.len() as u32;
                        (*soff, *soff + dl)
                    },
                    Section::Empty => (0, 0),
                };
                offset_after_last_section = end;
                if offset >= start && offset < end {
                    if i > 255 {
                        proof {
                            assert(spec_find_section(
                                self.sections@,
                                offset as int,
                                i as int,
                                after0,
                            ) is None);
                        }
                        return None;
                    }
                    let i8v = i as u8;
                    proof {
                        assert(spec_find_section(
                            self.sections@,
                            offset as int,
                            i as int,
                            after0,
                        ) == Some((i as int, offset - start)));
                    }
                    return Some((i8v, offset - start));
                }
                proof {
                    assert(spec_find_section(self.sections@, offset as int, i as int, after0)
                        == spec_find_section(
                        self.sections@,
                        offset as int,
                        i as int + 1,
                        offset_after_last_section as int,
                    ));
                }
            }
            i = i + 1;
        }
        proof {
            assert(spec_find_section(
                self.sections@,
                offset as int,
                i as int,
                offset_after_last_section as int,
            ) is None);
        }
        None
    }

    /// A section's data bytes, when it is a data section.
    pub fn get_section_data<'b>(&'b self, section: u8) -> (r: Option<&'b [u8]>)
        ensures
            r matches Some(b) ==> section < self.sections@.len() && (self.sections@[section as int]
                matches Section::Data { data, .. } && b@ == data@),
            r is Some <==> (section < self.sections@.len() && self.sections@[section as int]
                matches Section::Data { .. }),
    {
        if (section as usize) < self.sections.len() {
            match &self.sections[section as usize] {
                Section::Data { data, .. } => Some(data.as_slice()),
                _ => None,
            }
        } else {
            None
        }
    }

    /// Replaces a data section's bytes, keeping its offset and executable
    /// flag; false when the index does not name a data section.
    pub fn set_section_data(&mut self, section: u8, new_data: Vec<u8>) -> (r: bool)
        ensures
            r <==> (section < old(self).sections@.len() && old(self).sections@[section as int]
                matches Section::Data { .. }),
            r ==> (old(self).sections@[section as int] matches Section::Data {
                offset,
                is_executable,
                ..
            } && final(self).sections@ == old(self).sections@.update(
                section as int,
                Section::Data { data: new_data, offset, is_executable },
            )),
            !r ==> final(self).sections@ == old(self).sections@,
            final(self).header == old(self).header,
            final(self).relocations@ == old(self).relocations@,
    {
        if (section as usize) >= self.sections.len() {
            return false;
        }
        let old_section = self.sections.remove(section as usize);
        match old_section {
            Section::Data { offset, is_executable, .. } => {
                self.sections.insert(
                    section as usize,
                    Section::Data { data: new_data, offset, is_executable },
                );
                assert(self.sections@ =~= old(self).sections@.update(
                    section as int,
                    self.sections@[section as int],
                ));
                true
            },
            other => {
                self.sections.insert(section as usize, other);
                assert(self.sections@ =~= old(self).sections@);
                false
            },
        }
    }

    /// The data bytes of the section containing a module-image offset, from
    /// that offset to the section's end.
    pub fn get_section_data_for_rel_offset<'b>(&'b self, offset: u32) -> (r: Option<&'b [u8]>)
        ensures
            ({
                let f = spec_find_section(self.sections@, offset as int, 0, 0);
                &&& (r is Some <==> (f matches Some(p) && self.sections@[p.0] matches
                    Section::Data { .. } && p.1 < (match self.sections@[p.0] {
                    Section::Data { data, .. } => data@.len() as int,
                    _ => 0,
                })))
                &&& (r matches Some(b) ==> (f matches Some(p) && self.sections@[p.0] matches
                    Section::Data { data, .. } && b@ == data@.subrange(p.1, data@.len() as int)))
            }),
    {
        proof {
            lemma_find_section_props(self.sections@, offset as int, 0, 0);
        }
        let (section, offset_in_section) = match self.offset_in_rel_to_section_offset(offset) {
            Some(p) => p,
            None => {
                return None;
            },
        };
        if (section as usize) < self.sections.len() {
            match &self.sections[section as usize] {
                Section::Data { data, .. } => {
                    if (offset_in_section as usize) < data.len() {
                        Some(
                            vstd::slice::slice_subrange(
                                data.as_slice(),
                                offset_in_section as usize,
                                data.len(),
                            ),
                        )
                    } else {
                        None
                    }
                },
                _ => None,
            }
        } else {
            None
        }
    }

    /// Serializes the module: the section table and data, the import table,
    /// every module's relocation run, and finally the patched header.
    pub fn write(&self) -> (r: Result<Vec<u8>, RelReadError>)
        ensures
            r matches Ok(v) ==> v@.len() >= 0x4C,
    {
        let mut header = self.header;
        header.section_info_offset = 0x4C;
        if self.sections.len() as u64 > 0x0010_0000 || self.relocations.len() as u64 > 0x0010_0000 {
            return Err(RelReadError::Truncated { pos: 0 });
        }
        #[verifier::truncate]
        let ns = self.sections.len() as u32;
        header.num_sections = ns;
        let mut w: Vec<u8> = Vec::new();
        let mut section_offset: u64 = (self.sections.len() as u64) * 8 + 0x4C;
        let mut i: usize = 0;
        while i < self.sections.len()
            invariant
                self.sections@.len() <= 0x0010_0000,
            decreases self.sections@.len() - i,
        {
            self.sections[i].write(&mut w, (i as u64) * 8 + 0x4C, &mut section_offset);
            i = i + 1;
        }
        if section_offset > 0xFFFF_FFFF {
            return Err(RelReadError::Truncated { pos: section_offset });
        }
        #[verifier::truncate]
        let so32 = section_offset as u32;
        header.imp_offset = so32;
        #[verifier::truncate]
        let imp_size = (self.relocations.len() as u64 * 8) as u32;
        header.imp_size = imp_size;
        let mut imp_entry_offset: u64 = header.imp_offset as u64;
        let mut relocations_offset: u64 = imp_entry_offset + imp_size as u64;
        header.rel_offset = if relocations_offset <= 0xFFFF_FFFF {
            #[verifier::truncate]
            let ro = relocations_offset as u32;
            ro
        } else {
            0
        };
        let mut i: usize = 0;
        while i < self.relocations.len()
            decreases self.relocations@.len() - i,
        {
            let module_id = self.relocations[i].0;
            if module_id != self.header.id && module_id != 0 {
                match write_relocations_for_module(
                    &self.relocations[i].1,
                    module_id,
                    &mut imp_entry_offset,
                    &mut relocations_offset,
                    &mut w,
                ) {
                    Ok(()) => {},
                    Err(e) => {
                        return Err(e);
                    },
                }
            }
            i = i + 1;
        }
        // modules resolved at load time come last; the fixed prefix ends here
        header.fix_size = if relocations_offset <= 0xFFFF_FFFF {
            #[verifier::truncate]
            let fs = relocations_offset as u32;
            fs
        } else {
            0
        };
        let mut i: usize = 0;
        while i < self.relocations.len()
            decreases self.relocations@.len() - i,
        {
            let module_id = self.relocations[i].0;
            if module_id == self.header.id && module_id != 0 {
                match write_relocations_for_module(
                    &self.relocations[i].1,
                    module_id,
                    &mut imp_entry_offset,
                    &mut relocations_offset,
                    &mut w,
                ) {
                    Ok(()) => {},
                    Err(e) => {
                        return Err(e);
                    },
                }
            }
            i = i + 1;
        }
        let mut i: usize = 0;
        while i < self.relocations.len()
            decreases self.relocations@.len() - i,
        {
            let module_id = self.relocations[i].0;
            if module_id == 0 {
                match write_relocations_for_module(
                    &self.relocations[i].1,
                    module_id,
                    &mut imp_entry_offset,
                    &mut relocations_offset,
                    &mut w,
                ) {
                    Ok(()) => {},
                    Err(e) => {
                        return Err(e);
                    },
                }
            }
            i = i + 1;
        }
        let mut hdr: Vec<u8> = Vec::new();
        header.encode_into(&mut hdr);
        put_at(&mut w, 0, &hdr);
        Ok(w)
    }
}

/// Keeps the per-section relocation groups sorted by section: an empty run
/// is dropped, an existing section's run is extended.
fn merge_section_relocs(
    groups: Vec<(u8, Vec<Relocation>)>,
    section: u8,
    relocs: Vec<Relocation>,
) -> (r: Vec<(u8, Vec<Relocation>)>)
{
    let mut groups = groups;
    if relocs.len() == 0 {
        return groups;
    }
    let mut at: usize = 0;
    while at < groups.len() && groups[at].0 < section
        invariant
            at <= groups@.len(),
        decreases groups@.len() - at,
    {
        at = at + 1;
    }
    if at < groups.len() && groups[at].0 == section {
        let mut pair = groups.remove(at);
        let mut relocs = relocs;
        pair.1.append(&mut relocs);
        groups.insert(at, pair);
    } else {
        groups.insert(at, (section, relocs));
    }
    groups
}

/// Keeps the per-module relocation groups sorted by module id; a later run
/// for the same module replaces the earlier one.
fn merge_module_relocs(
    groups: Vec<(u32, Vec<(u8, Vec<Relocation>)>)>,
    module: u32,
    relocs: Vec<(u8, Vec<Relocation>)>,
) -> (r: Vec<(u32, Vec<(u8, Vec<Relocation>)>)>)
{
    let mut groups = groups;
    let mut at: usize = 0;
    while at < groups.len() && groups[at].0 < module
        invariant
            at <= groups@.len(),
        decreases groups@.len() - at,
    {
        at = at + 1;
    }
    if at < groups.len() && groups[at].0 == module {
        let _ = groups.remove(at);
    }
    groups.insert(at, (module, relocs));
    groups
}

/// Writes one module's import-table entry and its delta-encoded relocation
/// run, advancing both running offsets.
fn write_relocations_for_module(
    relocations: &Vec<(u8, Vec<Relocation>)>,
    module_id: u32,
    imp_entry_offset: &mut u64,
    relocations_offset: &mut u64,
    w: &mut Vec<u8>,
) -> (r: Result<(), RelReadError>)
    ensures
        r is Ok ==> *final(imp_entry_offset) == *old(imp_entry_offset) + 8,
{
    if *imp_entry_offset > 0xFFFF_FFF0 || *relocations_offset > 0xFFFF_FFF0 {
        return Err(RelReadError::Truncated { pos: *imp_entry_offset });
    }
    let mut imp: Vec<u8> = Vec::new();
    push_u32_be(&mut imp, module_id);
    #[verifier::truncate]
    let ro32 = *relocations_offset as u32;
    push_u32_be(&mut imp, ro32);
    put_at(w, *imp_entry_offset, &imp);
    *imp_entry_offset = *imp_entry_offset + 8;
    let mut run: Vec<u8> = Vec::new();
    let mut gi: usize = 0;
    while gi < relocations.len()
        decreases relocations@.len() - gi,
    {
        let section = relocations[gi].0;
        let relocs = &relocations[gi].1;
        if relocs.len() > 0 {
            // switch the decoder to this section
            push_u16_be(&mut run, 0);
            push_u8(&mut run, kind_byte(RelocationKind::R_DOLPHIN_SECTION));
            push_u8(&mut run, section);
            push_u32_be(&mut run, 0);
            let mut current_section_offset: u32 = 0;
            let mut ri: usize = 0;
            while ri < relocs.len()
                invariant
                    run@.len() >= 0,
                decreases relocs@.len() - ri,
            {
                let reloc = &relocs[ri];
                let mut guard: u32 = 0;
                while reloc.offset >= current_section_offset && reloc.offset
                    - current_section_offset > 0xFFFF && guard < 0x1_0000
                    invariant
                        guard <= 0x1_0000,
                    decreases 0x1_0000 - guard,
                {
                    push_u16_be(&mut run, 0xFFFF);
                    push_u8(&mut run, kind_byte(RelocationKind::R_DOLPHIN_NOP));
                    push_u8(&mut run, 0);
                    push_u32_be(&mut run, 0);
                    if current_section_offset as u64 + 0xFFFF <= 0xFFFF_FFFF {
                        current_section_offset = current_section_offset + 0xFFFF;
                    }
                    guard = guard + 1;
                }
                if reloc.offset < current_section_offset {
                    return Err(RelReadError::OobRead {
                        subject: "relocation offsets not ascending",
                        position: reloc.offset,
                    });
                }
                #[verifier::truncate]
                let delta = (reloc.offset - current_section_offset) as u16;
                push_u16_be(&mut run, delta);
                push_u8(&mut run, kind_byte(reloc.typ));
                push_u8(&mut run, reloc.symbol_section);
                push_u32_be(&mut run, reloc.symbol_offset);
                current_section_offset = reloc.offset;
                ri = ri + 1;
            }
        }
        gi = gi + 1;
    }
    // terminate the run
    push_u16_be(&mut run, 0);
    push_u8(&mut run, kind_byte(RelocationKind::R_DOLPHIN_END));
    push_u8(&mut run, 0);
    push_u32_be(&mut run, 0);
    if run.len() as u64 > 0xFFFF_FFFF {
        return Err(RelReadError::Truncated { pos: *relocations_offset });
    }
    put_at(w, *relocations_offset, &run);
    *relocations_offset = *relocations_offset + run.len() as u64;
    Ok(())
}

} // verus!
