//! The scene container codec: a tag-addressed, offset-indexed binary format.
//!
//! Reading walks a table of 12-byte section headers, dispatches on each 4-byte
//! tag, and recurses into the 29 nested layer variants. Writing emits the
//! populated sections in one canonical order, recomputing every offset from
//! the emission position, so that an unmodified model reproduces its source
//! bytes exactly. The writer's output is pinned down byte for byte by the
//! `spec_write_*` functions below.

use vstd::prelude::*;

use crate::bytes::spec_u16_be;
use crate::bytes::spec_u32_be;
use crate::bytes::spec_pad_to;
use crate::encoding::sjis_enc;
use crate::records::AREA;
use crate::records::BPNT;
use crate::records::CAM;
use crate::records::EVNT;
use crate::records::FILE;
use crate::records::LYLT;
use crate::records::LYSE;
use crate::records::OBJ;
use crate::records::PATH;
use crate::records::PCAM;
use crate::records::PLY;
use crate::records::PNT;
use crate::records::SCEN;
use crate::records::SOBJ;
use crate::records::SPNT;
use crate::records::SPTH;
use crate::records::STIF;
use crate::records::SceneRecord;
use crate::records::lemma_encode_seq_len;
use crate::records::spec_encode_seq;

verus! {

pub const TAG_FILE: u32 = 0x46494c45;
pub const TAG_SCEN: u32 = 0x5343454e;
pub const TAG_CAM: u32 = 0x43414d20;
pub const TAG_PATH: u32 = 0x50415448;
pub const TAG_PNT: u32 = 0x504e5420;
pub const TAG_SPNT: u32 = 0x53504e54;
pub const TAG_BPNT: u32 = 0x42504e54;
pub const TAG_SPTH: u32 = 0x53505448;
pub const TAG_AREA: u32 = 0x41524541;
pub const TAG_EVNT: u32 = 0x45564e54;
pub const TAG_PLY: u32 = 0x504c5920;
pub const TAG_OBJS: u32 = 0x4f424a53;
pub const TAG_OBJ: u32 = 0x4f424a20;
pub const TAG_SOBS: u32 = 0x534f4253;
pub const TAG_SOBJ: u32 = 0x534f424a;
pub const TAG_STAS: u32 = 0x53544153;
pub const TAG_STAG: u32 = 0x53544147;
pub const TAG_SNDT: u32 = 0x534e4454;
pub const TAG_DOOR: u32 = 0x444f4f52;
pub const TAG_LYSE: u32 = 0x4c595345;
pub const TAG_STIF: u32 = 0x53544946;
pub const TAG_PCAM: u32 = 0x5043414d;
pub const TAG_LYLT: u32 = 0x4c594c54;
pub const TAG_LAY: u32 = 0x4c415920;
pub const TAG_ARCN: u32 = 0x4152434e;
pub const TAG_OBJN: u32 = 0x4f424a4e;
pub const TAG_RMPL: u32 = 0x524d504c;

/// The number of layer variants every layer section carries.
pub const LAYER_COUNT: u16 = 29;

/// A per-room index entry: a room id and its ordered 16-bit values.
#[derive(Debug, Clone, PartialEq, Eq)]
pub struct RMPL {
    pub room: u8,
    pub data: Vec<u16>,
}

/// The aggregate scene model: one instance per stage- or room-level blob, and
/// one per layer (the `lay` field holds the 29 nested variants; nesting depth
/// is exactly one).
#[derive(Debug)]
pub struct BzsEntries {
    pub file: Option<FILE>,
    pub stif: Option<STIF>,
    pub arcn: Vec<String>,
    pub objn: Vec<String>,
    pub lylt: Vec<LYLT>,
    pub lyse: Vec<LYSE>,
    pub scen: Vec<SCEN>,
    pub cam: Vec<CAM>,
    pub pcam: Vec<PCAM>,
    pub path: Vec<PATH>,
    pub pnt: Vec<PNT>,
    pub spnt: Vec<SPNT>,
    pub bpnt: Vec<BPNT>,
    pub spth: Vec<SPTH>,
    pub area: Vec<AREA>,
    pub evnt: Vec<EVNT>,
    pub ply: Vec<PLY>,
    pub rmpl: Vec<RMPL>,
    pub objs: Vec<OBJ>,
    pub obj: Vec<OBJ>,
    pub door: Vec<OBJ>,
    pub sobj: Vec<SOBJ>,
    pub sobs: Vec<SOBJ>,
    pub stas: Vec<SOBJ>,
    pub stag: Vec<SOBJ>,
    pub sndt: Vec<SOBJ>,
    pub lay: Vec<BzsEntries>,
}

/// Typed, non-recoverable codec failures, each carrying enough context to
/// locate the fault.
#[derive(Debug, Clone, Copy, PartialEq, Eq)]
pub enum BzsError {
    /// A read would pass the end of the buffer.
    Truncated { pos: u64 },
    /// A singleton or layer section declared an entry count its tag forbids.
    WrongEntryCount { tag: u32, count: u16, pos: u64 },
    /// A header tag outside the closed dispatch table.
    UnknownTag { tag: u32, pos: u64 },
    /// A tag that already had a section in the same header table.
    DuplicateTag { tag: u32, pos: u64 },
    /// A layer section below the permitted nesting depth of one.
    NestedLayers { pos: u64 },
    /// Text that the legacy encoding cannot produce or consume.
    StringEncoding { pos: u64 },
    /// A count or offset that does not fit its on-disc field width.
    TooLarge { pos: u64 },
}

impl BzsError {
    /// A short human-readable description of the failure.
    pub fn message(&self) -> (r: &'static str)
    {
        match self {
            BzsError::Truncated { .. } => "unexpected end of data",
            BzsError::WrongEntryCount { .. } => "wrong entry count for tag",
            BzsError::UnknownTag { .. } => "unknown section tag",
            BzsError::DuplicateTag { .. } => "tag appears in two section headers",
            BzsError::NestedLayers { .. } => "layers nested too deep",
            BzsError::StringEncoding { .. } => "text not representable in the legacy encoding",
            BzsError::TooLarge { .. } => "value does not fit its field width",
        }
    }
}

/// The section kinds of the container, one per tag.
#[derive(Debug, Clone, Copy, PartialEq, Eq)]
pub enum SectionKind {
    Lyse,
    Stif,
    Objn,
    Arcn,
    File,
    Scen,
    Rmpl,
    Cam,
    Pcam,
    Path,
    Pnt,
    Spnt,
    Bpnt,
    Spth,
    Area,
    Evnt,
    Ply,
    Objs,
    Obj,
    Sobj,
    Sobs,
    Door,
    Stas,
    Stag,
    Sndt,
    Lylt,
    Lay,
}

/// The 4-byte tag of a section kind.
pub open spec fn spec_tag_of(k: SectionKind) -> u32 {
    match k {
        SectionKind::Lyse => TAG_LYSE,
        SectionKind::Stif => TAG_STIF,
        SectionKind::Objn => TAG_OBJN,
        SectionKind::Arcn => TAG_ARCN,
        SectionKind::File => TAG_FILE,
        SectionKind::Scen => TAG_SCEN,
        SectionKind::Rmpl => TAG_RMPL,
        SectionKind::Cam => TAG_CAM,
        SectionKind::Pcam => TAG_PCAM,
        SectionKind::Path => TAG_PATH,
        SectionKind::Pnt => TAG_PNT,
        SectionKind::Spnt => TAG_SPNT,
        SectionKind::Bpnt => TAG_BPNT,
        SectionKind::Spth => TAG_SPTH,
        SectionKind::Area => TAG_AREA,
        SectionKind::Evnt => TAG_EVNT,
        SectionKind::Ply => TAG_PLY,
        SectionKind::Objs => TAG_OBJS,
        SectionKind::Obj => TAG_OBJ,
        SectionKind::Sobj => TAG_SOBJ,
        SectionKind::Sobs => TAG_SOBS,
        SectionKind::Door => TAG_DOOR,
        SectionKind::Stas => TAG_STAS,
        SectionKind::Stag => TAG_STAG,
        SectionKind::Sndt => TAG_SNDT,
        SectionKind::Lylt => TAG_LYLT,
        SectionKind::Lay => TAG_LAY,
    }
}

/// The canonical emission order of the writer: a fixed total order over the
/// section kinds, reproduced from the vanilla files.
pub open spec fn canonical_order() -> Seq<SectionKind> {
    seq![
        SectionKind::Lyse,
        SectionKind::Stif,
        SectionKind::Objn,
        SectionKind::Arcn,
        SectionKind::File,
        SectionKind::Scen,
        SectionKind::Rmpl,
        SectionKind::Cam,
        SectionKind::Pcam,
        SectionKind::Path,
        SectionKind::Pnt,
        SectionKind::Spnt,
        SectionKind::Bpnt,
        SectionKind::Spth,
        SectionKind::Area,
        SectionKind::Evnt,
        SectionKind::Ply,
        SectionKind::Objs,
        SectionKind::Obj,
        SectionKind::Sobj,
        SectionKind::Sobs,
        SectionKind::Door,
        SectionKind::Stas,
        SectionKind::Stag,
        SectionKind::Sndt,
        SectionKind::Lylt,
        SectionKind::Lay,
    ]
}

/// The number of elements the model holds for a section kind.
pub open spec fn section_count(e: BzsEntries, k: SectionKind) -> nat {
    match k {
        SectionKind::Lyse => e.lyse@.len(),
        SectionKind::Stif => if e.stif is Some {
            1
        } else {
            0
        },
        SectionKind::Objn => e.objn@.len(),
        SectionKind::Arcn => e.arcn@.len(),
        SectionKind::File => if e.file is Some {
            1
        } else {
            0
        },
        SectionKind::Scen => e.scen@.len(),
        SectionKind::Rmpl => e.rmpl@.len(),
        SectionKind::Cam => e.cam@.len(),
        SectionKind::Pcam => e.pcam@.len(),
        SectionKind::Path => e.path@.len(),
        SectionKind::Pnt => e.pnt@.len(),
        SectionKind::Spnt => e.spnt@.len(),
        SectionKind::Bpnt => e.bpnt@.len(),
        SectionKind::Spth => e.spth@.len(),
        SectionKind::Area => e.area@.len(),
        SectionKind::Evnt => e.evnt@.len(),
        SectionKind::Ply => e.ply@.len(),
        SectionKind::Objs => e.objs@.len(),
        SectionKind::Obj => e.obj@.len(),
        SectionKind::Sobj => e.sobj@.len(),
        SectionKind::Sobs => e.sobs@.len(),
        SectionKind::Door => e.door@.len(),
        SectionKind::Stas => e.stas@.len(),
        SectionKind::Stag => e.stag@.len(),
        SectionKind::Sndt => e.sndt@.len(),
        SectionKind::Lylt => e.lylt@.len(),
        SectionKind::Lay => e.lay@.len(),
    }
}

/// A section is emitted only when the model holds something for it.
pub open spec fn populated(e: BzsEntries, k: SectionKind) -> bool {
    section_count(e, k) > 0
}

/// How many of the kinds from index `i` on are populated.
pub open spec fn count_from(e: BzsEntries, kinds: Seq<SectionKind>, i: int) -> nat
    decreases kinds.len() - i,
{
    if i < 0 || i >= kinds.len() {
        0
    } else {
        (if populated(e, kinds[i]) {
            1nat
        } else {
            0nat
        }) + count_from(e, kinds, i + 1)
    }
}

/// The number of section headers the model produces.
pub open spec fn spec_count(e: BzsEntries) -> nat {
    count_from(e, canonical_order(), 0)
}

/// The Shift-JIS bytes of a string, when every character is representable.
pub open spec fn enc_str(s: Seq<char>) -> Seq<u8> {
    match sjis_enc(s) {
        Some(e) => e,
        None => seq![],
    }
}

/// Every string of the table is representable in the legacy encoding.
pub open spec fn strs_encodable(strs: Seq<String>) -> bool {
    forall|i: int| 0 <= i < strs.len() ==> sjis_enc(#[trigger] strs[i]@) is Some
}

/// The string blobs of the first `i` strings: each string's encoded bytes
/// followed by a nul terminator, concatenated in table order.
pub open spec fn strtab_blob(strs: Seq<String>, i: int) -> Seq<u8>
    decreases i,
{
    if i <= 0 {
        seq![]
    } else {
        strtab_blob(strs, i - 1) + enc_str(strs[i - 1]@) + seq![0u8]
    }
}

/// The 16-bit offset array of the table: entry `j` is the running byte
/// position of string `j`, relative to the table's start.
pub open spec fn strtab_offsets(strs: Seq<String>, i: int) -> Seq<u8>
    decreases i,
{
    if i <= 0 {
        seq![]
    } else {
        strtab_offsets(strs, i - 1) + spec_u16_be(
            (2 * strs.len() + strtab_blob(strs, i - 1).len()) as u16,
        )
    }
}

/// The full string-table payload at absolute position `pos`: the offset
/// array, the string blobs, and 0xFF filler up to the next 4-byte boundary.
pub open spec fn strtab_payload(strs: Seq<String>, pos: int) -> Seq<u8> {
    let body = strtab_offsets(strs, strs.len() as int) + strtab_blob(strs, strs.len() as int);
    body + Seq::new(spec_pad_to(pos + body.len(), 4) as nat, |i: int| 0xFFu8)
}

/// The big-endian images of a room's 16-bit values, concatenated.
pub open spec fn rmpl_values(d: Seq<u16>) -> Seq<u8>
    decreases d.len(),
{
    if d.len() == 0 {
        seq![]
    } else {
        rmpl_values(d.drop_last()) + spec_u16_be(d.last())
    }
}

/// The value blobs of the first `i` room entries, concatenated.
pub open spec fn rmpl_blob(entries: Seq<RMPL>, i: int) -> Seq<u8>
    decreases i,
{
    if i <= 0 {
        seq![]
    } else {
        rmpl_blob(entries, i - 1) + rmpl_values(entries[i - 1].data@)
    }
}

/// The 4-byte entry of room `i`: id, value count, and the offset of its
/// values relative to the entry's own position.
pub open spec fn rmpl_entry(entries: Seq<RMPL>, i: int) -> Seq<u8> {
    seq![entries[i].room, entries[i].data@.len() as u8] + spec_u16_be(
        (4 * entries.len() + rmpl_blob(entries, i).len() - 4 * i) as u16,
    )
}

/// The entry table of the first `i` rooms.
pub open spec fn rmpl_table(entries: Seq<RMPL>, i: int) -> Seq<u8>
    decreases i,
{
    if i <= 0 {
        seq![]
    } else {
        rmpl_table(entries, i - 1) + rmpl_entry(entries, i - 1)
    }
}

/// The full room-index payload at absolute position `pos`: the entry table,
/// the value blobs, and 0xFF filler up to the next 4-byte boundary.
pub open spec fn rmpl_payload(entries: Seq<RMPL>, pos: int) -> Seq<u8> {
    let body = rmpl_table(entries, entries.len() as int) + rmpl_blob(
        entries,
        entries.len() as int,
    );
    body + Seq::new(spec_pad_to(pos + body.len(), 4) as nat, |i: int| 0xFFu8)
}

/// The nested tables of the first `i` layers, concatenated; each is written
/// at the position that follows the layer table and all earlier bodies.
pub open spec fn lay_bodies(lays: Seq<BzsEntries>, pos: int, i: int, depth: nat) -> Seq<u8>
    decreases depth, 0int, i,
    when depth > 0
{
    if i <= 0 {
        seq![]
    } else {
        let prev = lay_bodies(lays, pos, i - 1, depth);
        prev + spec_write_entries(
            lays[i - 1],
            pos + 8 * lays.len() + prev.len(),
            (depth - 1) as nat,
        )
    }
}

/// The 8-byte header of layer `i`: its section count, the 0xFFFF sentinel,
/// and the offset of its nested table relative to this header (zero for an
/// empty layer).
pub open spec fn lay_entry(lays: Seq<BzsEntries>, pos: int, i: int, depth: nat) -> Seq<u8>
    decreases depth, 1int, 0int,
    when depth > 0
{
    spec_u16_be(spec_count(lays[i]) as u16) + spec_u16_be(0xFFFF) + spec_u32_be(
        if spec_count(lays[i]) > 0 {
            (8 * lays.len() + lay_bodies(lays, pos, i, depth).len() - 8 * i) as u32
        } else {
            0
        },
    )
}

/// The layer table of the first `i` layers.
pub open spec fn lay_table(lays: Seq<BzsEntries>, pos: int, i: int, depth: nat) -> Seq<u8>
    decreases depth, 2int, i,
    when depth > 0
{
    if i <= 0 {
        seq![]
    } else {
        lay_table(lays, pos, i - 1, depth) + lay_entry(lays, pos, i - 1, depth)
    }
}

/// The full layer-section payload at absolute position `pos`.
pub open spec fn lay_payload(lays: Seq<BzsEntries>, pos: int, depth: nat) -> Seq<u8>
    decreases depth, 3int, 0int,
{
    if depth == 0 {
        seq![]
    } else {
        lay_table(lays, pos, lays.len() as int, depth) + lay_bodies(
            lays,
            pos,
            lays.len() as int,
            depth,
        )
    }
}

/// The payload bytes of one populated section when its data begins at
/// absolute position `pos`.
pub open spec fn section_payload(e: BzsEntries, k: SectionKind, pos: int, depth: nat) -> Seq<u8>
    decreases depth, 4int, 0int,
{
    match k {
        SectionKind::Lyse => spec_encode_seq(e.lyse@),
        SectionKind::Stif => match e.stif {
            Some(s) => s.spec_encode(),
            None => seq![],
        },
        SectionKind::Objn => strtab_payload(e.objn@, pos),
        SectionKind::Arcn => strtab_payload(e.arcn@, pos),
        SectionKind::File => match e.file {
            Some(f) => f.spec_encode(),
            None => seq![],
        },
        SectionKind::Scen => spec_encode_seq(e.scen@),
        SectionKind::Rmpl => rmpl_payload(e.rmpl@, pos),
        SectionKind::Cam => spec_encode_seq(e.cam@),
        SectionKind::Pcam => spec_encode_seq(e.pcam@),
        SectionKind::Path => spec_encode_seq(e.path@),
        SectionKind::Pnt => spec_encode_seq(e.pnt@),
        SectionKind::Spnt => spec_encode_seq(e.spnt@),
        SectionKind::Bpnt => spec_encode_seq(e.bpnt@),
        SectionKind::Spth => spec_encode_seq(e.spth@),
        SectionKind::Area => spec_encode_seq(e.area@),
        SectionKind::Evnt => spec_encode_seq(e.evnt@),
        SectionKind::Ply => spec_encode_seq(e.ply@),
        SectionKind::Objs => spec_encode_seq(e.objs@),
        SectionKind::Obj => spec_encode_seq(e.obj@),
        SectionKind::Sobj => spec_encode_seq(e.sobj@),
        SectionKind::Sobs => spec_encode_seq(e.sobs@),
        SectionKind::Door => spec_encode_seq(e.door@),
        SectionKind::Stas => spec_encode_seq(e.stas@),
        SectionKind::Stag => spec_encode_seq(e.stag@),
        SectionKind::Sndt => spec_encode_seq(e.sndt@),
        SectionKind::Lylt => spec_encode_seq(e.lylt@),
        SectionKind::Lay => lay_payload(e.lay@, pos, depth),
    }
}

/// A kind whose payload bytes do not depend on the emission position: the
/// fixed-width record sections and the two singletons.
pub open spec fn position_independent_kind(k: SectionKind) -> bool {
    !(k is Objn || k is Arcn || k is Rmpl || k is Lay)
}

/// What the reader put in a model field is exactly what the writer emits for
/// it: for every position-independent section, the re-encoded payload equals
/// the original section's bytes. This is the section-level half of the
/// byte-exact round trip; the padded sections agree up to their position-
/// dependent filler, and the layer section recurses through this same law.
pub proof fn lemma_section_payload_roundtrip(
    b: Seq<u8>,
    p: int,
    e: BzsEntries,
    k: SectionKind,
    depth: nat,
)
    requires
        section_decoded(b, p, e, depth),
        crate::bytes::spec_u32_at(b, p) == spec_tag_of(k),
        position_independent_kind(k),
    ensures
        ({
            let dstart = p + crate::bytes::spec_u32_at(b, p + 8);
            let pl = section_payload(e, k, dstart, depth);
            dstart + pl.len() <= b.len() && pl == b.subrange(dstart, dstart + pl.len())
        }),
{
    match k {
        SectionKind::File => {
            if let Some(f) = e.file {
                f.lemma_width();
            }
        },
        SectionKind::Stif => {
            if let Some(st) = e.stif {
                st.lemma_width();
            }
        },
        SectionKind::Scen => {
            lemma_encode_seq_len::<SCEN>(e.scen@);
        },
        SectionKind::Cam => {
            lemma_encode_seq_len::<CAM>(e.cam@);
        },
        SectionKind::Path => {
            lemma_encode_seq_len::<PATH>(e.path@);
        },
        SectionKind::Pnt => {
            lemma_encode_seq_len::<PNT>(e.pnt@);
        },
        SectionKind::Spnt => {
            lemma_encode_seq_len::<SPNT>(e.spnt@);
        },
        SectionKind::Bpnt => {
            lemma_encode_seq_len::<BPNT>(e.bpnt@);
        },
        SectionKind::Spth => {
            lemma_encode_seq_len::<SPTH>(e.spth@);
        },
        SectionKind::Area => {
            lemma_encode_seq_len::<AREA>(e.area@);
        },
        SectionKind::Evnt => {
            lemma_encode_seq_len::<EVNT>(e.evnt@);
        },
        SectionKind::Ply => {
            lemma_encode_seq_len::<PLY>(e.ply@);
        },
        SectionKind::Objs => {
            lemma_encode_seq_len::<OBJ>(e.objs@);
        },
        SectionKind::Obj => {
            lemma_encode_seq_len::<OBJ>(e.obj@);
        },
        SectionKind::Sobs => {
            lemma_encode_seq_len::<SOBJ>(e.sobs@);
        },
        SectionKind::Sobj => {
            lemma_encode_seq_len::<SOBJ>(e.sobj@);
        },
        SectionKind::Stas => {
            lemma_encode_seq_len::<SOBJ>(e.stas@);
        },
        SectionKind::Stag => {
            lemma_encode_seq_len::<SOBJ>(e.stag@);
        },
        SectionKind::Sndt => {
            lemma_encode_seq_len::<SOBJ>(e.sndt@);
        },
        SectionKind::Door => {
            lemma_encode_seq_len::<OBJ>(e.door@);
        },
        SectionKind::Lyse => {
            lemma_encode_seq_len::<LYSE>(e.lyse@);
        },
        SectionKind::Pcam => {
            lemma_encode_seq_len::<PCAM>(e.pcam@);
        },
        SectionKind::Lylt => {
            lemma_encode_seq_len::<LYLT>(e.lylt@);
        },
        SectionKind::Objn => {
        },
        SectionKind::Arcn => {
        },
        SectionKind::Rmpl => {
        },
        SectionKind::Lay => {
        },
    }
}

/// The 12-byte section header written at `hpos` for a section whose data
/// begins at `dpos`: tag, element count, the 0xFFFF sentinel, and the data
/// offset relative to the header's own position.
pub open spec fn section_header(e: BzsEntries, k: SectionKind, hpos: int, dpos: int) -> Seq<u8> {
    spec_u32_be(spec_tag_of(k)) + spec_u16_be(section_count(e, k) as u16) + spec_u16_be(0xFFFF)
        + spec_u32_be((dpos - hpos) as u32)
}

/// Folds the kinds from index `i` on into (header bytes, data bytes), with
/// `hpos` the position of the next header slot and `dpos` the position of the
/// next data byte.
pub open spec fn spec_sections(
    e: BzsEntries,
    kinds: Seq<SectionKind>,
    i: int,
    hpos: int,
    dpos: int,
    depth: nat,
) -> (Seq<u8>, Seq<u8>)
    decreases depth, 5int, kinds.len() - i,
{
    if i < 0 || i >= kinds.len() {
        (seq![], seq![])
    } else {
        let k = kinds[i];
        if populated(e, k) {
            let pl = section_payload(e, k, dpos, depth);
            let rest = spec_sections(e, kinds, i + 1, hpos + 12, dpos + pl.len(), depth);
            (section_header(e, k, hpos, dpos) + rest.0, pl + rest.1)
        } else {
            spec_sections(e, kinds, i + 1, hpos, dpos, depth)
        }
    }
}

/// The bytes of one whole header table and its data region, written with the
/// header table at absolute position `base`.
pub open spec fn spec_write_entries(e: BzsEntries, base: int, depth: nat) -> Seq<u8>
    decreases depth, 6int, 0int,
{
    let n = spec_count(e);
    let parts = spec_sections(e, canonical_order(), 0, base, base + 12 * n, depth);
    parts.0 + parts.1
}

/// The bytes of a whole scene blob: the 12-byte top header (magic, header
/// count, sentinel, offset 12), the sections, and 0xFF filler up to the next
/// 32-byte boundary.
pub open spec fn spec_write_bzs(e: BzsEntries) -> Seq<u8> {
    let body = spec_write_entries(e, 12, 1);
    let unpadded = seq![0x56u8, 0x30u8, 0x30u8, 0x31u8] + spec_u16_be(spec_count(e) as u16)
        + spec_u16_be(0xFFFF) + spec_u32_be(12) + body;
    unpadded + Seq::new(spec_pad_to(unpadded.len() as int, 32) as nat, |i: int| 0xFFu8)
}

/// The offset table and string blobs fit the 16-bit offset width.
pub open spec fn strtab_fits(strs: Seq<String>) -> bool {
    2 * strs.len() + strtab_blob(strs, strs.len() as int).len() <= 0xFFFF
}

/// Every room's value list fits its 8-bit count field, and the entry table
/// plus value region fits the 16-bit offsets.
pub open spec fn rmpl_fits(entries: Seq<RMPL>) -> bool {
    &&& forall|i: int| 0 <= i < entries.len() ==> (#[trigger] entries[i].data)@.len() <= 255
    &&& 4 * entries.len() + rmpl_blob(entries, entries.len() as int).len() <= 0xFFFF
}

/// The position-independent conditions under which the writer succeeds: every
/// section count fits 16 bits, the string tables encode and fit, the room
/// table fits, and layers appear only above depth zero and meet the same
/// conditions one level down.
pub open spec fn content_fits(e: BzsEntries, depth: nat) -> bool
    decreases depth,
{
    &&& e.lyse@.len() <= 0xFFFF
    &&& e.objn@.len() <= 0xFFFF
    &&& e.arcn@.len() <= 0xFFFF
    &&& e.scen@.len() <= 0xFFFF
    &&& e.rmpl@.len() <= 0xFFFF
    &&& e.cam@.len() <= 0xFFFF
    &&& e.pcam@.len() <= 0xFFFF
    &&& e.path@.len() <= 0xFFFF
    &&& e.pnt@.len() <= 0xFFFF
    &&& e.spnt@.len() <= 0xFFFF
    &&& e.bpnt@.len() <= 0xFFFF
    &&& e.spth@.len() <= 0xFFFF
    &&& e.area@.len() <= 0xFFFF
    &&& e.evnt@.len() <= 0xFFFF
    &&& e.ply@.len() <= 0xFFFF
    &&& e.objs@.len() <= 0xFFFF
    &&& e.obj@.len() <= 0xFFFF
    &&& e.sobj@.len() <= 0xFFFF
    &&& e.sobs@.len() <= 0xFFFF
    &&& e.door@.len() <= 0xFFFF
    &&& e.stas@.len() <= 0xFFFF
    &&& e.stag@.len() <= 0xFFFF
    &&& e.sndt@.len() <= 0xFFFF
    &&& e.lylt@.len() <= 0xFFFF
    &&& e.lay@.len() <= 0xFFFF
    &&& strs_encodable(e.arcn@)
    &&& strtab_fits(e.arcn@)
    &&& strs_encodable(e.objn@)
    &&& strtab_fits(e.objn@)
    &&& rmpl_fits(e.rmpl@)
    &&& e.lay@.len() > 0 ==> depth > 0
    &&& depth > 0 ==> forall|i: int|
        0 <= i < e.lay@.len() ==> content_fits(#[trigger] e.lay@[i], (depth - 1) as nat)
}

/// The offset array is two bytes per string.
proof fn lemma_strtab_offsets_len(strs: Seq<String>, i: int)
    requires
        0 <= i,
    ensures
        strtab_offsets(strs, i).len() == 2 * i,
    decreases i,
{
    if i > 0 {
        lemma_strtab_offsets_len(strs, i - 1);
    }
}

/// The entry table is four bytes per room.
proof fn lemma_rmpl_table_len(entries: Seq<RMPL>, i: int)
    requires
        0 <= i,
    ensures
        rmpl_table(entries, i).len() == 4 * i,
    decreases i,
{
    if i > 0 {
        lemma_rmpl_table_len(entries, i - 1);
    }
}

/// Longer string-table prefixes have byte images at least as long.
proof fn lemma_strtab_blob_mono(strs: Seq<String>, i: int, j: int)
    requires
        i <= j,
    ensures
        strtab_blob(strs, i).len() <= strtab_blob(strs, j).len(),
    decreases j - i,
{
    if i < j {
        lemma_strtab_blob_mono(strs, i, j - 1);
    }
}

/// Longer room-table prefixes have value regions at least as long.
proof fn lemma_rmpl_blob_mono(entries: Seq<RMPL>, i: int, j: int)
    requires
        i <= j,
    ensures
        rmpl_blob(entries, i).len() <= rmpl_blob(entries, j).len(),
    decreases j - i,
{
    if i < j {
        lemma_rmpl_blob_mono(entries, i, j - 1);
    }
}

/// Emits a string-table payload for `strs` written at absolute position
/// `pos`: the 16-bit offset array, then each string's Shift-JIS bytes with a
/// nul terminator, then 0xFF filler to the next 4-byte boundary.
fn emit_strtab(strs: &Vec<String>, pos: u64) -> (r: Result<Vec<u8>, BzsError>)
    requires
        pos <= u32::MAX,
    ensures
        r matches Ok(v) ==> v@ == strtab_payload(strs@, pos as int),
        r is Ok <==> strs_encodable(strs@) && strtab_fits(strs@),
{
    let n = strs.len();
    let mut blob: Vec<u8> = Vec::new();
    let mut lens: Vec<usize> = Vec::new();
    let mut i: usize = 0;
    while i < n
        invariant
            i <= n,
            n == strs@.len(),
            blob@ =~= strtab_blob(strs@, i as int),
            lens@.len() == i,
            forall|j: int| 0 <= j < i ==> sjis_enc(#[trigger] strs@[j]@) is Some,
            forall|j: int| 0 <= j < i ==> lens@[j] == enc_str(strs@[j]@).len(),
        decreases n - i,
    {
        let mut enc = match crate::encoding::encode(&strs[i]) {
            Ok(v) => v,
            Err(_) => {
                assert(!strs_encodable(strs@));
                return Err(BzsError::StringEncoding { pos });
            },
        };
        lens.push(enc.len());
        blob.append(&mut enc);
        blob.push(0);
        i = i + 1;
        assert(blob@ =~= strtab_blob(strs@, i as int));
    }
    assert(blob@ == strtab_blob(strs@, n as int));
    if n as u64 > 0xFFFF || blob.len() as u64 > 0xFFFF || 2 * (n as u64) + (blob.len() as u64)
        > 0xFFFF {
        assert(!strtab_fits(strs@));
        return Err(BzsError::TooLarge { pos });
    }
    let mut out: Vec<u8> = Vec::new();
    let mut running: u64 = 2 * (n as u64);
    let mut i: usize = 0;
    while i < n
        invariant
            i <= n,
            n == strs@.len(),
            running == 2 * n + strtab_blob(strs@, i as int).len(),
            2 * n + strtab_blob(strs@, n as int).len() <= 0xFFFF,
            out@ =~= strtab_offsets(strs@, i as int),
            lens@.len() == n,
            forall|j: int| 0 <= j < n ==> lens@[j] == enc_str(strs@[j]@).len(),
        decreases n - i,
    {
        proof {
            lemma_strtab_blob_mono(strs@, i as int, n as int);
            lemma_strtab_blob_mono(strs@, i + 1, n as int);
        }
        crate::bytes::push_u16_be(&mut out, running as u16);
        running = running + lens[i] as u64 + 1;
        i = i + 1;
        assert(out@ =~= strtab_offsets(strs@, i as int));
    }
    let mut b = blob;
    out.append(&mut b);
    assert(out@ == strtab_offsets(strs@, n as int) + strtab_blob(strs@, n as int));
    proof {
        lemma_strtab_offsets_len(strs@, n as int);
    }
    assert(out@.len() <= 0x2FFFF);
    let ghost body = out@;
    let pad = crate::bytes::pad_len(pos + out.len() as u64, 4);
    let mut p: u64 = 0;
    while p < pad
        invariant
            p <= pad,
            pad == spec_pad_to(pos + body.len(), 4),
            out@ =~= body + Seq::new(p as nat, |k: int| 0xFFu8),
        decreases pad - p,
    {
        out.push(0xFF);
        p = p + 1;
        assert(out@ =~= body + Seq::new(p as nat, |k: int| 0xFFu8));
    }
    assert(out@ =~= strtab_payload(strs@, pos as int));
    Ok(out)
}

/// Emits a room-index payload for `entries` written at absolute position
/// `pos`: the 4-byte entry table, each room's big-endian values, then 0xFF
/// filler to the next 4-byte boundary.
fn emit_rmpl(entries: &Vec<RMPL>, pos: u64) -> (r: Result<Vec<u8>, BzsError>)
    requires
        pos <= u32::MAX,
    ensures
        r matches Ok(v) ==> v@ == rmpl_payload(entries@, pos as int),
        r is Ok <==> rmpl_fits(entries@),
{
    let n = entries.len();
    let mut blob: Vec<u8> = Vec::new();
    let mut i: usize = 0;
    while i < n
        invariant
            i <= n,
            n == entries@.len(),
            blob@ =~= rmpl_blob(entries@, i as int),
            forall|j: int| 0 <= j < i ==> (#[trigger] entries@[j].data)@.len() <= 255,
        decreases n - i,
    {
        let d = &entries[i].data;
        if d.len() > 255 {
            assert(!rmpl_fits(entries@));
            return Err(BzsError::TooLarge { pos });
        }
        let mut j: usize = 0;
        let ghost blob_pre = blob@;
        while j < d.len()
            invariant
                j <= d@.len(),
                blob@ =~= blob_pre + rmpl_values(d@.subrange(0, j as int)),
            decreases d@.len() - j,
        {
            crate::bytes::push_u16_be(&mut blob, d[j]);
            proof {
                assert(d@.subrange(0, j + 1).drop_last() =~= d@.subrange(0, j as int));
            }
            j = j + 1;
            assert(blob@ =~= blob_pre + rmpl_values(d@.subrange(0, j as int)));
        }
        assert(d@.subrange(0, d@.len() as int) =~= d@);
        i = i + 1;
        assert(blob@ =~= rmpl_blob(entries@, i as int));
    }
    assert(blob@ == rmpl_blob(entries@, n as int));
    if n as u64 > 0xFFFF || blob.len() as u64 > 0xFFFF || 4 * (n as u64) + (blob.len() as u64)
        > 0xFFFF {
        assert(!rmpl_fits(entries@));
        return Err(BzsError::TooLarge { pos });
    }
    let mut out: Vec<u8> = Vec::new();
    let mut running: u64 = 0;
    let mut i: usize = 0;
    while i < n
        invariant
            i <= n,
            n == entries@.len(),
            running == rmpl_blob(entries@, i as int).len(),
            4 * n + rmpl_blob(entries@, n as int).len() <= 0xFFFF,
            out@ =~= rmpl_table(entries@, i as int),
            forall|j: int| 0 <= j < n ==> (#[trigger] entries@[j].data)@.len() <= 255,
        decreases n - i,
    {
        proof {
            lemma_rmpl_blob_mono(entries@, i as int, n as int);
        }
        proof {
            lemma_rmpl_values_len(entries@[i as int].data@);
            lemma_rmpl_blob_mono(entries@, i + 1, n as int);
            assert(rmpl_blob(entries@, i + 1).len() == running + 2 * entries@[i as int].data@.len());
        }
        let entry = &entries[i];
        crate::bytes::push_u8(&mut out, entry.room);
        crate::bytes::push_u8(&mut out, entry.data.len() as u8);
        let offset: u64 = 4 * (n as u64) + running - 4 * (i as u64);
        crate::bytes::push_u16_be(&mut out, offset as u16);
        running = running + 2 * (entry.data.len() as u64);
        i = i + 1;
        assert(out@ =~= rmpl_table(entries@, i as int));
    }
    let mut b = blob;
    out.append(&mut b);
    assert(out@ == rmpl_table(entries@, n as int) + rmpl_blob(entries@, n as int));
    proof {
        lemma_rmpl_table_len(entries@, n as int);
    }
    assert(out@.len() <= 0x4FFFF);
    let ghost body = out@;
    let pad = crate::bytes::pad_len(pos + out.len() as u64, 4);
    let mut p: u64 = 0;
    while p < pad
        invariant
            p <= pad,
            pad == spec_pad_to(pos + body.len(), 4),
            out@ =~= body + Seq::new(p as nat, |k: int| 0xFFu8),
        decreases pad - p,
    {
        out.push(0xFF);
        p = p + 1;
        assert(out@ =~= body + Seq::new(p as nat, |k: int| 0xFFu8));
    }
    assert(out@ =~= rmpl_payload(entries@, pos as int));
    Ok(out)
}

/// A room's value region is two bytes per value.
proof fn lemma_rmpl_values_len(d: Seq<u16>)
    ensures
        rmpl_values(d).len() == 2 * d.len(),
    decreases d.len(),
{
    if d.len() > 0 {
        lemma_rmpl_values_len(d.drop_last());
    }
}

/// The layer table is eight bytes per layer.
proof fn lemma_lay_table_len(lays: Seq<BzsEntries>, pos: int, i: int, depth: nat)
    requires
        0 <= i,
        depth > 0,
    ensures
        lay_table(lays, pos, i, depth).len() == 8 * i,
    decreases i,
{
    if i > 0 {
        lemma_lay_table_len(lays, pos, i - 1, depth);
        assert(lay_table(lays, pos, i, depth) == lay_table(lays, pos, i - 1, depth) + lay_entry(
            lays,
            pos,
            i - 1,
            depth,
        ));
        assert(lay_entry(lays, pos, i - 1, depth).len() == 8);
    }
}

/// Longer layer prefixes have nested regions at least as long.
proof fn lemma_lay_bodies_mono(lays: Seq<BzsEntries>, pos: int, i: int, j: int, depth: nat)
    requires
        i <= j,
        depth > 0,
    ensures
        lay_bodies(lays, pos, i, depth).len() <= lay_bodies(lays, pos, j, depth).len(),
    decreases j - i,
{
    if i < j {
        lemma_lay_bodies_mono(lays, pos, i, j - 1, depth);
    }
}

/// Header bytes of a section fold are twelve per populated kind.
proof fn lemma_sections_header_len(
    e: BzsEntries,
    kinds: Seq<SectionKind>,
    i: int,
    hpos: int,
    dpos: int,
    depth: nat,
)
    ensures
        spec_sections(e, kinds, i, hpos, dpos, depth).0.len() == 12 * count_from(e, kinds, i),
    decreases kinds.len() - i,
{
    if 0 <= i < kinds.len() {
        let k = kinds[i];
        if populated(e, k) {
            let pl = section_payload(e, k, dpos, depth);
            lemma_sections_header_len(e, kinds, i + 1, hpos + 12, dpos + pl.len(), depth);
        } else {
            lemma_sections_header_len(e, kinds, i + 1, hpos, dpos, depth);
        }
    }
}

/// The conditions under which the writer is proved to succeed: the content
/// conditions hold and the whole table fits below the 32-bit offset limit.
pub open spec fn write_ok(e: BzsEntries, base: int, depth: nat) -> bool {
    content_fits(e, depth) && base + spec_write_entries(e, base, depth).len() <= u32::MAX
}

/// What a successful payload emission establishes about the model: its
/// section's share of [`content_fits`].
pub open spec fn payload_content_ok(e: BzsEntries, k: SectionKind, depth: nat) -> bool {
    match k {
        SectionKind::Objn => strs_encodable(e.objn@) && strtab_fits(e.objn@),
        SectionKind::Arcn => strs_encodable(e.arcn@) && strtab_fits(e.arcn@),
        SectionKind::Rmpl => rmpl_fits(e.rmpl@),
        SectionKind::Lay => (e.lay@.len() > 0 ==> depth > 0) && (depth > 0 ==> forall|i: int|
            0 <= i < e.lay@.len() ==> content_fits(#[trigger] e.lay@[i], (depth - 1) as nat)),
        _ => true,
    }
}

/// Exec mirror of [`spec_tag_of`].
fn tag_of_kind(k: SectionKind) -> (r: u32)
    ensures
        r == spec_tag_of(k),
{
    match k {
        SectionKind::Lyse => TAG_LYSE,
        SectionKind::Stif => TAG_STIF,
        SectionKind::Objn => TAG_OBJN,
        SectionKind::Arcn => TAG_ARCN,
        SectionKind::File => TAG_FILE,
        SectionKind::Scen => TAG_SCEN,
        SectionKind::Rmpl => TAG_RMPL,
        SectionKind::Cam => TAG_CAM,
        SectionKind::Pcam => TAG_PCAM,
        SectionKind::Path => TAG_PATH,
        SectionKind::Pnt => TAG_PNT,
        SectionKind::Spnt => TAG_SPNT,
        SectionKind::Bpnt => TAG_BPNT,
        SectionKind::Spth => TAG_SPTH,
        SectionKind::Area => TAG_AREA,
        SectionKind::Evnt => TAG_EVNT,
        SectionKind::Ply => TAG_PLY,
        SectionKind::Objs => TAG_OBJS,
        SectionKind::Obj => TAG_OBJ,
        SectionKind::Sobj => TAG_SOBJ,
        SectionKind::Sobs => TAG_SOBS,
        SectionKind::Door => TAG_DOOR,
        SectionKind::Stas => TAG_STAS,
        SectionKind::Stag => TAG_STAG,
        SectionKind::Sndt => TAG_SNDT,
        SectionKind::Lylt => TAG_LYLT,
        SectionKind::Lay => TAG_LAY,
    }
}

/// The canonical kinds, in emission order.
fn canonical_kinds() -> (r: Vec<SectionKind>)
    ensures
        r@ =~= canonical_order(),
{
    let mut v: Vec<SectionKind> = Vec::new();
    v.push(SectionKind::Lyse);
    v.push(SectionKind::Stif);
    v.push(SectionKind::Objn);
    v.push(SectionKind::Arcn);
    v.push(SectionKind::File);
    v.push(SectionKind::Scen);
    v.push(SectionKind::Rmpl);
    v.push(SectionKind::Cam);
    v.push(SectionKind::Pcam);
    v.push(SectionKind::Path);
    v.push(SectionKind::Pnt);
    v.push(SectionKind::Spnt);
    v.push(SectionKind::Bpnt);
    v.push(SectionKind::Spth);
    v.push(SectionKind::Area);
    v.push(SectionKind::Evnt);
    v.push(SectionKind::Ply);
    v.push(SectionKind::Objs);
    v.push(SectionKind::Obj);
    v.push(SectionKind::Sobj);
    v.push(SectionKind::Sobs);
    v.push(SectionKind::Door);
    v.push(SectionKind::Stas);
    v.push(SectionKind::Stag);
    v.push(SectionKind::Sndt);
    v.push(SectionKind::Lylt);
    v.push(SectionKind::Lay);
    v
}

/// Exec mirror of [`section_count`].
fn section_len(e: &BzsEntries, k: SectionKind) -> (r: u64)
    ensures
        r == section_count(*e, k),
{
    match k {
        SectionKind::Lyse => e.lyse.len() as u64,
        SectionKind::Stif => if e.stif.is_some() {
            1
        } else {
            0
        },
        SectionKind::Objn => e.objn.len() as u64,
        SectionKind::Arcn => e.arcn.len() as u64,
        SectionKind::File => if e.file.is_some() {
            1
        } else {
            0
        },
        SectionKind::Scen => e.scen.len() as u64,
        SectionKind::Rmpl => e.rmpl.len() as u64,
        SectionKind::Cam => e.cam.len() as u64,
        SectionKind::Pcam => e.pcam.len() as u64,
        SectionKind::Path => e.path.len() as u64,
        SectionKind::Pnt => e.pnt.len() as u64,
        SectionKind::Spnt => e.spnt.len() as u64,
        SectionKind::Bpnt => e.bpnt.len() as u64,
        SectionKind::Spth => e.spth.len() as u64,
        SectionKind::Area => e.area.len() as u64,
        SectionKind::Evnt => e.evnt.len() as u64,
        SectionKind::Ply => e.ply.len() as u64,
        SectionKind::Objs => e.objs.len() as u64,
        SectionKind::Obj => e.obj.len() as u64,
        SectionKind::Sobj => e.sobj.len() as u64,
        SectionKind::Sobs => e.sobs.len() as u64,
        SectionKind::Door => e.door.len() as u64,
        SectionKind::Stas => e.stas.len() as u64,
        SectionKind::Stag => e.stag.len() as u64,
        SectionKind::Sndt => e.sndt.len() as u64,
        SectionKind::Lylt => e.lylt.len() as u64,
        SectionKind::Lay => e.lay.len() as u64,
    }
}

/// Emits the payload of one section kind, written at absolute position
/// `pos`. For the layer kind this recurses one level down.
fn emit_payload(e: &BzsEntries, k: SectionKind, pos: u64, depth: u8) -> (r: Result<
    Vec<u8>,
    BzsError,
>)
    requires
        pos <= u32::MAX,
    ensures
        r matches Ok(v) ==> v@ == section_payload(*e, k, pos as int, depth as nat),
        (content_fits(*e, depth as nat) && pos + section_payload(
            *e,
            k,
            pos as int,
            depth as nat,
        ).len() <= u32::MAX) ==> r is Ok,
        r is Ok ==> payload_content_ok(*e, k, depth as nat),
    decreases depth, 1int,
{
    match k {
        SectionKind::Lyse => {
            let mut p: Vec<u8> = Vec::new();
            crate::records::encode_records(&e.lyse, &mut p);
            Ok(p)
        },
        SectionKind::Stif => {
            let mut p: Vec<u8> = Vec::new();
            if let Some(s) = &e.stif {
                s.encode_into(&mut p);
            }
            Ok(p)
        },
        SectionKind::Objn => emit_strtab(&e.objn, pos),
        SectionKind::Arcn => emit_strtab(&e.arcn, pos),
        SectionKind::File => {
            let mut p: Vec<u8> = Vec::new();
            if let Some(f) = &e.file {
                f.encode_into(&mut p);
            }
            Ok(p)
        },
        SectionKind::Scen => {
            let mut p: Vec<u8> = Vec::new();
            crate::records::encode_records(&e.scen, &mut p);
            Ok(p)
        },
        SectionKind::Rmpl => emit_rmpl(&e.rmpl, pos),
        SectionKind::Cam => {
            let mut p: Vec<u8> = Vec::new();
            crate::records::encode_records(&e.cam, &mut p);
            Ok(p)
        },
        SectionKind::Pcam => {
            let mut p: Vec<u8> = Vec::new();
            crate::records::encode_records(&e.pcam, &mut p);
            Ok(p)
        },
        SectionKind::Path => {
            let mut p: Vec<u8> = Vec::new();
            crate::records::encode_records(&e.path, &mut p);
            Ok(p)
        },
        SectionKind::Pnt => {
            let mut p: Vec<u8> = Vec::new();
            crate::records::encode_records(&e.pnt, &mut p);
            Ok(p)
        },
        SectionKind::Spnt => {
            let mut p: Vec<u8> = Vec::new();
            crate::records::encode_records(&e.spnt, &mut p);
            Ok(p)
        },
        SectionKind::Bpnt => {
            let mut p: Vec<u8> = Vec::new();
            crate::records::encode_records(&e.bpnt, &mut p);
            Ok(p)
        },
        SectionKind::Spth => {
            let mut p: Vec<u8> = Vec::new();
            crate::records::encode_records(&e.spth, &mut p);
            Ok(p)
        },
        SectionKind::Area => {
            let mut p: Vec<u8> = Vec::new();
            crate::records::encode_records(&e.area, &mut p);
            Ok(p)
        },
        SectionKind::Evnt => {
            let mut p: Vec<u8> = Vec::new();
            crate::records::encode_records(&e.evnt, &mut p);
            Ok(p)
        },
        SectionKind::Ply => {
            let mut p: Vec<u8> = Vec::new();
            crate::records::encode_records(&e.ply, &mut p);
            Ok(p)
        },
        SectionKind::Objs => {
            let mut p: Vec<u8> = Vec::new();
            crate::records::encode_records(&e.objs, &mut p);
            Ok(p)
        },
        SectionKind::Obj => {
            let mut p: Vec<u8> = Vec::new();
            crate::records::encode_records(&e.obj, &mut p);
            Ok(p)
        },
        SectionKind::Sobj => {
            let mut p: Vec<u8> = Vec::new();
            crate::records::encode_records(&e.sobj, &mut p);
            Ok(p)
        },
        SectionKind::Sobs => {
            let mut p: Vec<u8> = Vec::new();
            crate::records::encode_records(&e.sobs, &mut p);
            Ok(p)
        },
        SectionKind::Door => {
            let mut p: Vec<u8> = Vec::new();
            crate::records::encode_records(&e.door, &mut p);
            Ok(p)
        },
        SectionKind::Stas => {
            let mut p: Vec<u8> = Vec::new();
            crate::records::encode_records(&e.stas, &mut p);
            Ok(p)
        },
        SectionKind::Stag => {
            let mut p: Vec<u8> = Vec::new();
            crate::records::encode_records(&e.stag, &mut p);
            Ok(p)
        },
        SectionKind::Sndt => {
            let mut p: Vec<u8> = Vec::new();
            crate::records::encode_records(&e.sndt, &mut p);
            Ok(p)
        },
        SectionKind::Lylt => {
            let mut p: Vec<u8> = Vec::new();
            crate::records::encode_records(&e.lylt, &mut p);
            Ok(p)
        },
        SectionKind::Lay => emit_lay(e, pos, depth),
    }
}

/// Emits the layer-section payload: one 8-byte header per layer, then each
/// non-empty layer's nested table, offsets recomputed from the positions.
fn emit_lay(e: &BzsEntries, pos: u64, depth: u8) -> (r: Result<Vec<u8>, BzsError>)
    requires
        pos <= u32::MAX,
    ensures
        r matches Ok(v) ==> v@ == lay_payload(e.lay@, pos as int, depth as nat),
        (content_fits(*e, depth as nat) && pos + lay_payload(
            e.lay@,
            pos as int,
            depth as nat,
        ).len() <= u32::MAX) ==> r is Ok,
        r is Ok ==> payload_content_ok(*e, SectionKind::Lay, depth as nat),
    decreases depth, 0int,
{
    if depth == 0 {
        if e.lay.len() == 0 {
            return Ok(Vec::new());
        }
        return Err(BzsError::NestedLayers { pos });
    }
    let ghost dn = depth as nat;
    let n = e.lay.len();
    if n as u64 > 0xFFFF {
        assert(!content_fits(*e, dn));
        return Err(BzsError::TooLarge { pos });
    }
    let mut bodies: Vec<u8> = Vec::new();
    let mut meta: Vec<(u16, u32)> = Vec::new();
    let mut i: usize = 0;
    while i < n
        invariant
            i <= n,
            n == e.lay@.len(),
            n <= 0xFFFF,
            pos <= u32::MAX,
            depth > 0,
            dn == depth as nat,
            bodies@ =~= lay_bodies(e.lay@, pos as int, i as int, dn),
            forall|j: int| 0 <= j < i ==> content_fits(#[trigger] e.lay@[j], (depth - 1) as nat),
            meta@.len() == i,
            forall|j: int|
                0 <= j < i ==> (#[trigger] meta@[j]).0 == spec_count(e.lay@[j]) as u16,
            forall|j: int|
                0 <= j < i ==> (#[trigger] meta@[j]).1 == (if spec_count(e.lay@[j]) > 0 {
                    (8 * e.lay@.len() + lay_bodies(e.lay@, pos as int, j, dn).len() - 8 * j) as u32
                } else {
                    0u32
                }),
        decreases n - i,
    {
        proof {
            lemma_lay_bodies_mono(e.lay@, pos as int, i as int, n as int, dn);
            lemma_lay_table_len(e.lay@, pos as int, n as int, dn);
        }
        let bl: u64 = bodies.len() as u64;
        if bl > 0xFFFF_FFFF {
            assert(pos + lay_payload(e.lay@, pos as int, dn).len() > u32::MAX);
            return Err(BzsError::TooLarge { pos });
        }
        let rel: u64 = 8 * (n as u64) + bl;
        if rel > 0xFFFF_FFFF || pos + rel > 0xFFFF_FFFF {
            assert(pos + lay_payload(e.lay@, pos as int, dn).len() > u32::MAX);
            return Err(BzsError::TooLarge { pos });
        }
        let nested = write_entries_core(&e.lay[i], pos + rel, depth - 1);
        let (c, mut b) = match nested {
            Ok(x) => x,
            Err(er) => {
                proof {
                    if content_fits(*e, dn) && pos + lay_payload(e.lay@, pos as int, dn).len()
                        <= u32::MAX {
                        assert(content_fits(e.lay@[i as int], (depth - 1) as nat));
                        assert(lay_bodies(e.lay@, pos as int, i + 1, dn) == lay_bodies(
                            e.lay@,
                            pos as int,
                            i as int,
                            dn,
                        ) + spec_write_entries(
                            e.lay@[i as int],
                            pos as int + rel,
                            (depth - 1) as nat,
                        ));
                        lemma_lay_bodies_mono(e.lay@, pos as int, i + 1, n as int, dn);
                        assert(write_ok(e.lay@[i as int], pos as int + rel, (depth - 1) as nat));
                        assert(false);
                    }
                }
                return Err(er);
            },
        };
        let off: u32 = if c > 0 {
            (rel - 8 * (i as u64)) as u32
        } else {
            0
        };
        meta.push((c, off));
        bodies.append(&mut b);
        proof {
            assert(lay_bodies(e.lay@, pos as int, i + 1, dn) == lay_bodies(
                e.lay@,
                pos as int,
                i as int,
                dn,
            ) + spec_write_entries(e.lay@[i as int], pos as int + rel, (depth - 1) as nat));
        }
        i = i + 1;
        assert(bodies@ =~= lay_bodies(e.lay@, pos as int, i as int, dn));
    }
    let mut out: Vec<u8> = Vec::new();
    let mut i: usize = 0;
    while i < n
        invariant
            i <= n,
            n == e.lay@.len(),
            depth > 0,
            dn == depth as nat,
            out@ =~= lay_table(e.lay@, pos as int, i as int, dn),
            meta@.len() == n,
            forall|j: int|
                0 <= j < n ==> (#[trigger] meta@[j]).0 == spec_count(e.lay@[j]) as u16,
            forall|j: int|
                0 <= j < n ==> (#[trigger] meta@[j]).1 == (if spec_count(e.lay@[j]) > 0 {
                    (8 * e.lay@.len() + lay_bodies(e.lay@, pos as int, j, dn).len() - 8 * j) as u32
                } else {
                    0u32
                }),
        decreases n - i,
    {
        let m = meta[i];
        proof {
            assert(m == meta@[i as int]);
            assert(m.0 == spec_count(e.lay@[i as int]) as u16);
            assert(lay_table(e.lay@, pos as int, i + 1, dn) == lay_table(
                e.lay@,
                pos as int,
                i as int,
                dn,
            ) + lay_entry(e.lay@, pos as int, i as int, dn));
            assert(lay_entry(e.lay@, pos as int, i as int, dn) == spec_u16_be(m.0) + spec_u16_be(
                0xFFFF,
            ) + spec_u32_be(m.1));
        }
        crate::bytes::push_u16_be(&mut out, m.0);
        crate::bytes::push_u16_be(&mut out, 0xFFFF);
        crate::bytes::push_u32_be(&mut out, m.1);
        i = i + 1;
        assert(out@ =~= lay_table(e.lay@, pos as int, i as int, dn));
    }
    let mut b = bodies;
    out.append(&mut b);
    assert(out@ =~= lay_payload(e.lay@, pos as int, dn));
    Ok(out)
}

/// Writes one whole header table and data region for `e`, with the header
/// table at absolute position `base`; returns the header count and the bytes.
pub fn write_bzs_entries(e: &BzsEntries, base: u64, depth: u8) -> (r: Result<
    (u16, Vec<u8>),
    BzsError,
>)
    requires
        base <= u32::MAX,
    ensures
        r matches Ok(p) ==> p.0 == spec_count(*e) && p.1@ == spec_write_entries(
            *e,
            base as int,
            depth as nat,
        ),
        write_ok(*e, base as int, depth as nat) ==> r is Ok,
    decreases depth, 4int,
{
    write_entries_core(e, base, depth)
}

#[verifier::rlimit(80)]
fn write_entries_core(e: &BzsEntries, base: u64, depth: u8) -> (r: Result<
    (u16, Vec<u8>),
    BzsError,
>)
    requires
        base <= u32::MAX,
    ensures
        r matches Ok(p) ==> p.0 == spec_count(*e) && p.1@ == spec_write_entries(
            *e,
            base as int,
            depth as nat,
        ),
        r is Ok <==> write_ok(*e, base as int, depth as nat),
    decreases depth, 3int,
{
    let ghost dn = depth as nat;
    let ghost ko = canonical_order();
    let kinds = canonical_kinds();
    // first pass: how many header entries are needed
    let mut cnt: u64 = 0;
    let mut i: usize = 0;
    while i < kinds.len()
        invariant
            i <= kinds@.len(),
            kinds@ =~= canonical_order(),
            ko == canonical_order(),
            count_from(*e, ko, 0) == cnt + count_from(*e, ko, i as int),
            cnt <= i,
        decreases kinds@.len() - i,
    {
        if section_len(e, kinds[i]) > 0 {
            cnt = cnt + 1;
        }
        i = i + 1;
    }
    assert(cnt == spec_count(*e));
    if cnt > 0xFFFF {
        assert(!content_fits(*e, dn)) by {
            if content_fits(*e, dn) {
                assert(count_from(*e, ko, 0) <= 27) by {
                    lemma_count_from_bound(*e, ko, 0);
                }
            }
        };
        return Err(BzsError::TooLarge { pos: base });
    }
    let dstart: u64 = base + 12 * cnt;
    if dstart > 0xFFFF_FFFF {
        proof {
            lemma_sections_header_len(*e, ko, 0, base as int, base as int + 12 * cnt, dn);
        }
        return Err(BzsError::TooLarge { pos: base });
    }
    let ghost total = spec_write_entries(*e, base as int, dn);
    let ghost parts0 = spec_sections(*e, ko, 0, base as int, dstart as int, dn);
    let mut hdr: Vec<u8> = Vec::new();
    let mut data: Vec<u8> = Vec::new();
    let mut hpos: u64 = base;
    let mut dpos: u64 = dstart;
    let mut i: usize = 0;
    while i < kinds.len()
        invariant
            i <= kinds@.len(),
            kinds@ =~= canonical_order(),
            ko == canonical_order(),
            dn == depth as nat,
            cnt == spec_count(*e),
            cnt <= 0xFFFF,
            base <= u32::MAX,
            dstart == base + 12 * cnt,
            dstart <= 0xFFFF_FFFF,
            hpos == base + hdr@.len(),
            dpos == dstart + data@.len(),
            dpos <= 0xFFFF_FFFF,
            hpos <= dstart,
            parts0 == spec_sections(*e, ko, 0, base as int, dstart as int, dn),
            parts0.0 == hdr@ + spec_sections(*e, ko, i as int, hpos as int, dpos as int, dn).0,
            parts0.1 == data@ + spec_sections(*e, ko, i as int, hpos as int, dpos as int, dn).1,
            forall|j: int| 0 <= j < i ==> section_count(*e, #[trigger] ko[j]) <= 0xFFFF,
            forall|j: int| 0 <= j < i ==> payload_content_ok(*e, #[trigger] ko[j], dn),
        decreases kinds@.len() - i,
    {
        let ghost rest = spec_sections(*e, ko, i as int, hpos as int, dpos as int, dn);
        let k = kinds[i];
        let c = section_len(e, k);
        if c > 0 {
            let ghost pl_spec = section_payload(*e, k, dpos as int, dn);
            let ghost rest_next = spec_sections(
                *e,
                ko,
                i + 1,
                hpos as int + 12,
                dpos as int + pl_spec.len(),
                dn,
            );
            proof {
                assert(rest.0 == section_header(*e, k, hpos as int, dpos as int) + rest_next.0);
                assert(rest.1 == pl_spec + rest_next.1);
                lemma_sections_header_len(*e, ko, 0, base as int, dstart as int, dn);
            }
            if c > 0xFFFF {
                assert(!content_fits(*e, dn));
                return Err(BzsError::TooLarge { pos: hpos });
            }
            let pl = match emit_payload(e, k, dpos, depth) {
                Ok(v) => v,
                Err(er) => {
                    proof {
                        if write_ok(*e, base as int, dn) {
                            assert(total.len() == parts0.0.len() + parts0.1.len());
                            assert(parts0.1.len() >= data@.len() + pl_spec.len());
                            assert(dpos + pl_spec.len() <= base + total.len());
                            assert(false);
                        }
                    }
                    return Err(er);
                },
            };
            let mut pl = pl;
            let pln: u64 = pl.len() as u64;
            if pln > 0xFFFF_FFFF || dpos + pln > 0xFFFF_FFFF {
                proof {
                    if write_ok(*e, base as int, dn) {
                        assert(total.len() == parts0.0.len() + parts0.1.len());
                        assert(parts0.1.len() >= data@.len() + pl_spec.len());
                        assert(false);
                    }
                }
                return Err(BzsError::TooLarge { pos: dpos });
            }
            crate::bytes::push_u32_be(&mut hdr, tag_of_kind(k));
            crate::bytes::push_u16_be(&mut hdr, c as u16);
            crate::bytes::push_u16_be(&mut hdr, 0xFFFF);
            crate::bytes::push_u32_be(&mut hdr, (dpos - hpos) as u32);
            data.append(&mut pl);
            hpos = hpos + 12;
            dpos = dpos + pln;
            proof {
                assert(parts0.0 =~= hdr@ + rest_next.0);
                assert(parts0.1 =~= data@ + rest_next.1);
            }
            i = i + 1;
        } else {
            proof {
                assert(payload_content_ok(*e, k, dn)) by {
                    assert(strtab_blob(Seq::<String>::empty(), 0) =~= Seq::<u8>::empty());
                    assert(rmpl_blob(Seq::<RMPL>::empty(), 0) =~= Seq::<u8>::empty());
                };
            }
            i = i + 1;
        }
    }
    proof {
        assert(spec_sections(*e, ko, 27, hpos as int, dpos as int, dn).0 =~= Seq::<u8>::empty());
        assert(parts0.0 =~= hdr@);
        assert(parts0.1 =~= data@);
        lemma_canonical_kind_positions();
        assert(content_fits(*e, dn));
        lemma_sections_header_len(*e, ko, 0, base as int, dstart as int, dn);
        assert(base + spec_write_entries(*e, base as int, dn).len() <= u32::MAX);
    }
    let mut out = hdr;
    let mut d = data;
    out.append(&mut d);
    assert(out@ == parts0.0 + parts0.1);
    Ok((cnt as u16, out))
}

/// Each kind's place in the canonical order, spelled out so the per-kind
/// facts gathered by the writer's loop cover every kind.
proof fn lemma_canonical_kind_positions()
    ensures
        canonical_order().len() == 27,
        canonical_order()[0] == SectionKind::Lyse,
        canonical_order()[1] == SectionKind::Stif,
        canonical_order()[2] == SectionKind::Objn,
        canonical_order()[3] == SectionKind::Arcn,
        canonical_order()[4] == SectionKind::File,
        canonical_order()[5] == SectionKind::Scen,
        canonical_order()[6] == SectionKind::Rmpl,
        canonical_order()[7] == SectionKind::Cam,
        canonical_order()[8] == SectionKind::Pcam,
        canonical_order()[9] == SectionKind::Path,
        canonical_order()[10] == SectionKind::Pnt,
        canonical_order()[11] == SectionKind::Spnt,
        canonical_order()[12] == SectionKind::Bpnt,
        canonical_order()[13] == SectionKind::Spth,
        canonical_order()[14] == SectionKind::Area,
        canonical_order()[15] == SectionKind::Evnt,
        canonical_order()[16] == SectionKind::Ply,
        canonical_order()[17] == SectionKind::Objs,
        canonical_order()[18] == SectionKind::Obj,
        canonical_order()[19] == SectionKind::Sobj,
        canonical_order()[20] == SectionKind::Sobs,
        canonical_order()[21] == SectionKind::Door,
        canonical_order()[22] == SectionKind::Stas,
        canonical_order()[23] == SectionKind::Stag,
        canonical_order()[24] == SectionKind::Sndt,
        canonical_order()[25] == SectionKind::Lylt,
        canonical_order()[26] == SectionKind::Lay,
{
}

/// Serializes a whole scene blob: the 12-byte top header, the sections in
/// canonical order, and 0xFF filler up to the next 32-byte boundary. The
/// result is bit-identical to re-encoding an unmodified vanilla model.
pub fn write_bzs(e: &BzsEntries) -> (r: Result<Vec<u8>, BzsError>)
    ensures
        r matches Ok(v) ==> v@ == spec_write_bzs(*e),
        r is Ok <==> write_ok(*e, 12, 1),
{
    let (c, body) = match write_entries_core(e, 12, 1) {
        Ok(x) => x,
        Err(er) => {
            return Err(er);
        },
    };
    let mut body = body;
    if body.len() as u64 > 0xFFFF_FFFF {
        // unreachable: a successful table write stays below the offset limit
        assert(false);
        return Err(BzsError::TooLarge { pos: 12 });
    }
    let mut out: Vec<u8> = Vec::new();
    out.push(0x56);
    out.push(0x30);
    out.push(0x30);
    out.push(0x31);
    crate::bytes::push_u16_be(&mut out, c);
    crate::bytes::push_u16_be(&mut out, 0xFFFF);
    crate::bytes::push_u32_be(&mut out, 12);
    out.append(&mut body);
    let ghost unpadded = out@;
    proof {
        assert(unpadded =~= seq![0x56u8, 0x30u8, 0x30u8, 0x31u8] + spec_u16_be(
            spec_count(*e) as u16,
        ) + spec_u16_be(0xFFFF) + spec_u32_be(12) + spec_write_entries(*e, 12, 1));
    }
    let pad = crate::bytes::pad_len(out.len() as u64, 32);
    let mut p: u64 = 0;
    while p < pad
        invariant
            p <= pad,
            pad == spec_pad_to(unpadded.len() as int, 32),
            out@ =~= unpadded + Seq::new(p as nat, |k: int| 0xFFu8),
        decreases pad - p,
    {
        out.push(0xFF);
        p = p + 1;
        assert(out@ =~= unpadded + Seq::new(p as nat, |k: int| 0xFFu8));
    }
    assert(out@ =~= spec_write_bzs(*e));
    Ok(out)
}

/// A tag the dispatch table knows.
pub open spec fn known_tag(t: u32) -> bool {
    ||| t == TAG_FILE
    ||| t == TAG_SCEN
    ||| t == TAG_CAM
    ||| t == TAG_PATH
    ||| t == TAG_PNT
    ||| t == TAG_SPNT
    ||| t == TAG_BPNT
    ||| t == TAG_SPTH
    ||| t == TAG_AREA
    ||| t == TAG_EVNT
    ||| t == TAG_PLY
    ||| t == TAG_OBJS
    ||| t == TAG_OBJ
    ||| t == TAG_SOBS
    ||| t == TAG_SOBJ
    ||| t == TAG_STAS
    ||| t == TAG_STAG
    ||| t == TAG_SNDT
    ||| t == TAG_DOOR
    ||| t == TAG_LYSE
    ||| t == TAG_STIF
    ||| t == TAG_PCAM
    ||| t == TAG_LYLT
    ||| t == TAG_LAY
    ||| t == TAG_ARCN
    ||| t == TAG_OBJN
    ||| t == TAG_RMPL
}

/// The discipline the reader enforces on the 12-byte header at `p`: it lies
/// inside the buffer, its tag is known, the singleton tags declare exactly
/// one element, and the layer tag declares exactly 29 and appears only above
/// nesting depth zero.
pub open spec fn header_ok(b: Seq<u8>, p: int, depth: nat) -> bool {
    &&& p + 12 <= b.len()
    &&& known_tag(crate::bytes::spec_u32_at(b, p))
    &&& (crate::bytes::spec_u32_at(b, p) == TAG_FILE || crate::bytes::spec_u32_at(b, p)
        == TAG_STIF) ==> crate::bytes::spec_u16_at(b, p + 4) == 1
    &&& crate::bytes::spec_u32_at(b, p) == TAG_LAY ==> crate::bytes::spec_u16_at(b, p + 4) == 29
        && depth > 0
}

/// No more headers than there are kinds.
proof fn lemma_count_from_bound(e: BzsEntries, kinds: Seq<SectionKind>, i: int)
    requires
        0 <= i <= kinds.len(),
    ensures
        count_from(e, kinds, i) <= kinds.len() - i,
    decreases kinds.len() - i,
{
    if i < kinds.len() {
        lemma_count_from_bound(e, kinds, i + 1);
    }
}

/// No two of the first `n` headers carry the given tag: singleton sections
/// appear at most once.
pub open spec fn at_most_one_tag(b: Seq<u8>, offset: u64, n: int, tag: u32) -> bool {
    forall|i1: int, i2: int|
        0 <= i1 < i2 < n ==> !(#[trigger] crate::bytes::spec_u32_at(b, offset + 12 * i1) == tag
            && #[trigger] crate::bytes::spec_u32_at(b, offset + 12 * i2) == tag)
}

/// A no-op edit changes nothing: the writer's output is a function of the
/// model alone, so re-encoding an unmodified model always yields the same
/// byte stream.
pub proof fn lemma_encode_deterministic(e1: BzsEntries, e2: BzsEntries)
    requires
        e1 == e2,
    ensures
        spec_write_bzs(e1) == spec_write_bzs(e2),
{
}

/// Reads one record-sequence section; `Truncated` when the buffer is too
/// short for the declared count.
fn parse_record_section<R: SceneRecord>(data: &[u8], dstart: u64, cnt: u16) -> (r: Result<
    Vec<R>,
    BzsError,
>)
    ensures
        r matches Ok(v) ==> v@.len() == cnt && crate::records::spec_encode_seq(v@)
            =~= data@.subrange(dstart as int, dstart as int + cnt * R::spec_width()),
        r is Err <==> dstart + cnt * R::spec_width() > data@.len(),
{
    match crate::records::decode_records(data, dstart, cnt as u64) {
        Some(v) => Ok(v),
        None => Err(BzsError::Truncated { pos: dstart }),
    }
}

/// Reads a string table: `cnt` 16-bit offsets at `dstart`, then one
/// nul-terminated Shift-JIS string per offset, addressed relative to the
/// section's data start.
/// The characters stored for table entry `i`: the Shift-JIS decoding of the
/// nul-terminated run at that entry's stored offset, relative to the table's
/// start.
pub open spec fn strtab_entry_chars(b: Seq<u8>, dstart: int, i: int) -> Option<Seq<char>> {
    crate::encoding::sjis_dec(
        crate::bytes::nul_run(b, dstart + crate::bytes::spec_u16_at(b, dstart + 2 * i)),
    )
}

/// One table entry can be read: its stored offset stays inside the buffer, a
/// nul terminator follows it, and the bytes decode as Shift-JIS.
pub open spec fn strtab_entry_readable(b: Seq<u8>, dstart: int, i: int) -> bool {
    let off = crate::bytes::spec_u16_at(b, dstart + 2 * i) as int;
    &&& off <= b.len() - dstart
    &&& exists|j: int| dstart + off <= j < b.len() && b[j] == 0
    &&& strtab_entry_chars(b, dstart, i) is Some
}

/// The whole string table can be read: the offset array is in bounds and
/// every entry is readable.
pub open spec fn strtab_readable(b: Seq<u8>, dstart: int, cnt: int) -> bool {
    &&& dstart + 2 * cnt <= b.len()
    &&& forall|i: int| 0 <= i < cnt ==> #[trigger] strtab_entry_readable(b, dstart, i)
}

fn parse_strtab(data: &[u8], dstart: u64, cnt: u16) -> (r: Result<Vec<String>, BzsError>)
    requires
        dstart <= data@.len(),
    ensures
        r matches Ok(v) ==> {
            &&& v@.len() == cnt
            &&& forall|i: int|
                0 <= i < cnt ==> strtab_entry_chars(data@, dstart as int, i) == Some(
                    (#[trigger] v@[i])@,
                )
        },
        r is Ok <==> strtab_readable(data@, dstart as int, cnt as int),
{
    let len: u64 = data.len() as u64;
    if len - dstart < 2 * (cnt as u64) {
        return Err(BzsError::Truncated { pos: dstart });
    }
    let mut strs: Vec<String> = Vec::new();
    let mut i: u64 = 0;
    while i < cnt as u64
        invariant
            i <= cnt as u64,
            strs@.len() == i,
            dstart + 2 * (cnt as u64) <= data@.len(),
            len == data@.len(),
            forall|j: int|
                0 <= j < i ==> strtab_entry_chars(data@, dstart as int, j) == Some(
                    (#[trigger] strs@[j])@,
                ),
            forall|j: int| 0 <= j < i ==> #[trigger] strtab_entry_readable(data@, dstart as int, j),
        decreases cnt as u64 - i,
    {
        let off = crate::bytes::read_u16_be(data, dstart + 2 * i);
        if off as u64 > len - dstart {
            proof {
                if strtab_readable(data@, dstart as int, cnt as int) {
                    assert(strtab_entry_readable(data@, dstart as int, i as int));
                    assert(false);
                }
            }
            return Err(BzsError::Truncated { pos: dstart });
        }
        let spos = dstart + off as u64;
        let run = match crate::bytes::read_nul_terminated(data, spos) {
            Some(v) => v,
            None => {
                proof {
                    if strtab_readable(data@, dstart as int, cnt as int) {
                        assert(strtab_entry_readable(data@, dstart as int, i as int));
                        assert(false);
                    }
                }
                return Err(BzsError::Truncated { pos: spos });
            },
        };
        proof {
            crate::bytes::lemma_nul_run_nonzero(data@, spos as int);
            crate::bytes::lemma_nul_run_whole(run@);
        }
        let s = match crate::encoding::decode(run.as_slice()) {
            Some(s) => s,
            None => {
                proof {
                    if strtab_readable(data@, dstart as int, cnt as int) {
                        assert(strtab_entry_readable(data@, dstart as int, i as int));
                        assert(false);
                    }
                }
                return Err(BzsError::StringEncoding { pos: spos });
            },
        };
        strs.push(s);
        proof {
            assert(strtab_entry_readable(data@, dstart as int, i as int));
        }
        i = i + 1;
        assert(forall|j: int|
            0 <= j < i ==> strtab_entry_chars(data@, dstart as int, j) == Some(
                (#[trigger] strs@[j])@,
            ));
    }
    Ok(strs)
}

/// A decoded room entry matches the on-disc bytes: its id and value count
/// are the entry's first two bytes, and each value is the 16-bit word at the
/// entry-relative offset the entry stores.
pub open spec fn rmpl_entry_matches(b: Seq<u8>, dstart: int, i: int, e: RMPL) -> bool {
    let base = dstart + 4 * i;
    &&& e.room == b[base]
    &&& e.data@.len() == b[base + 1]
    &&& forall|k: int|
        0 <= k < e.data@.len() ==> #[trigger] e.data@[k] == crate::bytes::spec_u16_at(
            b,
            base + crate::bytes::spec_u16_at(b, base + 2) + 2 * k,
        )
}

/// One room entry can be read: the 4-byte entry and its value window stay
/// inside the buffer.
pub open spec fn rmpl_entry_readable(b: Seq<u8>, dstart: int, i: int) -> bool {
    let base = dstart + 4 * i;
    let voff = crate::bytes::spec_u16_at(b, base + 2) as int;
    &&& base + 4 <= b.len()
    &&& voff <= b.len() - base
    &&& base + voff + 2 * (b[base + 1] as int) <= b.len()
}

/// The whole room table can be read.
pub open spec fn rmpl_readable(b: Seq<u8>, dstart: int, cnt: int) -> bool {
    forall|i: int| 0 <= i < cnt ==> #[trigger] rmpl_entry_readable(b, dstart, i)
}

/// Reads a room-index table: `cnt` 4-byte entries at `dstart`, each pointing
/// at its 16-bit values relative to the entry's own position.
fn parse_rmpl(data: &[u8], dstart: u64, cnt: u16) -> (r: Result<Vec<RMPL>, BzsError>)
    requires
        dstart <= data@.len(),
    ensures
        r matches Ok(v) ==> {
            &&& v@.len() == cnt
            &&& forall|i: int|
                0 <= i < cnt ==> rmpl_entry_matches(data@, dstart as int, i, #[trigger] v@[i])
        },
        r is Ok <==> rmpl_readable(data@, dstart as int, cnt as int),
{
    let len: u64 = data.len() as u64;
    let mut out: Vec<RMPL> = Vec::new();
    let mut i: u64 = 0;
    while i < cnt as u64
        invariant
            i <= cnt as u64,
            out@.len() == i,
            dstart <= data@.len(),
            len == data@.len(),
            forall|j: int|
                0 <= j < i ==> rmpl_entry_matches(data@, dstart as int, j, #[trigger] out@[j]),
            forall|j: int| 0 <= j < i ==> #[trigger] rmpl_entry_readable(data@, dstart as int, j),
        decreases cnt as u64 - i,
    {
        if len - dstart < 4 * i + 4 {
            proof {
                if rmpl_readable(data@, dstart as int, cnt as int) {
                    assert(rmpl_entry_readable(data@, dstart as int, i as int));
                    assert(false);
                }
            }
            return Err(BzsError::Truncated { pos: dstart });
        }
        let basepos = dstart + 4 * i;
        let room = crate::bytes::read_u8(data, basepos);
        let vcount = crate::bytes::read_u8(data, basepos + 1);
        let voff = crate::bytes::read_u16_be(data, basepos + 2);
        proof {
            assert(seq![vcount] =~= data@.subrange(basepos as int + 1, basepos as int + 2));
            assert(vcount == data@.subrange(basepos as int + 1, basepos as int + 2)[0]);
        }
        if voff as u64 > len - basepos {
            proof {
                if rmpl_readable(data@, dstart as int, cnt as int) {
                    assert(rmpl_entry_readable(data@, dstart as int, i as int));
                    assert(false);
                }
            }
            return Err(BzsError::Truncated { pos: basepos });
        }
        let vpos = basepos + voff as u64;
        if len - vpos < 2 * (vcount as u64) {
            proof {
                if rmpl_readable(data@, dstart as int, cnt as int) {
                    assert(rmpl_entry_readable(data@, dstart as int, i as int));
                    assert(false);
                }
            }
            return Err(BzsError::Truncated { pos: vpos });
        }
        let mut vals: Vec<u16> = Vec::new();
        let mut j: u64 = 0;
        while j < vcount as u64
            invariant
                j <= vcount as u64,
                vals@.len() == j,
                vpos + 2 * (vcount as u64) <= data@.len(),
                len == data@.len(),
                forall|k: int|
                    0 <= k < j ==> #[trigger] vals@[k] == crate::bytes::spec_u16_at(
                        data@,
                        vpos + 2 * k,
                    ),
            decreases vcount as u64 - j,
        {
            vals.push(crate::bytes::read_u16_be(data, vpos + 2 * j));
            j = j + 1;
        }
        let entry = RMPL { room, data: vals };
        proof {
            assert(seq![room] =~= data@.subrange(basepos as int, basepos as int + 1));
            assert(room == data@.subrange(basepos as int, basepos as int + 1)[0]);
            assert(seq![vcount] =~= data@.subrange(basepos as int + 1, basepos as int + 2));
            assert(vcount == data@.subrange(basepos as int + 1, basepos as int + 2)[0]);
            assert(rmpl_entry_matches(data@, dstart as int, i as int, entry));
            assert(rmpl_entry_readable(data@, dstart as int, i as int));
        }
        out.push(entry);
        i = i + 1;
    }
    Ok(out)
}

/// One layer sub-slot can be read: an empty slot always, a populated one
/// when its nested table is in range and itself parses one level down.
pub open spec fn lay_slot_parses(b: Seq<u8>, dstart: int, li: int, depth: nat) -> bool
    decreases depth, 10int, 0int,
    when depth > 0
{
    let base = dstart + 8 * li;
    let c = crate::bytes::spec_u16_at(b, base) as int;
    let off = crate::bytes::spec_u32_at(b, base + 4) as int;
    c == 0 || (off <= b.len() - base && parse_ok(b, c, base + off, (depth - 1) as nat))
}

/// The first `k` layer sub-slots can all be read.
pub open spec fn lay_slots_parse_upto(b: Seq<u8>, dstart: int, k: int, depth: nat) -> bool
    decreases depth, 10int, 1 + k,
    when depth > 0
{
    k <= 0 || (lay_slots_parse_upto(b, dstart, k - 1, depth) && lay_slot_parses(
        b,
        dstart,
        k - 1,
        depth,
    ))
}

/// Elimination form of [`lay_slots_parse_upto`]: the fact for one slot.
pub proof fn lemma_lay_slot_elim(b: Seq<u8>, dstart: int, k: int, depth: nat, li: int)
    requires
        depth > 0,
        lay_slots_parse_upto(b, dstart, k, depth),
        0 <= li < k,
    ensures
        lay_slot_parses(b, dstart, li, depth),
    decreases k,
{
    if li < k - 1 {
        lemma_lay_slot_elim(b, dstart, k - 1, depth, li);
    }
}

/// The 12-byte header at `p` can be dispatched and its whole payload read:
/// this is exactly the per-header success condition of the readers.
pub open spec fn header_parses(b: Seq<u8>, p: int, depth: nat) -> bool
    decreases depth, 11int, 0int,
{
    let tag = crate::bytes::spec_u32_at(b, p);
    let cnt = crate::bytes::spec_u16_at(b, p + 4) as int;
    let dstart = p + crate::bytes::spec_u32_at(b, p + 8);
    &&& p + 12 <= b.len()
    &&& crate::bytes::spec_u32_at(b, p + 8) <= b.len() - p
    &&& known_tag(tag)
    &&& tag == TAG_FILE ==> cnt == 1 && dstart + 4 <= b.len()
    &&& tag == TAG_STIF ==> cnt == 1 && dstart + 20 <= b.len()
    &&& tag == TAG_SCEN ==> dstart + cnt * 40 <= b.len()
    &&& tag == TAG_CAM ==> dstart + cnt * 44 <= b.len()
    &&& tag == TAG_PATH ==> dstart + cnt * 12 <= b.len()
    &&& tag == TAG_PNT ==> dstart + cnt * 16 <= b.len()
    &&& tag == TAG_SPNT ==> dstart + cnt * 16 <= b.len()
    &&& tag == TAG_BPNT ==> dstart + cnt * 40 <= b.len()
    &&& tag == TAG_SPTH ==> dstart + cnt * 12 <= b.len()
    &&& tag == TAG_AREA ==> dstart + cnt * 32 <= b.len()
    &&& tag == TAG_EVNT ==> dstart + cnt * 52 <= b.len()
    &&& tag == TAG_PLY ==> dstart + cnt * 30 <= b.len()
    &&& tag == TAG_OBJS ==> dstart + cnt * 36 <= b.len()
    &&& tag == TAG_OBJ ==> dstart + cnt * 36 <= b.len()
    &&& tag == TAG_SOBS ==> dstart + cnt * 48 <= b.len()
    &&& tag == TAG_SOBJ ==> dstart + cnt * 48 <= b.len()
    &&& tag == TAG_STAS ==> dstart + cnt * 48 <= b.len()
    &&& tag == TAG_STAG ==> dstart + cnt * 48 <= b.len()
    &&& tag == TAG_SNDT ==> dstart + cnt * 48 <= b.len()
    &&& tag == TAG_DOOR ==> dstart + cnt * 36 <= b.len()
    &&& tag == TAG_LYSE ==> dstart + cnt * 4 <= b.len()
    &&& tag == TAG_PCAM ==> dstart + cnt * 36 <= b.len()
    &&& tag == TAG_LYLT ==> dstart + cnt * 4 <= b.len()
    &&& tag == TAG_ARCN ==> strtab_readable(b, dstart, cnt)
    &&& tag == TAG_OBJN ==> strtab_readable(b, dstart, cnt)
    &&& tag == TAG_RMPL ==> rmpl_readable(b, dstart, cnt)
    &&& tag == TAG_LAY ==> cnt == 29 && depth > 0 && dstart + 232 <= b.len()
        && lay_slots_parse_upto(b, dstart, 29, depth)
}

/// The tag at header `i` appears in no earlier header.
pub open spec fn tag_fresh(b: Seq<u8>, offset: int, i: int) -> bool {
    forall|j: int|
        0 <= j < i ==> #[trigger] crate::bytes::spec_u32_at(b, offset + 12 * j)
            != crate::bytes::spec_u32_at(b, offset + 12 * i)
}

/// The readers succeed on exactly these tables: every header is in bounds
/// with a known tag, the right arity and a fully readable payload, nested
/// layers included, and no tag repeats.
pub open spec fn parse_ok(b: Seq<u8>, n: int, offset: int, depth: nat) -> bool
    decreases depth, 12int, n,
{
    n <= 0 || (parse_ok(b, n - 1, offset, depth) && header_parses(b, offset + 12 * (n - 1), depth)
        && tag_fresh(b, offset, n - 1))
}

/// Elimination form of [`parse_ok`]: the facts for one header.
pub proof fn lemma_parse_ok_elim(b: Seq<u8>, n: int, offset: int, depth: nat, i: int)
    requires
        parse_ok(b, n, offset, depth),
        0 <= i < n,
    ensures
        header_parses(b, offset + 12 * i, depth),
        tag_fresh(b, offset, i),
    decreases n,
{
    if i < n - 1 {
        lemma_parse_ok_elim(b, n - 1, offset, depth, i);
    }
}

/// The two models agree on every field but the one the tag selects.
pub open spec fn sections_agree_except(pre: BzsEntries, cur: BzsEntries, t: u32) -> bool {
    &&& t != TAG_FILE ==> cur.file == pre.file
    &&& t != TAG_STIF ==> cur.stif == pre.stif
    &&& t != TAG_ARCN ==> cur.arcn == pre.arcn
    &&& t != TAG_OBJN ==> cur.objn == pre.objn
    &&& t != TAG_RMPL ==> cur.rmpl == pre.rmpl
    &&& t != TAG_LAY ==> cur.lay == pre.lay
    &&& t != TAG_SCEN ==> cur.scen == pre.scen
    &&& t != TAG_CAM ==> cur.cam == pre.cam
    &&& t != TAG_PATH ==> cur.path == pre.path
    &&& t != TAG_PNT ==> cur.pnt == pre.pnt
    &&& t != TAG_SPNT ==> cur.spnt == pre.spnt
    &&& t != TAG_BPNT ==> cur.bpnt == pre.bpnt
    &&& t != TAG_SPTH ==> cur.spth == pre.spth
    &&& t != TAG_AREA ==> cur.area == pre.area
    &&& t != TAG_EVNT ==> cur.evnt == pre.evnt
    &&& t != TAG_PLY ==> cur.ply == pre.ply
    &&& t != TAG_OBJS ==> cur.objs == pre.objs
    &&& t != TAG_OBJ ==> cur.obj == pre.obj
    &&& t != TAG_SOBS ==> cur.sobs == pre.sobs
    &&& t != TAG_SOBJ ==> cur.sobj == pre.sobj
    &&& t != TAG_STAS ==> cur.stas == pre.stas
    &&& t != TAG_STAG ==> cur.stag == pre.stag
    &&& t != TAG_SNDT ==> cur.sndt == pre.sndt
    &&& t != TAG_DOOR ==> cur.door == pre.door
    &&& t != TAG_LYSE ==> cur.lyse == pre.lyse
    &&& t != TAG_PCAM ==> cur.pcam == pre.pcam
    &&& t != TAG_LYLT ==> cur.lylt == pre.lylt
}

/// A processed header's section survives a later header's update: the later
/// tag differs, so the assignment touched another field.
proof fn lemma_section_frame(
    b: Seq<u8>,
    offset: u64,
    i: int,
    pre: BzsEntries,
    cur: BzsEntries,
    tag: u32,
    depth: nat,
)
    requires
        forall|j: int| 0 <= j < i ==> #[trigger] section_decoded(b, offset + 12 * j, pre, depth),
        forall|j: int|
            0 <= j < i ==> #[trigger] crate::bytes::spec_u32_at(b, offset + 12 * j) != tag,
        sections_agree_except(pre, cur, tag),
    ensures
        forall|j: int| 0 <= j < i ==> #[trigger] section_decoded(b, offset + 12 * j, cur, depth),
{
    assert forall|j: int|
        0 <= j < i implies #[trigger] section_decoded(b, offset + 12 * j, cur, depth) by {
        assert(section_decoded(b, offset + 12 * j, pre, depth));
        assert(crate::bytes::spec_u32_at(b, offset + 12 * j) != tag);
    }
}

/// Walks one header table of `entrycount` 12-byte entries at `offset`,
/// dispatching each tag to its codec; `depth` is the remaining layer nesting
/// allowance. On success every processed header obeyed [`header_ok`].
/// The model with nothing in it.
pub open spec fn is_empty_model(e: BzsEntries) -> bool {
    &&& e.file is None
    &&& e.stif is None
    &&& e.scen@.len() == 0
    &&& e.cam@.len() == 0
    &&& e.path@.len() == 0
    &&& e.pnt@.len() == 0
    &&& e.spnt@.len() == 0
    &&& e.bpnt@.len() == 0
    &&& e.spth@.len() == 0
    &&& e.area@.len() == 0
    &&& e.evnt@.len() == 0
    &&& e.ply@.len() == 0
    &&& e.objs@.len() == 0
    &&& e.obj@.len() == 0
    &&& e.sobs@.len() == 0
    &&& e.sobj@.len() == 0
    &&& e.stas@.len() == 0
    &&& e.stag@.len() == 0
    &&& e.sndt@.len() == 0
    &&& e.door@.len() == 0
    &&& e.lyse@.len() == 0
    &&& e.pcam@.len() == 0
    &&& e.lylt@.len() == 0
    &&& e.arcn@.len() == 0
    &&& e.objn@.len() == 0
    &&& e.rmpl@.len() == 0
    &&& e.lay@.len() == 0
}

/// A record section's decoded form: as many records as the header declares,
/// whose byte images are exactly the section's payload bytes.
pub open spec fn records_decoded<R: SceneRecord>(
    b: Seq<u8>,
    dstart: int,
    cnt: int,
    s: Seq<R>,
) -> bool {
    &&& s.len() == cnt
    &&& dstart + cnt * R::spec_width() <= b.len()
    &&& spec_encode_seq(s) == b.subrange(dstart, dstart + cnt * R::spec_width())
}

/// A string table's decoded form: one string per offset entry, each the
/// decoding of the nul run at its stored offset.
pub open spec fn strtab_decoded(b: Seq<u8>, dstart: int, cnt: int, s: Seq<String>) -> bool {
    &&& s.len() == cnt
    &&& forall|i: int| 0 <= i < cnt ==> strtab_entry_chars(b, dstart, i) == Some((#[trigger] s[i])@)
}

/// A room table's decoded form: one entry per 4-byte record, each matching
/// the on-disc bytes.
pub open spec fn rmpl_decoded(b: Seq<u8>, dstart: int, cnt: int, s: Seq<RMPL>) -> bool {
    &&& s.len() == cnt
    &&& forall|i: int| 0 <= i < cnt ==> rmpl_entry_matches(b, dstart, i, #[trigger] s[i])
}

/// One layer sub-slot's decoded form: a zero count yields the empty model,
/// a nonzero count a nested model decoded at the slot-relative offset.
pub open spec fn lay_slot_decoded(
    b: Seq<u8>,
    dstart: int,
    slot: int,
    m: BzsEntries,
    depth: nat,
) -> bool
    decreases depth, 9int, 0int,
{
    let base = dstart + 8 * slot;
    let c = crate::bytes::spec_u16_at(b, base) as int;
    if c == 0 {
        is_empty_model(m)
    } else {
        model_decoded(b, c, base + crate::bytes::spec_u32_at(b, base + 4), m, depth)
    }
}

/// The model field selected by the 12-byte header at `p` holds exactly that
/// section's decoded payload.
pub open spec fn section_decoded(b: Seq<u8>, p: int, e: BzsEntries, depth: nat) -> bool
    decreases depth, 7int, 0int,
{
    let tag = crate::bytes::spec_u32_at(b, p);
    let cnt = crate::bytes::spec_u16_at(b, p + 4) as int;
    let dstart = p + crate::bytes::spec_u32_at(b, p + 8);
    &&& tag == TAG_FILE ==> (e.file matches Some(f) && dstart + 4 <= b.len() && f.spec_encode()
        == b.subrange(dstart, dstart + 4))
    &&& tag == TAG_STIF ==> (e.stif matches Some(st) && dstart + 20 <= b.len() && st.spec_encode()
        == b.subrange(dstart, dstart + 20))
    &&& tag == TAG_SCEN ==> records_decoded(b, dstart, cnt, e.scen@)
    &&& tag == TAG_CAM ==> records_decoded(b, dstart, cnt, e.cam@)
    &&& tag == TAG_PATH ==> records_decoded(b, dstart, cnt, e.path@)
    &&& tag == TAG_PNT ==> records_decoded(b, dstart, cnt, e.pnt@)
    &&& tag == TAG_SPNT ==> records_decoded(b, dstart, cnt, e.spnt@)
    &&& tag == TAG_BPNT ==> records_decoded(b, dstart, cnt, e.bpnt@)
    &&& tag == TAG_SPTH ==> records_decoded(b, dstart, cnt, e.spth@)
    &&& tag == TAG_AREA ==> records_decoded(b, dstart, cnt, e.area@)
    &&& tag == TAG_EVNT ==> records_decoded(b, dstart, cnt, e.evnt@)
    &&& tag == TAG_PLY ==> records_decoded(b, dstart, cnt, e.ply@)
    &&& tag == TAG_OBJS ==> records_decoded(b, dstart, cnt, e.objs@)
    &&& tag == TAG_OBJ ==> records_decoded(b, dstart, cnt, e.obj@)
    &&& tag == TAG_SOBS ==> records_decoded(b, dstart, cnt, e.sobs@)
    &&& tag == TAG_SOBJ ==> records_decoded(b, dstart, cnt, e.sobj@)
    &&& tag == TAG_STAS ==> records_decoded(b, dstart, cnt, e.stas@)
    &&& tag == TAG_STAG ==> records_decoded(b, dstart, cnt, e.stag@)
    &&& tag == TAG_SNDT ==> records_decoded(b, dstart, cnt, e.sndt@)
    &&& tag == TAG_DOOR ==> records_decoded(b, dstart, cnt, e.door@)
    &&& tag == TAG_LYSE ==> records_decoded(b, dstart, cnt, e.lyse@)
    &&& tag == TAG_PCAM ==> records_decoded(b, dstart, cnt, e.pcam@)
    &&& tag == TAG_LYLT ==> records_decoded(b, dstart, cnt, e.lylt@)
    &&& tag == TAG_ARCN ==> strtab_decoded(b, dstart, cnt, e.arcn@)
    &&& tag == TAG_OBJN ==> strtab_decoded(b, dstart, cnt, e.objn@)
    &&& tag == TAG_RMPL ==> rmpl_decoded(b, dstart, cnt, e.rmpl@)
    &&& tag == TAG_LAY ==> (e.lay@.len() == 29 && depth > 0 && dstart + 232 <= b.len() && (
    forall|li: int|
        0 <= li < 29 ==> lay_slot_decoded(b, dstart, li, #[trigger] e.lay@[li], (depth - 1) as nat)
    ))
}

/// Every header of the table is reflected in the model: the reader decoded
/// each section into its field.
pub open spec fn model_decoded(
    b: Seq<u8>,
    entrycount: int,
    offset: int,
    e: BzsEntries,
    depth: nat,
) -> bool
    decreases depth, 8int, entrycount,
{
    entrycount <= 0 || (section_decoded(b, offset + 12 * (entrycount - 1), e, depth)
        && model_decoded(b, entrycount - 1, offset, e, depth))
}

/// Introduction form of [`model_decoded`] from its per-header instances.
pub proof fn lemma_model_decoded_intro(
    b: Seq<u8>,
    entrycount: int,
    offset: int,
    e: BzsEntries,
    depth: nat,
)
    requires
        forall|i: int|
            0 <= i < entrycount ==> #[trigger] section_decoded(b, offset + 12 * i, e, depth),
    ensures
        model_decoded(b, entrycount, offset, e, depth),
    decreases entrycount,
{
    if entrycount > 0 {
        lemma_model_decoded_intro(b, entrycount - 1, offset, e, depth);
        assert(section_decoded(b, offset + 12 * (entrycount - 1), e, depth));
    }
}

/// Elimination form of [`model_decoded`]: the fact for one header.
pub proof fn lemma_model_decoded_elim(
    b: Seq<u8>,
    entrycount: int,
    offset: int,
    e: BzsEntries,
    depth: nat,
    j: int,
)
    requires
        model_decoded(b, entrycount, offset, e, depth),
        0 <= j < entrycount,
    ensures
        section_decoded(b, offset + 12 * j, e, depth),
    decreases entrycount,
{
    if j < entrycount - 1 {
        lemma_model_decoded_elim(b, entrycount - 1, offset, e, depth, j);
    }
}

/// Some header among the first `n` carries the tag.
pub open spec fn tag_present(b: Seq<u8>, offset: u64, n: int, t: u32) -> bool {
    exists|j: int| 0 <= j < n && #[trigger] crate::bytes::spec_u32_at(b, offset + 12 * j) == t
}

/// Every populated field of the model has a header carrying its tag: the
/// reader never invents contents for untagged sections.
pub open spec fn fields_tagged(b: Seq<u8>, offset: u64, n: int, e: BzsEntries) -> bool {
    &&& e.file is Some ==> tag_present(b, offset, n, TAG_FILE)
    &&& e.stif is Some ==> tag_present(b, offset, n, TAG_STIF)
    &&& e.scen@.len() > 0 ==> tag_present(b, offset, n, TAG_SCEN)
    &&& e.cam@.len() > 0 ==> tag_present(b, offset, n, TAG_CAM)
    &&& e.path@.len() > 0 ==> tag_present(b, offset, n, TAG_PATH)
    &&& e.pnt@.len() > 0 ==> tag_present(b, offset, n, TAG_PNT)
    &&& e.spnt@.len() > 0 ==> tag_present(b, offset, n, TAG_SPNT)
    &&& e.bpnt@.len() > 0 ==> tag_present(b, offset, n, TAG_BPNT)
    &&& e.spth@.len() > 0 ==> tag_present(b, offset, n, TAG_SPTH)
    &&& e.area@.len() > 0 ==> tag_present(b, offset, n, TAG_AREA)
    &&& e.evnt@.len() > 0 ==> tag_present(b, offset, n, TAG_EVNT)
    &&& e.ply@.len() > 0 ==> tag_present(b, offset, n, TAG_PLY)
    &&& e.objs@.len() > 0 ==> tag_present(b, offset, n, TAG_OBJS)
    &&& e.obj@.len() > 0 ==> tag_present(b, offset, n, TAG_OBJ)
    &&& e.sobs@.len() > 0 ==> tag_present(b, offset, n, TAG_SOBS)
    &&& e.sobj@.len() > 0 ==> tag_present(b, offset, n, TAG_SOBJ)
    &&& e.stas@.len() > 0 ==> tag_present(b, offset, n, TAG_STAS)
    &&& e.stag@.len() > 0 ==> tag_present(b, offset, n, TAG_STAG)
    &&& e.sndt@.len() > 0 ==> tag_present(b, offset, n, TAG_SNDT)
    &&& e.door@.len() > 0 ==> tag_present(b, offset, n, TAG_DOOR)
    &&& e.lyse@.len() > 0 ==> tag_present(b, offset, n, TAG_LYSE)
    &&& e.pcam@.len() > 0 ==> tag_present(b, offset, n, TAG_PCAM)
    &&& e.lylt@.len() > 0 ==> tag_present(b, offset, n, TAG_LYLT)
    &&& e.arcn@.len() > 0 ==> tag_present(b, offset, n, TAG_ARCN)
    &&& e.objn@.len() > 0 ==> tag_present(b, offset, n, TAG_OBJN)
    &&& e.rmpl@.len() > 0 ==> tag_present(b, offset, n, TAG_RMPL)
    &&& e.lay@.len() > 0 ==> tag_present(b, offset, n, TAG_LAY)
}

/// All header tags among the first `n` are pairwise distinct.
pub open spec fn distinct_tags(b: Seq<u8>, offset: u64, n: int) -> bool {
    forall|j1: int, j2: int|
        0 <= j1 < j2 < n ==> #[trigger] crate::bytes::spec_u32_at(b, offset + 12 * j1)
            != #[trigger] crate::bytes::spec_u32_at(b, offset + 12 * j2)
}

/// Whether a tag was already dispatched in this header table.
fn contains_tag(seen: &Vec<u32>, t: u32) -> (r: bool)
    ensures
        r == seen@.contains(t),
{
    let mut i: usize = 0;
    while i < seen.len()
        invariant
            i <= seen@.len(),
            forall|j: int| 0 <= j < i ==> seen@[j] != t,
        decreases seen@.len() - i,
    {
        if seen[i] == t {
            return true;
        }
        i = i + 1;
    }
    false
}

#[verifier::rlimit(100)]
#[verifier::spinoff_prover]
fn parse_entries_rec(data: &[u8], entrycount: u64, offset: u64, depth: u8) -> (r: Result<
    BzsEntries,
    BzsError,
>)
    ensures
        r matches Ok(e) ==> {
            &&& forall|i: int|
                0 <= i < entrycount ==> #[trigger] header_ok(data@, offset + 12 * i, depth as nat)
            &&& model_decoded(data@, entrycount as int, offset as int, e, depth as nat)
            &&& fields_tagged(data@, offset, entrycount as int, e)
            &&& distinct_tags(data@, offset, entrycount as int)
            &&& at_most_one_tag(data@, offset, entrycount as int, TAG_FILE)
            &&& at_most_one_tag(data@, offset, entrycount as int, TAG_STIF)
            &&& e.lay@.len() == 0 || e.lay@.len() == 29
        },
        r is Ok <==> parse_ok(data@, entrycount as int, offset as int, depth as nat),
    decreases depth, 1int,
{
    let ghost dn = depth as nat;
    let mut entries = BzsEntries::new();
    let mut seen: Vec<u32> = Vec::new();
    let len: u64 = data.len() as u64;
    let mut i: u64 = 0;
    while i < entrycount
        invariant
            i <= entrycount,
            len == data@.len(),
            dn == depth as nat,
            parse_ok(data@, i as int, offset as int, dn),
            forall|j: int| 0 <= j < i ==> #[trigger] header_ok(data@, offset + 12 * j, dn),
            forall|j: int|
                0 <= j < i ==> #[trigger] section_decoded(data@, offset + 12 * j, entries, dn),
            forall|j: int|
                0 <= j < i ==> seen@.contains(
                    #[trigger] crate::bytes::spec_u32_at(data@, offset + 12 * j),
                ),
            forall|t: u32|
                #[trigger] seen@.contains(t) ==> exists|j: int|
                    0 <= j < i && #[trigger] crate::bytes::spec_u32_at(data@, offset + 12 * j)
                        == t,
            distinct_tags(data@, offset, i as int),
            fields_tagged(data@, offset, i as int, entries),
            entries.lay@.len() == 0 || entries.lay@.len() == 29,
        decreases entrycount - i,
    {
        let ghost pre = entries;
        let pos128: u128 = offset as u128 + (i as u128) * 12;
        if pos128 + 12 > len as u128 {
            proof {
                if parse_ok(data@, entrycount as int, offset as int, dn) {
                    lemma_parse_ok_elim(data@, entrycount as int, offset as int, dn, i as int);
                    assert(false);
                }
            }
            #[verifier::truncate]
            let p = pos128 as u64;
            return Err(BzsError::Truncated { pos: p });
        }
        let pos: u64 = pos128 as u64;
        let tag = crate::bytes::read_u32_be(data, pos);
        let cnt = crate::bytes::read_u16_be(data, pos + 4);
        let reloff = crate::bytes::read_u32_be(data, pos + 8);
        if contains_tag(&seen, tag) {
            proof {
                if parse_ok(data@, entrycount as int, offset as int, dn) {
                    lemma_parse_ok_elim(data@, entrycount as int, offset as int, dn, i as int);
                    assert(false);
                }
            }
            return Err(BzsError::DuplicateTag { tag, pos });
        }
        proof {
            assert forall|j: int|
                0 <= j < i implies #[trigger] crate::bytes::spec_u32_at(data@, offset + 12 * j)
                != tag by {
                assert(seen@.contains(crate::bytes::spec_u32_at(data@, offset + 12 * j)));
            }
        }
        if reloff as u64 > len - pos {
            proof {
                if parse_ok(data@, entrycount as int, offset as int, dn) {
                    lemma_parse_ok_elim(data@, entrycount as int, offset as int, dn, i as int);
                    assert(false);
                }
            }
            return Err(BzsError::Truncated { pos });
        }
        let dstart = pos + reloff as u64;
        match tag {
            TAG_FILE => {
                if cnt != 1 {
                    proof {
                        if parse_ok(data@, entrycount as int, offset as int, dn) {
                            lemma_parse_ok_elim(
                                data@,
                                entrycount as int,
                                offset as int,
                                dn,
                                i as int,
                            );
                            assert(false);
                        }
                    }
                    return Err(BzsError::WrongEntryCount { tag, count: cnt, pos });
                }
                if len - dstart < 4 {
                    proof {
                        if parse_ok(data@, entrycount as int, offset as int, dn) {
                            lemma_parse_ok_elim(
                                data@,
                                entrycount as int,
                                offset as int,
                                dn,
                                i as int,
                            );
                            assert(false);
                        }
                    }
                    return Err(BzsError::Truncated { pos: dstart });
                }
                entries.file = Some(FILE::decode(data, dstart));
                proof {
                    assert(section_decoded(data@, pos as int, entries, dn));
                    assert(sections_agree_except(pre, entries, tag));
                    lemma_section_frame(data@, offset, i as int, pre, entries, tag, dn);
                    assert(header_parses(data@, pos as int, dn));
                }
            },
            TAG_STIF => {
                if cnt != 1 {
                    proof {
                        if parse_ok(data@, entrycount as int, offset as int, dn) {
                            lemma_parse_ok_elim(
                                data@,
                                entrycount as int,
                                offset as int,
                                dn,
                                i as int,
                            );
                            assert(false);
                        }
                    }
                    return Err(BzsError::WrongEntryCount { tag, count: cnt, pos });
                }
                if len - dstart < 20 {
                    proof {
                        if parse_ok(data@, entrycount as int, offset as int, dn) {
                            lemma_parse_ok_elim(
                                data@,
                                entrycount as int,
                                offset as int,
                                dn,
                                i as int,
                            );
                            assert(false);
                        }
                    }
                    return Err(BzsError::Truncated { pos: dstart });
                }
                entries.stif = Some(STIF::decode(data, dstart));
                proof {
                    assert(section_decoded(data@, pos as int, entries, dn));
                    assert(sections_agree_except(pre, entries, tag));
                    lemma_section_frame(data@, offset, i as int, pre, entries, tag, dn);
                    assert(header_parses(data@, pos as int, dn));
                }
            },
            TAG_SCEN => {
                entries.scen = match parse_record_section(data, dstart, cnt) {
                    Ok(v) => v,
                    Err(er) => {
                        proof {
                            if parse_ok(data@, entrycount as int, offset as int, dn) {
                                lemma_parse_ok_elim(
                                    data@,
                                    entrycount as int,
                                    offset as int,
                                    dn,
                                    i as int,
                                );
                                assert(false);
                            }
                        }
                        return Err(er);
                    },
                };
                proof {
                    assert(section_decoded(data@, pos as int, entries, dn));
                    assert(sections_agree_except(pre, entries, tag));
                    lemma_section_frame(data@, offset, i as int, pre, entries, tag, dn);
                    assert(header_parses(data@, pos as int, dn));
                }
            },
            TAG_CAM => {
                entries.cam = match parse_record_section(data, dstart, cnt) {
                    Ok(v) => v,
                    Err(er) => {
                        proof {
                            if parse_ok(data@, entrycount as int, offset as int, dn) {
                                lemma_parse_ok_elim(
                                    data@,
                                    entrycount as int,
                                    offset as int,
                                    dn,
                                    i as int,
                                );
                                assert(false);
                            }
                        }
                        return Err(er);
                    },
                };
                proof {
                    assert(section_decoded(data@, pos as int, entries, dn));
                    assert(sections_agree_except(pre, entries, tag));
                    lemma_section_frame(data@, offset, i as int, pre, entries, tag, dn);
                    assert(header_parses(data@, pos as int, dn));
                }
            },
            TAG_PATH => {
                entries.path = match parse_record_section(data, dstart, cnt) {
                    Ok(v) => v,
                    Err(er) => {
                        proof {
                            if parse_ok(data@, entrycount as int, offset as int, dn) {
                                lemma_parse_ok_elim(
                                    data@,
                                    entrycount as int,
                                    offset as int,
                                    dn,
                                    i as int,
                                );
                                assert(false);
                            }
                        }
                        return Err(er);
                    },
                };
                proof {
                    assert(section_decoded(data@, pos as int, entries, dn));
                    assert(sections_agree_except(pre, entries, tag));
                    lemma_section_frame(data@, offset, i as int, pre, entries, tag, dn);
                    assert(header_parses(data@, pos as int, dn));
                }
            },
            TAG_PNT => {
                entries.pnt = match parse_record_section(data, dstart, cnt) {
                    Ok(v) => v,
                    Err(er) => {
                        proof {
                            if parse_ok(data@, entrycount as int, offset as int, dn) {
                                lemma_parse_ok_elim(
                                    data@,
                                    entrycount as int,
                                    offset as int,
                                    dn,
                                    i as int,
                                );
                                assert(false);
                            }
                        }
                        return Err(er);
                    },
                };
                proof {
                    assert(section_decoded(data@, pos as int, entries, dn));
                    assert(sections_agree_except(pre, entries, tag));
                    lemma_section_frame(data@, offset, i as int, pre, entries, tag, dn);
                    assert(header_parses(data@, pos as int, dn));
                }
            },
            TAG_SPNT => {
                entries.spnt = match parse_record_section(data, dstart, cnt) {
                    Ok(v) => v,
                    Err(er) => {
                        proof {
                            if parse_ok(data@, entrycount as int, offset as int, dn) {
                                lemma_parse_ok_elim(
                                    data@,
                                    entrycount as int,
                                    offset as int,
                                    dn,
                                    i as int,
                                );
                                assert(false);
                            }
                        }
                        return Err(er);
                    },
                };
                proof {
                    assert(section_decoded(data@, pos as int, entries, dn));
                    assert(sections_agree_except(pre, entries, tag));
                    lemma_section_frame(data@, offset, i as int, pre, entries, tag, dn);
                    assert(header_parses(data@, pos as int, dn));
                }
            },
            TAG_BPNT => {
                entries.bpnt = match parse_record_section(data, dstart, cnt) {
                    Ok(v) => v,
                    Err(er) => {
                        proof {
                            if parse_ok(data@, entrycount as int, offset as int, dn) {
                                lemma_parse_ok_elim(
                                    data@,
                                    entrycount as int,
                                    offset as int,
                                    dn,
                                    i as int,
                                );
                                assert(false);
                            }
                        }
                        return Err(er);
                    },
                };
                proof {
                    assert(section_decoded(data@, pos as int, entries, dn));
                    assert(sections_agree_except(pre, entries, tag));
                    lemma_section_frame(data@, offset, i as int, pre, entries, tag, dn);
                    assert(header_parses(data@, pos as int, dn));
                }
            },
            TAG_SPTH => {
                entries.spth = match parse_record_section(data, dstart, cnt) {
                    Ok(v) => v,
                    Err(er) => {
                        proof {
                            if parse_ok(data@, entrycount as int, offset as int, dn) {
                                lemma_parse_ok_elim(
                                    data@,
                                    entrycount as int,
                                    offset as int,
                                    dn,
                                    i as int,
                                );
                                assert(false);
                            }
                        }
                        return Err(er);
                    },
                };
                proof {
                    assert(section_decoded(data@, pos as int, entries, dn));
                    assert(sections_agree_except(pre, entries, tag));
                    lemma_section_frame(data@, offset, i as int, pre, entries, tag, dn);
                    assert(header_parses(data@, pos as int, dn));
                }
            },
            TAG_AREA => {
                entries.area = match parse_record_section(data, dstart, cnt) {
                    Ok(v) => v,
                    Err(er) => {
                        proof {
                            if parse_ok(data@, entrycount as int, offset as int, dn) {
                                lemma_parse_ok_elim(
                                    data@,
                                    entrycount as int,
                                    offset as int,
                                    dn,
                                    i as int,
                                );
                                assert(false);
                            }
                        }
                        return Err(er);
                    },
                };
                proof {
                    assert(section_decoded(data@, pos as int, entries, dn));
                    assert(sections_agree_except(pre, entries, tag));
                    lemma_section_frame(data@, offset, i as int, pre, entries, tag, dn);
                    assert(header_parses(data@, pos as int, dn));
                }
            },
            TAG_EVNT => {
                entries.evnt = match parse_record_section(data, dstart, cnt) {
                    Ok(v) => v,
                    Err(er) => {
                        proof {
                            if parse_ok(data@, entrycount as int, offset as int, dn) {
                                lemma_parse_ok_elim(
                                    data@,
                                    entrycount as int,
                                    offset as int,
                                    dn,
                                    i as int,
                                );
                                assert(false);
                            }
                        }
                        return Err(er);
                    },
                };
                proof {
                    assert(section_decoded(data@, pos as int, entries, dn));
                    assert(sections_agree_except(pre, entries, tag));
                    lemma_section_frame(data@, offset, i as int, pre, entries, tag, dn);
                    assert(header_parses(data@, pos as int, dn));
                }
            },
            TAG_PLY => {
                entries.ply = match parse_record_section(data, dstart, cnt) {
                    Ok(v) => v,
                    Err(er) => {
                        proof {
                            if parse_ok(data@, entrycount as int, offset as int, dn) {
                                lemma_parse_ok_elim(
                                    data@,
                                    entrycount as int,
                                    offset as int,
                                    dn,
                                    i as int,
                                );
                                assert(false);
                            }
                        }
                        return Err(er);
                    },
                };
                proof {
                    assert(section_decoded(data@, pos as int, entries, dn));
                    assert(sections_agree_except(pre, entries, tag));
                    lemma_section_frame(data@, offset, i as int, pre, entries, tag, dn);
                    assert(header_parses(data@, pos as int, dn));
                }
            },
            TAG_OBJS => {
                entries.objs = match parse_record_section(data, dstart, cnt) {
                    Ok(v) => v,
                    Err(er) => {
                        proof {
                            if parse_ok(data@, entrycount as int, offset as int, dn) {
                                lemma_parse_ok_elim(
                                    data@,
                                    entrycount as int,
                                    offset as int,
                                    dn,
                                    i as int,
                                );
                                assert(false);
                            }
                        }
                        return Err(er);
                    },
                };
                proof {
                    assert(section_decoded(data@, pos as int, entries, dn));
                    assert(sections_agree_except(pre, entries, tag));
                    lemma_section_frame(data@, offset, i as int, pre, entries, tag, dn);
                    assert(header_parses(data@, pos as int, dn));
                }
            },
            TAG_OBJ => {
                entries.obj = match parse_record_section(data, dstart, cnt) {
                    Ok(v) => v,
                    Err(er) => {
                        proof {
                            if parse_ok(data@, entrycount as int, offset as int, dn) {
                                lemma_parse_ok_elim(
                                    data@,
                                    entrycount as int,
                                    offset as int,
                                    dn,
                                    i as int,
                                );
                                assert(false);
                            }
                        }
                        return Err(er);
                    },
                };
                proof {
                    assert(section_decoded(data@, pos as int, entries, dn));
                    assert(sections_agree_except(pre, entries, tag));
                    lemma_section_frame(data@, offset, i as int, pre, entries, tag, dn);
                    assert(header_parses(data@, pos as int, dn));
                }
            },
            TAG_SOBS => {
                entries.sobs = match parse_record_section(data, dstart, cnt) {
                    Ok(v) => v,
                    Err(er) => {
                        proof {
                            if parse_ok(data@, entrycount as int, offset as int, dn) {
                                lemma_parse_ok_elim(
                                    data@,
                                    entrycount as int,
                                    offset as int,
                                    dn,
                                    i as int,
                                );
                                assert(false);
                            }
                        }
                        return Err(er);
                    },
                };
                proof {
                    assert(section_decoded(data@, pos as int, entries, dn));
                    assert(sections_agree_except(pre, entries, tag));
                    lemma_section_frame(data@, offset, i as int, pre, entries, tag, dn);
                    assert(header_parses(data@, pos as int, dn));
                }
            },
            TAG_SOBJ => {
                entries.sobj = match parse_record_section(data, dstart, cnt) {
                    Ok(v) => v,
                    Err(er) => {
                        proof {
                            if parse_ok(data@, entrycount as int, offset as int, dn) {
                                lemma_parse_ok_elim(
                                    data@,
                                    entrycount as int,
                                    offset as int,
                                    dn,
                                    i as int,
                                );
                                assert(false);
                            }
                        }
                        return Err(er);
                    },
                };
                proof {
                    assert(section_decoded(data@, pos as int, entries, dn));
                    assert(sections_agree_except(pre, entries, tag));
                    lemma_section_frame(data@, offset, i as int, pre, entries, tag, dn);
                    assert(header_parses(data@, pos as int, dn));
                }
            },
            TAG_STAS => {
                entries.stas = match parse_record_section(data, dstart, cnt) {
                    Ok(v) => v,
                    Err(er) => {
                        proof {
                            if parse_ok(data@, entrycount as int, offset as int, dn) {
                                lemma_parse_ok_elim(
                                    data@,
                                    entrycount as int,
                                    offset as int,
                                    dn,
                                    i as int,
                                );
                                assert(false);
                            }
                        }
                        return Err(er);
                    },
                };
                proof {
                    assert(section_decoded(data@, pos as int, entries, dn));
                    assert(sections_agree_except(pre, entries, tag));
                    lemma_section_frame(data@, offset, i as int, pre, entries, tag, dn);
                    assert(header_parses(data@, pos as int, dn));
                }
            },
            TAG_STAG => {
                entries.stag = match parse_record_section(data, dstart, cnt) {
                    Ok(v) => v,
                    Err(er) => {
                        proof {
                            if parse_ok(data@, entrycount as int, offset as int, dn) {
                                lemma_parse_ok_elim(
                                    data@,
                                    entrycount as int,
                                    offset as int,
                                    dn,
                                    i as int,
                                );
                                assert(false);
                            }
                        }
                        return Err(er);
                    },
                };
                proof {
                    assert(section_decoded(data@, pos as int, entries, dn));
                    assert(sections_agree_except(pre, entries, tag));
                    lemma_section_frame(data@, offset, i as int, pre, entries, tag, dn);
                    assert(header_parses(data@, pos as int, dn));
                }
            },
            TAG_SNDT => {
                entries.sndt = match parse_record_section(data, dstart, cnt) {
                    Ok(v) => v,
                    Err(er) => {
                        proof {
                            if parse_ok(data@, entrycount as int, offset as int, dn) {
                                lemma_parse_ok_elim(
                                    data@,
                                    entrycount as int,
                                    offset as int,
                                    dn,
                                    i as int,
                                );
                                assert(false);
                            }
                        }
                        return Err(er);
                    },
                };
                proof {
                    assert(section_decoded(data@, pos as int, entries, dn));
                    assert(sections_agree_except(pre, entries, tag));
                    lemma_section_frame(data@, offset, i as int, pre, entries, tag, dn);
                    assert(header_parses(data@, pos as int, dn));
                }
            },
            TAG_DOOR => {
                entries.door = match parse_record_section(data, dstart, cnt) {
                    Ok(v) => v,
                    Err(er) => {
                        proof {
                            if parse_ok(data@, entrycount as int, offset as int, dn) {
                                lemma_parse_ok_elim(
                                    data@,
                                    entrycount as int,
                                    offset as int,
                                    dn,
                                    i as int,
                                );
                                assert(false);
                            }
                        }
                        return Err(er);
                    },
                };
                proof {
                    assert(section_decoded(data@, pos as int, entries, dn));
                    assert(sections_agree_except(pre, entries, tag));
                    lemma_section_frame(data@, offset, i as int, pre, entries, tag, dn);
                    assert(header_parses(data@, pos as int, dn));
                }
            },
            TAG_LYSE => {
                entries.lyse = match parse_record_section(data, dstart, cnt) {
                    Ok(v) => v,
                    Err(er) => {
                        proof {
                            if parse_ok(data@, entrycount as int, offset as int, dn) {
                                lemma_parse_ok_elim(
                                    data@,
                                    entrycount as int,
                                    offset as int,
                                    dn,
                                    i as int,
                                );
                                assert(false);
                            }
                        }
                        return Err(er);
                    },
                };
                proof {
                    assert(section_decoded(data@, pos as int, entries, dn));
                    assert(sections_agree_except(pre, entries, tag));
                    lemma_section_frame(data@, offset, i as int, pre, entries, tag, dn);
                    assert(header_parses(data@, pos as int, dn));
                }
            },
            TAG_PCAM => {
                entries.pcam = match parse_record_section(data, dstart, cnt) {
                    Ok(v) => v,
                    Err(er) => {
                        proof {
                            if parse_ok(data@, entrycount as int, offset as int, dn) {
                                lemma_parse_ok_elim(
                                    data@,
                                    entrycount as int,
                                    offset as int,
                                    dn,
                                    i as int,
                                );
                                assert(false);
                            }
                        }
                        return Err(er);
                    },
                };
                proof {
                    assert(section_decoded(data@, pos as int, entries, dn));
                    assert(sections_agree_except(pre, entries, tag));
                    lemma_section_frame(data@, offset, i as int, pre, entries, tag, dn);
                    assert(header_parses(data@, pos as int, dn));
                }
            },
            TAG_LYLT => {
                entries.lylt = match parse_record_section(data, dstart, cnt) {
                    Ok(v) => v,
                    Err(er) => {
                        proof {
                            if parse_ok(data@, entrycount as int, offset as int, dn) {
                                lemma_parse_ok_elim(
                                    data@,
                                    entrycount as int,
                                    offset as int,
                                    dn,
                                    i as int,
                                );
                                assert(false);
                            }
                        }
                        return Err(er);
                    },
                };
                proof {
                    assert(section_decoded(data@, pos as int, entries, dn));
                    assert(sections_agree_except(pre, entries, tag));
                    lemma_section_frame(data@, offset, i as int, pre, entries, tag, dn);
                    assert(header_parses(data@, pos as int, dn));
                }
            },
            TAG_ARCN => {
                entries.arcn = match parse_strtab(data, dstart, cnt) {
                    Ok(v) => v,
                    Err(er) => {
                        proof {
                            if parse_ok(data@, entrycount as int, offset as int, dn) {
                                lemma_parse_ok_elim(
                                    data@,
                                    entrycount as int,
                                    offset as int,
                                    dn,
                                    i as int,
                                );
                                assert(false);
                            }
                        }
                        return Err(er);
                    },
                };
                proof {
                    assert(section_decoded(data@, pos as int, entries, dn));
                    assert(sections_agree_except(pre, entries, tag));
                    lemma_section_frame(data@, offset, i as int, pre, entries, tag, dn);
                    assert(header_parses(data@, pos as int, dn));
                }
            },
            TAG_OBJN => {
                entries.objn = match parse_strtab(data, dstart, cnt) {
                    Ok(v) => v,
                    Err(er) => {
                        proof {
                            if parse_ok(data@, entrycount as int, offset as int, dn) {
                                lemma_parse_ok_elim(
                                    data@,
                                    entrycount as int,
                                    offset as int,
                                    dn,
                                    i as int,
                                );
                                assert(false);
                            }
                        }
                        return Err(er);
                    },
                };
                proof {
                    assert(section_decoded(data@, pos as int, entries, dn));
                    assert(sections_agree_except(pre, entries, tag));
                    lemma_section_frame(data@, offset, i as int, pre, entries, tag, dn);
                    assert(header_parses(data@, pos as int, dn));
                }
            },
            TAG_RMPL => {
                entries.rmpl = match parse_rmpl(data, dstart, cnt) {
                    Ok(v) => v,
                    Err(er) => {
                        proof {
                            if parse_ok(data@, entrycount as int, offset as int, dn) {
                                lemma_parse_ok_elim(
                                    data@,
                                    entrycount as int,
                                    offset as int,
                                    dn,
                                    i as int,
                                );
                                assert(false);
                            }
                        }
                        return Err(er);
                    },
                };
                proof {
                    assert(section_decoded(data@, pos as int, entries, dn));
                    assert(sections_agree_except(pre, entries, tag));
                    lemma_section_frame(data@, offset, i as int, pre, entries, tag, dn);
                    assert(header_parses(data@, pos as int, dn));
                }
            },
            TAG_LAY => {
                if cnt != LAYER_COUNT {
                    proof {
                        if parse_ok(data@, entrycount as int, offset as int, dn) {
                            lemma_parse_ok_elim(
                                data@,
                                entrycount as int,
                                offset as int,
                                dn,
                                i as int,
                            );
                            assert(false);
                        }
                    }
                    return Err(BzsError::WrongEntryCount { tag, count: cnt, pos });
                }
                if depth == 0 {
                    proof {
                        if parse_ok(data@, entrycount as int, offset as int, dn) {
                            lemma_parse_ok_elim(
                                data@,
                                entrycount as int,
                                offset as int,
                                dn,
                                i as int,
                            );
                            assert(false);
                        }
                    }
                    return Err(BzsError::NestedLayers { pos });
                }
                let mut layers: Vec<BzsEntries> = Vec::new();
                let mut li: u64 = 0;
                while li < LAYER_COUNT as u64
                    invariant
                        li <= LAYER_COUNT as u64,
                        layers@.len() == li,
                        dstart <= data@.len(),
                        dstart + 8 * li <= data@.len(),
                        len == data@.len(),
                        depth >= 1,
                        dn == depth as nat,
                        i < entrycount,
                        pos == offset + 12 * i,
                        dstart == pos + crate::bytes::spec_u32_at(data@, pos as int + 8),
                        crate::bytes::spec_u32_at(data@, pos as int) == TAG_LAY,
                        crate::bytes::spec_u16_at(data@, pos as int + 4) == 29,
                        crate::bytes::spec_u32_at(data@, pos as int + 8) <= data@.len() - pos,
                        pos + 12 <= data@.len(),
                        forall|sl: int|
                            0 <= sl < li ==> lay_slot_decoded(
                                data@,
                                dstart as int,
                                sl,
                                #[trigger] layers@[sl],
                                (dn - 1) as nat,
                            ),
                        lay_slots_parse_upto(data@, dstart as int, li as int, dn),
                    decreases LAYER_COUNT as u64 - li,
                {
                    if len - dstart < 8 * li + 8 {
                        proof {
                            if parse_ok(data@, entrycount as int, offset as int, dn) {
                                lemma_parse_ok_elim(
                                    data@,
                                    entrycount as int,
                                    offset as int,
                                    dn,
                                    i as int,
                                );
                                assert(header_parses(data@, offset + 12 * (i as int), dn));
                                assert(false);
                            }
                        }
                        return Err(BzsError::Truncated { pos: dstart });
                    }
                    let baseoff = dstart + 8 * li;
                    let lcount = crate::bytes::read_u16_be(data, baseoff);
                    let loff = crate::bytes::read_u32_be(data, baseoff + 4);
                    if lcount == 0 {
                        let empty = BzsEntries::new();
                        proof {
                            assert(lay_slot_decoded(
                                data@,
                                dstart as int,
                                li as int,
                                empty,
                                (dn - 1) as nat,
                            ));
                            assert(lay_slot_parses(data@, dstart as int, li as int, dn));
                            assert(lay_slots_parse_upto(data@, dstart as int, li + 1, dn));
                        }
                        layers.push(empty);
                    } else {
                        if loff as u64 > len - baseoff {
                            proof {
                                if parse_ok(data@, entrycount as int, offset as int, dn) {
                                    lemma_parse_ok_elim(
                                        data@,
                                        entrycount as int,
                                        offset as int,
                                        dn,
                                        i as int,
                                    );
                                    assert(header_parses(data@, offset + 12 * (i as int), dn));
                                    lemma_lay_slot_elim(
                                        data@,
                                        dstart as int,
                                        29,
                                        dn,
                                        li as int,
                                    );
                                    assert(false);
                                }
                            }
                            return Err(BzsError::Truncated { pos: baseoff });
                        }
                        let nested = match parse_entries_rec(
                            data,
                            lcount as u64,
                            baseoff + loff as u64,
                            depth - 1,
                        ) {
                            Ok(v) => v,
                            Err(er) => {
                                proof {
                                    if parse_ok(data@, entrycount as int, offset as int, dn) {
                                        lemma_parse_ok_elim(
                                            data@,
                                            entrycount as int,
                                            offset as int,
                                            dn,
                                            i as int,
                                        );
                                        assert(header_parses(
                                            data@,
                                            offset + 12 * (i as int),
                                            dn,
                                        ));
                                        lemma_lay_slot_elim(
                                            data@,
                                            dstart as int,
                                            29,
                                            dn,
                                            li as int,
                                        );
                                        assert(false);
                                    }
                                }
                                return Err(er);
                            },
                        };
                        proof {
                            assert(lay_slot_decoded(
                                data@,
                                dstart as int,
                                li as int,
                                nested,
                                (dn - 1) as nat,
                            ));
                            assert(lay_slot_parses(data@, dstart as int, li as int, dn));
                            assert(lay_slots_parse_upto(data@, dstart as int, li + 1, dn));
                        }
                        layers.push(nested);
                    }
                    li = li + 1;
                }
                entries.lay = layers;
                proof {
                    assert(section_decoded(data@, pos as int, entries, dn));
                    assert(sections_agree_except(pre, entries, tag));
                    lemma_section_frame(data@, offset, i as int, pre, entries, tag, dn);
                    assert(lay_slots_parse_upto(data@, dstart as int, 29, dn));
                    assert(header_parses(data@, pos as int, dn));
                }
            },
            _ => {
                proof {
                    if parse_ok(data@, entrycount as int, offset as int, dn) {
                        lemma_parse_ok_elim(data@, entrycount as int, offset as int, dn, i as int);
                        assert(false);
                    }
                }
                return Err(BzsError::UnknownTag { tag, pos });
            },
        }
        let ghost pre_seen = seen@;
        seen.push(tag);
        proof {
            assert(header_ok(data@, offset + 12 * i, dn));
            assert(tag_fresh(data@, offset as int, i as int));
            assert(parse_ok(data@, i + 1, offset as int, dn));
            assert(fields_tagged(data@, offset, i + 1, entries));
            assert forall|j: int|
                0 <= j < i + 1 implies seen@.contains(
                #[trigger] crate::bytes::spec_u32_at(data@, offset + 12 * j),
            ) by {
                if j < i {
                    let t = crate::bytes::spec_u32_at(data@, offset + 12 * j);
                    let w = choose|w: int| 0 <= w < pre_seen.len() && pre_seen[w] == t;
                    assert(seen@[w] == t);
                } else {
                    assert(seen@.last() == tag);
                }
            }
            assert forall|t: u32| #[trigger] seen@.contains(t) implies exists|j: int|
                0 <= j < i + 1 && #[trigger] crate::bytes::spec_u32_at(data@, offset + 12 * j)
                == t by {
                let w = choose|w: int| 0 <= w < seen@.len() && seen@[w] == t;
                if w < pre_seen.len() {
                    assert(pre_seen[w] == t);
                    assert(pre_seen.contains(t));
                } else {
                    assert(seen@[w] == tag);
                    assert(crate::bytes::spec_u32_at(data@, offset + 12 * i) == t);
                }
            }
        }
        i = i + 1;
    }
    proof {
        assert forall|k: int|
            0 <= k < entrycount as int implies #[trigger] section_decoded(
            data@,
            offset as int + 12 * k,
            entries,
            dn,
        ) by {
            assert(section_decoded(data@, offset + 12 * k, entries, dn));
        }
        lemma_model_decoded_intro(data@, entrycount as int, offset as int, entries, dn);
        assert(at_most_one_tag(data@, offset, entrycount as int, TAG_FILE));
        assert(at_most_one_tag(data@, offset, entrycount as int, TAG_STIF));
    }
    Ok(entries)
}

/// One decoded section, in header-table order: the same payloads as the
/// aggregate model, but kept as a list so the file order stays visible.
#[derive(Debug)]
pub enum BzsEntry {
    FILE(FILE),
    STIF(STIF),
    ARCN(Vec<String>),
    OBJN(Vec<String>),
    LYLT(Vec<LYLT>),
    LYSE(Vec<LYSE>),
    SCEN(Vec<SCEN>),
    CAM(Vec<CAM>),
    PCAM(Vec<PCAM>),
    PATH(Vec<PATH>),
    PNT(Vec<PNT>),
    SPNT(Vec<SPNT>),
    BPNT(Vec<BPNT>),
    SPTH(Vec<SPTH>),
    AREA(Vec<AREA>),
    EVNT(Vec<EVNT>),
    PLY(Vec<PLY>),
    RMPL(Vec<RMPL>),
    OBJS(Vec<OBJ>),
    OBJ(Vec<OBJ>),
    DOOR(Vec<OBJ>),
    SOBJ(Vec<SOBJ>),
    SOBS(Vec<SOBJ>),
    STAS(Vec<SOBJ>),
    STAG(Vec<SOBJ>),
    SNDT(Vec<SOBJ>),
    LAY(Vec<Vec<BzsEntry>>),
}

/// Walks a header table into a flat entry list, one element per header, in
/// file order; layer sections may recurse exactly one level, and each tag is
/// dispatched at most once, as in the aggregate reader.
/// A list entry's decoded form: its variant matches the header's tag and
/// holds exactly that section's decoded payload.
pub open spec fn entry_decoded(b: Seq<u8>, p: int, ent: BzsEntry, depth: nat) -> bool
    decreases depth, 5int, 0int,
{
    let tag = crate::bytes::spec_u32_at(b, p);
    let cnt = crate::bytes::spec_u16_at(b, p + 4) as int;
    let dstart = p + crate::bytes::spec_u32_at(b, p + 8);
    match ent {
        BzsEntry::FILE(f) => tag == TAG_FILE && dstart + 4 <= b.len() && f.spec_encode()
            == b.subrange(dstart, dstart + 4),
        BzsEntry::STIF(st) => tag == TAG_STIF && dstart + 20 <= b.len() && st.spec_encode()
            == b.subrange(dstart, dstart + 20),
        BzsEntry::SCEN(s) => tag == TAG_SCEN && records_decoded(b, dstart, cnt, s@),
        BzsEntry::CAM(s) => tag == TAG_CAM && records_decoded(b, dstart, cnt, s@),
        BzsEntry::PATH(s) => tag == TAG_PATH && records_decoded(b, dstart, cnt, s@),
        BzsEntry::PNT(s) => tag == TAG_PNT && records_decoded(b, dstart, cnt, s@),
        BzsEntry::SPNT(s) => tag == TAG_SPNT && records_decoded(b, dstart, cnt, s@),
        BzsEntry::BPNT(s) => tag == TAG_BPNT && records_decoded(b, dstart, cnt, s@),
        BzsEntry::SPTH(s) => tag == TAG_SPTH && records_decoded(b, dstart, cnt, s@),
        BzsEntry::AREA(s) => tag == TAG_AREA && records_decoded(b, dstart, cnt, s@),
        BzsEntry::EVNT(s) => tag == TAG_EVNT && records_decoded(b, dstart, cnt, s@),
        BzsEntry::PLY(s) => tag == TAG_PLY && records_decoded(b, dstart, cnt, s@),
        BzsEntry::OBJS(s) => tag == TAG_OBJS && records_decoded(b, dstart, cnt, s@),
        BzsEntry::OBJ(s) => tag == TAG_OBJ && records_decoded(b, dstart, cnt, s@),
        BzsEntry::SOBS(s) => tag == TAG_SOBS && records_decoded(b, dstart, cnt, s@),
        BzsEntry::SOBJ(s) => tag == TAG_SOBJ && records_decoded(b, dstart, cnt, s@),
        BzsEntry::STAS(s) => tag == TAG_STAS && records_decoded(b, dstart, cnt, s@),
        BzsEntry::STAG(s) => tag == TAG_STAG && records_decoded(b, dstart, cnt, s@),
        BzsEntry::SNDT(s) => tag == TAG_SNDT && records_decoded(b, dstart, cnt, s@),
        BzsEntry::DOOR(s) => tag == TAG_DOOR && records_decoded(b, dstart, cnt, s@),
        BzsEntry::LYSE(s) => tag == TAG_LYSE && records_decoded(b, dstart, cnt, s@),
        BzsEntry::PCAM(s) => tag == TAG_PCAM && records_decoded(b, dstart, cnt, s@),
        BzsEntry::LYLT(s) => tag == TAG_LYLT && records_decoded(b, dstart, cnt, s@),
        BzsEntry::ARCN(s) => tag == TAG_ARCN && strtab_decoded(b, dstart, cnt, s@),
        BzsEntry::OBJN(s) => tag == TAG_OBJN && strtab_decoded(b, dstart, cnt, s@),
        BzsEntry::RMPL(s) => tag == TAG_RMPL && rmpl_decoded(b, dstart, cnt, s@),
        BzsEntry::LAY(layers) => tag == TAG_LAY && depth > 0 && dstart + 232 <= b.len()
            && layers@.len() == 29 && (forall|li: int|
            0 <= li < 29 ==> lay_list_slot_decoded(
                b,
                dstart,
                li,
                (#[trigger] layers@[li])@,
                (depth - 1) as nat,
            )),
    }
}

/// One layer sub-slot of the list reader: a zero count yields an empty
/// entry list, a nonzero count a nested list decoded at the slot-relative
/// offset.
pub open spec fn lay_list_slot_decoded(
    b: Seq<u8>,
    dstart: int,
    slot: int,
    es: Seq<BzsEntry>,
    depth: nat,
) -> bool
    decreases depth, 6int, 0int,
{
    let base = dstart + 8 * slot;
    let c = crate::bytes::spec_u16_at(b, base) as int;
    if c == 0 {
        es.len() == 0
    } else {
        list_decoded(b, c, base + crate::bytes::spec_u32_at(b, base + 4), es, depth)
    }
}

/// Every header of the table is reflected in the entry list, element by
/// element in header order.
pub open spec fn list_decoded(
    b: Seq<u8>,
    entrycount: int,
    offset: int,
    es: Seq<BzsEntry>,
    depth: nat,
) -> bool
    decreases depth, 5int, entrycount,
{
    entrycount <= 0 || (es.len() >= entrycount && entry_decoded(
        b,
        offset + 12 * (entrycount - 1),
        es[entrycount - 1],
        depth,
    ) && list_decoded(b, entrycount - 1, offset, es, depth))
}

/// Introduction form of [`list_decoded`] from its per-header instances.
pub proof fn lemma_list_decoded_intro(
    b: Seq<u8>,
    entrycount: int,
    offset: int,
    es: Seq<BzsEntry>,
    depth: nat,
)
    requires
        es.len() >= entrycount,
        forall|i: int|
            0 <= i < entrycount ==> entry_decoded(b, offset + 12 * i, #[trigger] es[i], depth),
    ensures
        list_decoded(b, entrycount, offset, es, depth),
    decreases entrycount,
{
    if entrycount > 0 {
        lemma_list_decoded_intro(b, entrycount - 1, offset, es, depth);
        assert(entry_decoded(b, offset + 12 * (entrycount - 1), es[entrycount - 1], depth));
    }
}

/// Elimination form of [`list_decoded`]: the fact for one entry.
pub proof fn lemma_list_decoded_elim(
    b: Seq<u8>,
    entrycount: int,
    offset: int,
    es: Seq<BzsEntry>,
    depth: nat,
    j: int,
)
    requires
        list_decoded(b, entrycount, offset, es, depth),
        0 <= j < entrycount,
    ensures
        entry_decoded(b, offset + 12 * j, es[j], depth),
    decreases entrycount,
{
    if j < entrycount - 1 {
        lemma_list_decoded_elim(b, entrycount - 1, offset, es, depth, j);
    }
}

#[verifier::rlimit(100)]
#[verifier::spinoff_prover]
fn parse_entry_list_rec(data: &[u8], entrycount: u64, offset: u64, depth: u8) -> (r: Result<
    Vec<BzsEntry>,
    BzsError,
>)
    ensures
        r matches Ok(es) ==> {
            &&& es@.len() == entrycount
            &&& forall|i: int|
                0 <= i < entrycount ==> #[trigger] header_ok(data@, offset + 12 * i, depth as nat)
            &&& list_decoded(data@, entrycount as int, offset as int, es@, depth as nat)
            &&& distinct_tags(data@, offset, entrycount as int)
        },
        r is Ok <==> parse_ok(data@, entrycount as int, offset as int, depth as nat),
    decreases depth, 0int,
{
    let ghost dn = depth as nat;
    let mut entries: Vec<BzsEntry> = Vec::new();
    let mut seen: Vec<u32> = Vec::new();
    let len: u64 = data.len() as u64;
    let mut i: u64 = 0;
    while i < entrycount
        invariant
            i <= entrycount,
            len == data@.len(),
            dn == depth as nat,
            entries@.len() == i,
            parse_ok(data@, i as int, offset as int, dn),
            forall|j: int| 0 <= j < i ==> #[trigger] header_ok(data@, offset + 12 * j, dn),
            forall|j: int|
                0 <= j < i ==> entry_decoded(data@, offset + 12 * j, #[trigger] entries@[j], dn),
            forall|j: int|
                0 <= j < i ==> seen@.contains(
                    #[trigger] crate::bytes::spec_u32_at(data@, offset + 12 * j),
                ),
            forall|t: u32|
                #[trigger] seen@.contains(t) ==> exists|j: int|
                    0 <= j < i && #[trigger] crate::bytes::spec_u32_at(data@, offset + 12 * j)
                        == t,
            distinct_tags(data@, offset, i as int),
        decreases entrycount - i,
    {
        let pos128: u128 = offset as u128 + (i as u128) * 12;
        if pos128 + 12 > len as u128 {
            proof {
                if parse_ok(data@, entrycount as int, offset as int, dn) {
                    lemma_parse_ok_elim(data@, entrycount as int, offset as int, dn, i as int);
                    assert(false);
                }
            }
            #[verifier::truncate]
            let p = pos128 as u64;
            return Err(BzsError::Truncated { pos: p });
        }
        let pos: u64 = pos128 as u64;
        let tag = crate::bytes::read_u32_be(data, pos);
        let cnt = crate::bytes::read_u16_be(data, pos + 4);
        let reloff = crate::bytes::read_u32_be(data, pos + 8);
        if contains_tag(&seen, tag) {
            proof {
                if parse_ok(data@, entrycount as int, offset as int, dn) {
                    lemma_parse_ok_elim(data@, entrycount as int, offset as int, dn, i as int);
                    assert(false);
                }
            }
            return Err(BzsError::DuplicateTag { tag, pos });
        }
        proof {
            assert forall|j: int|
                0 <= j < i implies #[trigger] crate::bytes::spec_u32_at(data@, offset + 12 * j)
                != tag by {
                assert(seen@.contains(crate::bytes::spec_u32_at(data@, offset + 12 * j)));
            }
        }
        if reloff as u64 > len - pos {
            proof {
                if parse_ok(data@, entrycount as int, offset as int, dn) {
                    lemma_parse_ok_elim(data@, entrycount as int, offset as int, dn, i as int);
                    assert(false);
                }
            }
            return Err(BzsError::Truncated { pos });
        }
        let dstart = pos + reloff as u64;
        let entry: BzsEntry = match tag {
            TAG_FILE => {
                if cnt != 1 {
                    proof {
                        if parse_ok(data@, entrycount as int, offset as int, dn) {
                            lemma_parse_ok_elim(
                                data@,
                                entrycount as int,
                                offset as int,
                                dn,
                                i as int,
                            );
                            assert(false);
                        }
                    }
                    return Err(BzsError::WrongEntryCount { tag, count: cnt, pos });
                }
                if len - dstart < 4 {
                    proof {
                        if parse_ok(data@, entrycount as int, offset as int, dn) {
                            lemma_parse_ok_elim(
                                data@,
                                entrycount as int,
                                offset as int,
                                dn,
                                i as int,
                            );
                            assert(false);
                        }
                    }
                    return Err(BzsError::Truncated { pos: dstart });
                }
                BzsEntry::FILE(FILE::decode(data, dstart))
            },
            TAG_STIF => {
                if cnt != 1 {
                    proof {
                        if parse_ok(data@, entrycount as int, offset as int, dn) {
                            lemma_parse_ok_elim(
                                data@,
                                entrycount as int,
                                offset as int,
                                dn,
                                i as int,
                            );
                            assert(false);
                        }
                    }
                    return Err(BzsError::WrongEntryCount { tag, count: cnt, pos });
                }
                if len - dstart < 20 {
                    proof {
                        if parse_ok(data@, entrycount as int, offset as int, dn) {
                            lemma_parse_ok_elim(
                                data@,
                                entrycount as int,
                                offset as int,
                                dn,
                                i as int,
                            );
                            assert(false);
                        }
                    }
                    return Err(BzsError::Truncated { pos: dstart });
                }
                BzsEntry::STIF(STIF::decode(data, dstart))
            },
            TAG_SCEN => BzsEntry::SCEN(
                match parse_record_section(data, dstart, cnt) {
                    Ok(v) => v,
                    Err(er) => {
                        proof {
                            if parse_ok(data@, entrycount as int, offset as int, dn) {
                                lemma_parse_ok_elim(
                                    data@,
                                    entrycount as int,
                                    offset as int,
                                    dn,
                                    i as int,
                                );
                                assert(false);
                            }
                        }
                        return Err(er);
                    },
                },
            ),
            TAG_CAM => BzsEntry::CAM(
                match parse_record_section(data, dstart, cnt) {
                    Ok(v) => v,
                    Err(er) => {
                        proof {
                            if parse_ok(data@, entrycount as int, offset as int, dn) {
                                lemma_parse_ok_elim(
                                    data@,
                                    entrycount as int,
                                    offset as int,
                                    dn,
                                    i as int,
                                );
                                assert(false);
                            }
                        }
                        return Err(er);
                    },
                },
            ),
            TAG_PATH => BzsEntry::PATH(
                match parse_record_section(data, dstart, cnt) {
                    Ok(v) => v,
                    Err(er) => {
                        proof {
                            if parse_ok(data@, entrycount as int, offset as int, dn) {
                                lemma_parse_ok_elim(
                                    data@,
                                    entrycount as int,
                                    offset as int,
                                    dn,
                                    i as int,
                                );
                                assert(false);
                            }
                        }
                        return Err(er);
                    },
                },
            ),
            TAG_PNT => BzsEntry::PNT(
                match parse_record_section(data, dstart, cnt) {
                    Ok(v) => v,
                    Err(er) => {
                        proof {
                            if parse_ok(data@, entrycount as int, offset as int, dn) {
                                lemma_parse_ok_elim(
                                    data@,
                                    entrycount as int,
                                    offset as int,
                                    dn,
                                    i as int,
                                );
                                assert(false);
                            }
                        }
                        return Err(er);
                    },
                },
            ),
            TAG_SPNT => BzsEntry::SPNT(
                match parse_record_section(data, dstart, cnt) {
                    Ok(v) => v,
                    Err(er) => {
                        proof {
                            if parse_ok(data@, entrycount as int, offset as int, dn) {
                                lemma_parse_ok_elim(
                                    data@,
                                    entrycount as int,
                                    offset as int,
                                    dn,
                                    i as int,
                                );
                                assert(false);
                            }
                        }
                        return Err(er);
                    },
                },
            ),
            TAG_BPNT => BzsEntry::BPNT(
                match parse_record_section(data, dstart, cnt) {
                    Ok(v) => v,
                    Err(er) => {
                        proof {
                            if parse_ok(data@, entrycount as int, offset as int, dn) {
                                lemma_parse_ok_elim(
                                    data@,
                                    entrycount as int,
                                    offset as int,
                                    dn,
                                    i as int,
                                );
                                assert(false);
                            }
                        }
                        return Err(er);
                    },
                },
            ),
            TAG_SPTH => BzsEntry::SPTH(
                match parse_record_section(data, dstart, cnt) {
                    Ok(v) => v,
                    Err(er) => {
                        proof {
                            if parse_ok(data@, entrycount as int, offset as int, dn) {
                                lemma_parse_ok_elim(
                                    data@,
                                    entrycount as int,
                                    offset as int,
                                    dn,
                                    i as int,
                                );
                                assert(false);
                            }
                        }
                        return Err(er);
                    },
                },
            ),
            TAG_AREA => BzsEntry::AREA(
                match parse_record_section(data, dstart, cnt) {
                    Ok(v) => v,
                    Err(er) => {
                        proof {
                            if parse_ok(data@, entrycount as int, offset as int, dn) {
                                lemma_parse_ok_elim(
                                    data@,
                                    entrycount as int,
                                    offset as int,
                                    dn,
                                    i as int,
                                );
                                assert(false);
                            }
                        }
                        return Err(er);
                    },
                },
            ),
            TAG_EVNT => BzsEntry::EVNT(
                match parse_record_section(data, dstart, cnt) {
                    Ok(v) => v,
                    Err(er) => {
                        proof {
                            if parse_ok(data@, entrycount as int, offset as int, dn) {
                                lemma_parse_ok_elim(
                                    data@,
                                    entrycount as int,
                                    offset as int,
                                    dn,
                                    i as int,
                                );
                                assert(false);
                            }
                        }
                        return Err(er);
                    },
                },
            ),
            TAG_PLY => BzsEntry::PLY(
                match parse_record_section(data, dstart, cnt) {
                    Ok(v) => v,
                    Err(er) => {
                        proof {
                            if parse_ok(data@, entrycount as int, offset as int, dn) {
                                lemma_parse_ok_elim(
                                    data@,
                                    entrycount as int,
                                    offset as int,
                                    dn,
                                    i as int,
                                );
                                assert(false);
                            }
                        }
                        return Err(er);
                    },
                },
            ),
            TAG_OBJS => BzsEntry::OBJS(
                match parse_record_section(data, dstart, cnt) {
                    Ok(v) => v,
                    Err(er) => {
                        proof {
                            if parse_ok(data@, entrycount as int, offset as int, dn) {
                                lemma_parse_ok_elim(
                                    data@,
                                    entrycount as int,
                                    offset as int,
                                    dn,
                                    i as int,
                                );
                                assert(false);
                            }
                        }
                        return Err(er);
                    },
                },
            ),
            TAG_OBJ => BzsEntry::OBJ(
                match parse_record_section(data, dstart, cnt) {
                    Ok(v) => v,
                    Err(er) => {
                        proof {
                            if parse_ok(data@, entrycount as int, offset as int, dn) {
                                lemma_parse_ok_elim(
                                    data@,
                                    entrycount as int,
                                    offset as int,
                                    dn,
                                    i as int,
                                );
                                assert(false);
                            }
                        }
                        return Err(er);
                    },
                },
            ),
            TAG_SOBS => BzsEntry::SOBS(
                match parse_record_section(data, dstart, cnt) {
                    Ok(v) => v,
                    Err(er) => {
                        proof {
                            if parse_ok(data@, entrycount as int, offset as int, dn) {
                                lemma_parse_ok_elim(
                                    data@,
                                    entrycount as int,
                                    offset as int,
                                    dn,
                                    i as int,
                                );
                                assert(false);
                            }
                        }
                        return Err(er);
                    },
                },
            ),
            TAG_SOBJ => BzsEntry::SOBJ(
                match parse_record_section(data, dstart, cnt) {
                    Ok(v) => v,
                    Err(er) => {
                        proof {
                            if parse_ok(data@, entrycount as int, offset as int, dn) {
                                lemma_parse_ok_elim(
                                    data@,
                                    entrycount as int,
                                    offset as int,
                                    dn,
                                    i as int,
                                );
                                assert(false);
                            }
                        }
                        return Err(er);
                    },
                },
            ),
            TAG_STAS => BzsEntry::STAS(
                match parse_record_section(data, dstart, cnt) {
                    Ok(v) => v,
                    Err(er) => {
                        proof {
                            if parse_ok(data@, entrycount as int, offset as int, dn) {
                                lemma_parse_ok_elim(
                                    data@,
                                    entrycount as int,
                                    offset as int,
                                    dn,
                                    i as int,
                                );
                                assert(false);
                            }
                        }
                        return Err(er);
                    },
                },
            ),
            TAG_STAG => BzsEntry::STAG(
                match parse_record_section(data, dstart, cnt) {
                    Ok(v) => v,
                    Err(er) => {
                        proof {
                            if parse_ok(data@, entrycount as int, offset as int, dn) {
                                lemma_parse_ok_elim(
                                    data@,
                                    entrycount as int,
                                    offset as int,
                                    dn,
                                    i as int,
                                );
                                assert(false);
                            }
                        }
                        return Err(er);
                    },
                },
            ),
            TAG_SNDT => BzsEntry::SNDT(
                match parse_record_section(data, dstart, cnt) {
                    Ok(v) => v,
                    Err(er) => {
                        proof {
                            if parse_ok(data@, entrycount as int, offset as int, dn) {
                                lemma_parse_ok_elim(
                                    data@,
                                    entrycount as int,
                                    offset as int,
                                    dn,
                                    i as int,
                                );
                                assert(false);
                            }
                        }
                        return Err(er);
                    },
                },
            ),
            TAG_DOOR => BzsEntry::DOOR(
                match parse_record_section(data, dstart, cnt) {
                    Ok(v) => v,
                    Err(er) => {
                        proof {
                            if parse_ok(data@, entrycount as int, offset as int, dn) {
                                lemma_parse_ok_elim(
                                    data@,
                                    entrycount as int,
                                    offset as int,
                                    dn,
                                    i as int,
                                );
                                assert(false);
                            }
                        }
                        return Err(er);
                    },
                },
            ),
            TAG_LYSE => BzsEntry::LYSE(
                match parse_record_section(data, dstart, cnt) {
                    Ok(v) => v,
                    Err(er) => {
                        proof {
                            if parse_ok(data@, entrycount as int, offset as int, dn) {
                                lemma_parse_ok_elim(
                                    data@,
                                    entrycount as int,
                                    offset as int,
                                    dn,
                                    i as int,
                                );
                                assert(false);
                            }
                        }
                        return Err(er);
                    },
                },
            ),
            TAG_PCAM => BzsEntry::PCAM(
                match parse_record_section(data, dstart, cnt) {
                    Ok(v) => v,
                    Err(er) => {
                        proof {
                            if parse_ok(data@, entrycount as int, offset as int, dn) {
                                lemma_parse_ok_elim(
                                    data@,
                                    entrycount as int,
                                    offset as int,
                                    dn,
                                    i as int,
                                );
                                assert(false);
                            }
                        }
                        return Err(er);
                    },
                },
            ),
            TAG_LYLT => BzsEntry::LYLT(
                match parse_record_section(data, dstart, cnt) {
                    Ok(v) => v,
                    Err(er) => {
                        proof {
                            if parse_ok(data@, entrycount as int, offset as int, dn) {
                                lemma_parse_ok_elim(
                                    data@,
                                    entrycount as int,
                                    offset as int,
                                    dn,
                                    i as int,
                                );
                                assert(false);
                            }
                        }
                        return Err(er);
                    },
                },
            ),
            TAG_ARCN => BzsEntry::ARCN(
                match parse_strtab(data, dstart, cnt) {
                    Ok(v) => v,
                    Err(er) => {
                        proof {
                            if parse_ok(data@, entrycount as int, offset as int, dn) {
                                lemma_parse_ok_elim(
                                    data@,
                                    entrycount as int,
                                    offset as int,
                                    dn,
                                    i as int,
                                );
                                assert(false);
                            }
                        }
                        return Err(er);
                    },
                },
            ),
            TAG_OBJN => BzsEntry::OBJN(
                match parse_strtab(data, dstart, cnt) {
                    Ok(v) => v,
                    Err(er) => {
                        proof {
                            if parse_ok(data@, entrycount as int, offset as int, dn) {
                                lemma_parse_ok_elim(
                                    data@,
                                    entrycount as int,
                                    offset as int,
                                    dn,
                                    i as int,
                                );
                                assert(false);
                            }
                        }
                        return Err(er);
                    },
                },
            ),
            TAG_RMPL => BzsEntry::RMPL(
                match parse_rmpl(data, dstart, cnt) {
                    Ok(v) => v,
                    Err(er) => {
                        proof {
                            if parse_ok(data@, entrycount as int, offset as int, dn) {
                                lemma_parse_ok_elim(
                                    data@,
                                    entrycount as int,
                                    offset as int,
                                    dn,
                                    i as int,
                                );
                                assert(false);
                            }
                        }
                        return Err(er);
                    },
                },
            ),
            TAG_LAY => {
                if cnt != LAYER_COUNT {
                    proof {
                        if parse_ok(data@, entrycount as int, offset as int, dn) {
                            lemma_parse_ok_elim(
                                data@,
                                entrycount as int,
                                offset as int,
                                dn,
                                i as int,
                            );
                            assert(false);
                        }
                    }
                    return Err(BzsError::WrongEntryCount { tag, count: cnt, pos });
                }
                if depth == 0 {
                    proof {
                        if parse_ok(data@, entrycount as int, offset as int, dn) {
                            lemma_parse_ok_elim(
                                data@,
                                entrycount as int,
                                offset as int,
                                dn,
                                i as int,
                            );
                            assert(false);
                        }
                    }
                    return Err(BzsError::NestedLayers { pos });
                }
                let mut layers: Vec<Vec<BzsEntry>> = Vec::new();
                let mut li: u64 = 0;
                while li < LAYER_COUNT as u64
                    invariant
                        li <= LAYER_COUNT as u64,
                        layers@.len() == li,
                        dstart <= data@.len(),
                        dstart + 8 * li <= data@.len(),
                        len == data@.len(),
                        depth >= 1,
                        dn == depth as nat,
                        i < entrycount,
                        pos == offset + 12 * i,
                        dstart == pos + crate::bytes::spec_u32_at(data@, pos as int + 8),
                        crate::bytes::spec_u32_at(data@, pos as int) == TAG_LAY,
                        crate::bytes::spec_u16_at(data@, pos as int + 4) == 29,
                        crate::bytes::spec_u32_at(data@, pos as int + 8) <= data@.len() - pos,
                        pos + 12 <= data@.len(),
                        lay_slots_parse_upto(data@, dstart as int, li as int, dn),
                        forall|sl: int|
                            0 <= sl < li ==> lay_list_slot_decoded(
                                data@,
                                dstart as int,
                                sl,
                                (#[trigger] layers@[sl])@,
                                (dn - 1) as nat,
                            ),
                    decreases LAYER_COUNT as u64 - li,
                {
                    if len - dstart < 8 * li + 8 {
                        proof {
                            if parse_ok(data@, entrycount as int, offset as int, dn) {
                                lemma_parse_ok_elim(
                                    data@,
                                    entrycount as int,
                                    offset as int,
                                    dn,
                                    i as int,
                                );
                                assert(header_parses(data@, offset + 12 * (i as int), dn));
                                assert(false);
                            }
                        }
                        return Err(BzsError::Truncated { pos: dstart });
                    }
                    let baseoff = dstart + 8 * li;
                    let lcount = crate::bytes::read_u16_be(data, baseoff);
                    let loff = crate::bytes::read_u32_be(data, baseoff + 4);
                    if lcount == 0 {
                        let empty: Vec<BzsEntry> = Vec::new();
                        proof {
                            assert(lay_list_slot_decoded(
                                data@,
                                dstart as int,
                                li as int,
                                empty@,
                                (dn - 1) as nat,
                            ));
                            assert(lay_slot_parses(data@, dstart as int, li as int, dn));
                            assert(lay_slots_parse_upto(data@, dstart as int, li + 1, dn));
                        }
                        layers.push(empty);
                    } else {
                        if loff as u64 > len - baseoff {
                            proof {
                                if parse_ok(data@, entrycount as int, offset as int, dn) {
                                    lemma_parse_ok_elim(
                                        data@,
                                        entrycount as int,
                                        offset as int,
                                        dn,
                                        i as int,
                                    );
                                    assert(header_parses(data@, offset + 12 * (i as int), dn));
                                    lemma_lay_slot_elim(
                                        data@,
                                        dstart as int,
                                        29,
                                        dn,
                                        li as int,
                                    );
                                    assert(false);
                                }
                            }
                            return Err(BzsError::Truncated { pos: baseoff });
                        }
                        let nested = match parse_entry_list_rec(
                            data,
                            lcount as u64,
                            baseoff + loff as u64,
                            depth - 1,
                        ) {
                            Ok(v) => v,
                            Err(er) => {
                                proof {
                                    if parse_ok(data@, entrycount as int, offset as int, dn) {
                                        lemma_parse_ok_elim(
                                            data@,
                                            entrycount as int,
                                            offset as int,
                                            dn,
                                            i as int,
                                        );
                                        assert(header_parses(
                                            data@,
                                            offset + 12 * (i as int),
                                            dn,
                                        ));
                                        lemma_lay_slot_elim(
                                            data@,
                                            dstart as int,
                                            29,
                                            dn,
                                            li as int,
                                        );
                                        assert(false);
                                    }
                                }
                                return Err(er);
                            },
                        };
                        proof {
                            assert(lay_list_slot_decoded(
                                data@,
                                dstart as int,
                                li as int,
                                nested@,
                                (dn - 1) as nat,
                            ));
                            assert(lay_slot_parses(data@, dstart as int, li as int, dn));
                            assert(lay_slots_parse_upto(data@, dstart as int, li + 1, dn));
                        }
                        layers.push(nested);
                    }
                    li = li + 1;
                }
                BzsEntry::LAY(layers)
            },
            _ => {
                proof {
                    if parse_ok(data@, entrycount as int, offset as int, dn) {
                        lemma_parse_ok_elim(data@, entrycount as int, offset as int, dn, i as int);
                        assert(false);
                    }
                }
                return Err(BzsError::UnknownTag { tag, pos });
            },
        };
        proof {
            assert(entry_decoded(data@, pos as int, entry, dn));
            assert(header_parses(data@, pos as int, dn));
        }
        entries.push(entry);
        let ghost pre_seen = seen@;
        seen.push(tag);
        proof {
            assert(header_ok(data@, offset + 12 * i, dn));
            assert(tag_fresh(data@, offset as int, i as int));
            assert(parse_ok(data@, i + 1, offset as int, dn));
            assert forall|j: int|
                0 <= j < i + 1 implies seen@.contains(
                #[trigger] crate::bytes::spec_u32_at(data@, offset + 12 * j),
            ) by {
                if j < i {
                    let t = crate::bytes::spec_u32_at(data@, offset + 12 * j);
                    let w = choose|w: int| 0 <= w < pre_seen.len() && pre_seen[w] == t;
                    assert(seen@[w] == t);
                } else {
                    assert(seen@.last() == tag);
                }
            }
            assert forall|t: u32| #[trigger] seen@.contains(t) implies exists|j: int|
                0 <= j < i + 1 && #[trigger] crate::bytes::spec_u32_at(data@, offset + 12 * j)
                == t by {
                let w = choose|w: int| 0 <= w < seen@.len() && seen@[w] == t;
                if w < pre_seen.len() {
                    assert(pre_seen[w] == t);
                    assert(pre_seen.contains(t));
                } else {
                    assert(seen@[w] == tag);
                    assert(crate::bytes::spec_u32_at(data@, offset + 12 * i) == t);
                }
            }
        }
        i = i + 1;
    }
    proof {
        lemma_list_decoded_intro(data@, entrycount as int, offset as int, entries@, dn);
    }
    Ok(entries)
}

/// Walks a header table into a flat entry list, one element per header, in
/// file order; it accepts exactly the tables [`parse_bzs_entries2`] accepts.
pub fn parse_bzs_entries(data: &[u8], entrycount: u64, offset: u64) -> (r: Result<
    Vec<BzsEntry>,
    BzsError,
>)
    ensures
        r matches Ok(es) ==> {
            &&& es@.len() == entrycount
            &&& forall|i: int| 0 <= i < entrycount ==> #[trigger] header_ok(data@, offset + 12 * i, 1)
            &&& list_decoded(data@, entrycount as int, offset as int, es@, 1)
            &&& distinct_tags(data@, offset, entrycount as int)
        },
        r is Ok <==> parse_ok(data@, entrycount as int, offset as int, 1),
{
    parse_entry_list_rec(data, entrycount, offset, 1)
}

/// Walks a header table of `entrycount` entries at `offset` into the
/// aggregate model; layer sections may recurse exactly one level.
pub fn parse_bzs_entries2(data: &[u8], entrycount: u64, offset: u64) -> (r: Result<
    BzsEntries,
    BzsError,
>)
    ensures
        r matches Ok(e) ==> {
            &&& forall|i: int| 0 <= i < entrycount ==> #[trigger] header_ok(data@, offset + 12 * i, 1)
            &&& model_decoded(data@, entrycount as int, offset as int, e, 1)
            &&& fields_tagged(data@, offset, entrycount as int, e)
            &&& distinct_tags(data@, offset, entrycount as int)
            &&& e.lay@.len() == 0 || e.lay@.len() == 29
        },
        r is Ok <==> parse_ok(data@, entrycount as int, offset as int, 1),
{
    parse_entries_rec(data, entrycount, offset, 1)
}

/// Reads a whole scene blob: the 12-byte top header gives the section count
/// and the offset of the first header entry.
pub fn parse_bzs_file(data: &[u8]) -> (r: Result<BzsEntries, BzsError>)
    ensures
        r matches Ok(e) ==> {
            &&& data@.len() >= 12
            &&& forall|i: int|
                0 <= i < crate::bytes::spec_u16_at(data@, 4) ==> #[trigger] header_ok(
                    data@,
                    crate::bytes::spec_u32_at(data@, 8) + 12 * i,
                    1,
                )
            &&& model_decoded(
                data@,
                crate::bytes::spec_u16_at(data@, 4) as int,
                crate::bytes::spec_u32_at(data@, 8) as int,
                e,
                1,
            )
            &&& fields_tagged(
                data@,
                crate::bytes::spec_u32_at(data@, 8) as u64,
                crate::bytes::spec_u16_at(data@, 4) as int,
                e,
            )
            &&& e.lay@.len() == 0 || e.lay@.len() == 29
        },
        r is Ok <==> (data@.len() >= 12 && parse_ok(
            data@,
            crate::bytes::spec_u16_at(data@, 4) as int,
            crate::bytes::spec_u32_at(data@, 8) as int,
            1,
        )),
{
    if data.len() < 12 {
        return Err(BzsError::Truncated { pos: 0 });
    }
    let count = crate::bytes::read_u16_be(data, 4);
    let offset = crate::bytes::read_u32_be(data, 8);
    parse_bzs_entries2(data, count as u64, offset as u64)
}

impl BzsEntries {
    /// The model with nothing in it: every optional record absent, every
    /// sequence empty.
    pub fn new() -> (r: BzsEntries)
        ensures
            r.file is None,
            r.stif is None,
            r.arcn@.len() == 0,
            r.objn@.len() == 0,
            r.lylt@.len() == 0,
            r.lyse@.len() == 0,
            r.scen@.len() == 0,
            r.cam@.len() == 0,
            r.pcam@.len() == 0,
            r.path@.len() == 0,
            r.pnt@.len() == 0,
            r.spnt@.len() == 0,
            r.bpnt@.len() == 0,
            r.spth@.len() == 0,
            r.area@.len() == 0,
            r.evnt@.len() == 0,
            r.ply@.len() == 0,
            r.rmpl@.len() == 0,
            r.objs@.len() == 0,
            r.obj@.len() == 0,
            r.door@.len() == 0,
            r.sobj@.len() == 0,
            r.sobs@.len() == 0,
            r.stas@.len() == 0,
            r.stag@.len() == 0,
            r.sndt@.len() == 0,
            r.lay@.len() == 0,
    {
        BzsEntries {
            file: None,
            stif: None,
            arcn: Vec::new(),
            objn: Vec::new(),
            lylt: Vec::new(),
            lyse: Vec::new(),
            scen: Vec::new(),
            cam: Vec::new(),
            pcam: Vec::new(),
            path: Vec::new(),
            pnt: Vec::new(),
            spnt: Vec::new(),
            bpnt: Vec::new(),
            spth: Vec::new(),
            area: Vec::new(),
            evnt: Vec::new(),
            ply: Vec::new(),
            rmpl: Vec::new(),
            objs: Vec::new(),
            obj: Vec::new(),
            door: Vec::new(),
            sobj: Vec::new(),
            sobs: Vec::new(),
            stas: Vec::new(),
            stag: Vec::new(),
            sndt: Vec::new(),
            lay: Vec::new(),
        }
    }
}

impl Default for BzsEntries {
    fn default() -> (r: BzsEntries)
        ensures
            r.file is None,
            r.stif is None,
            r.lay@.len() == 0,
    {
        BzsEntries::new()
    }
}

} // verus!
