//! The text-flow format pair: message text segments with their labels, and
//! the flow graphs that drive dialogue, both stored in 16-byte-aligned tagged
//! segments.

use vstd::prelude::*;

use crate::bytes::push_u8;
use crate::bytes::push_u16_be;
use crate::bytes::push_i16_be;
use crate::bytes::push_u32_be;
use crate::bytes::read_u8;
use crate::bytes::read_u16_be;
use crate::bytes::read_i16_be;
use crate::bytes::read_u32_be;
use crate::bytes::spec_u16_be;
use crate::bytes::spec_i16_be;
use crate::bytes::spec_pad_to;

verus! {

/// One line of text: its attribute bytes and its UTF-16 code units.
#[derive(Debug, Clone, PartialEq, Eq)]
pub struct TextSegment {
    pub atr: Vec<u8>,
    pub text: Vec<u16>,
}

/// A message-text file: label entries and the text lines they index.
#[derive(Debug)]
pub struct Msbt {
    pub lbl: Vec<(String, u32)>,
    pub text: Vec<TextSegment>,
}

/// A flow file: the flow entries and the named entry points into them.
#[derive(Debug)]
pub struct Msbf {
    pub flows: Vec<FlowEntry>,
    pub entrypoints: Vec<(String, u32)>,
}

/// One flow node. Indices are signed: -1 ends a chain.
#[derive(Debug, Clone, PartialEq, Eq)]
pub enum FlowEntry {
    Start { next: i16 },
    Text { file: u16, line: u16, next: i16 },
    Flow { subtype: u8, param1: u16, param2: u16, next: i16, param3: i16 },
    Switch { subtype: u8, param1: u16, param2: u16, param3: i16, branches: Vec<i16> },
}

impl FlowEntry {
    /// The node kind as text.
    pub fn get_type(&self) -> (r: &'static str)
        ensures
            self matches FlowEntry::Text { .. } ==> r@ == "Text"@,
            self matches FlowEntry::Flow { .. } ==> r@ == "Flow"@,
            self matches FlowEntry::Switch { .. } ==> r@ == "Switch"@,
            self matches FlowEntry::Start { .. } ==> r@ == "Start"@,
    {
        match self {
            FlowEntry::Text { .. } => "Text",
            FlowEntry::Flow { .. } => "Flow",
            FlowEntry::Switch { .. } => "Switch",
            FlowEntry::Start { .. } => "Start",
        }
    }
}

/// Failures while reading or patching a flow or text file.
#[derive(Debug, Clone, Copy, PartialEq, Eq)]
pub enum MsbError {
    Truncated { pos: u64 },
    UnknownSegment { id: u32, pos: u64 },
    UnknownFlowType { typ: u8, pos: u64 },
    CountMismatch,
    Decoding { pos: u64 },
}

impl MsbError {
    /// A short human-readable description of the failure.
    pub fn message(&self) -> (r: &'static str)
    {
        match self {
            MsbError::Truncated { .. } => "unexpected end of data",
            MsbError::UnknownSegment { .. } => "unknown segment id",
            MsbError::UnknownFlowType { .. } => "unknown flow entry type",
            MsbError::CountMismatch => "attribute and text counts differ",
            MsbError::Decoding { .. } => "label is not valid text",
        }
    }
}

/// The label hash folded over the name bytes, before the bucket reduction.
pub open spec fn ep_hash_acc(b: Seq<u8>, i: int) -> u32
    decreases i,
{
    if i <= 0 {
        0u32
    } else {
        ((((ep_hash_acc(b, i - 1) as int) * 0x492 + b[i - 1]) % 0x1_0000_0000) as u32)
    }
}

/// The bucket a label name falls in: a rolling hash of the bytes, reduced by
/// the bucket count.
pub fn entrypoint_hash(bytes: &[u8], entries: usize) -> (r: usize)
    requires
        entries > 0,
    ensures
        r == ep_hash_acc(bytes@, bytes@.len() as int) as int % entries as int,
        r < entries,
{
    let mut hash: u32 = 0;
    let mut i: usize = 0;
    while i < bytes.len()
        invariant
            i <= bytes@.len(),
            hash == ep_hash_acc(bytes@, i as int),
        decreases bytes@.len() - i,
    {
        let m = hash.wrapping_mul(0x492);
        let h2 = m.wrapping_add(bytes[i] as u32);
        proof {
            let yb = bytes@[i as int];
            assert(h2 as int == (hash as int * 0x492 + yb as int) % 0x1_0000_0000)
                by (nonlinear_arith)
                requires
                    m as int == (hash as int * 0x492) % 0x1_0000_0000,
                    h2 as int == (if m as int + yb as int > 0xFFFF_FFFF {
                        m as int + yb as int - 0x1_0000_0000
                    } else {
                        m as int + yb as int
                    }),
                    0 <= (yb as int) && (yb as int) < 256,
                    0 <= (m as int) && (m as int) < 0x1_0000_0000,
                    hash as int >= 0,
            ;
            assert(ep_hash_acc(bytes@, i + 1) as int == (hash as int * 0x492 + yb as int)
                % 0x1_0000_0000);
        }
        hash = h2;
        i = i + 1;
    }
    hash as usize % entries
}

/// Byte image of a flow node's raw 16-byte form.
pub open spec fn spec_flw3(
    typ: u8,
    sub_type: u8,
    param1: u16,
    param2: u16,
    next: i16,
    param3: i16,
    param4: i16,
    param5: i16,
) -> Seq<u8> {
    seq![typ, sub_type, 0u8, 0u8] + spec_u16_be(param1) + spec_u16_be(param2) + spec_i16_be(next)
        + spec_i16_be(param3) + spec_i16_be(param4) + spec_i16_be(param5)
}

/// The raw fixed-width flow node as stored on disc.
#[derive(Debug, Clone, Copy, PartialEq, Eq)]
pub struct RawFlw3 {
    pub typ: u8,
    pub sub_type: u8,
    pub param1: u16,
    pub param2: u16,
    pub next: i16,
    pub param3: i16,
    pub param4: i16,
    pub param5: i16,
}

impl RawFlw3 {
    /// Appends the 16-byte image (two padding zeros after the type pair).
    pub fn encode_into(&self, out: &mut Vec<u8>)
        ensures
            final(out)@ == old(out)@ + spec_flw3(
                self.typ,
                self.sub_type,
                self.param1,
                self.param2,
                self.next,
                self.param3,
                self.param4,
                self.param5,
            ),
    {
        push_u8(out, self.typ);
        push_u8(out, self.sub_type);
        push_u8(out, 0);
        push_u8(out, 0);
        push_u16_be(out, self.param1);
        push_u16_be(out, self.param2);
        push_i16_be(out, self.next);
        push_i16_be(out, self.param3);
        push_i16_be(out, self.param4);
        push_i16_be(out, self.param5);
        assert(out@ =~= old(out)@ + spec_flw3(
            self.typ,
            self.sub_type,
            self.param1,
            self.param2,
            self.next,
            self.param3,
            self.param4,
            self.param5,
        ));
    }

    /// Reads the 16-byte node at `off`; the two padding bytes are skipped.
    pub fn decode(data: &[u8], off: u64) -> (r: Self)
        requires
            off + 16 <= data@.len(),
            data@.len() <= u64::MAX,
        ensures
            r.typ == data@[off as int],
            r.sub_type == data@[off as int + 1],
            r.param1 == crate::bytes::spec_u16_at(data@, off as int + 4),
            r.param2 == crate::bytes::spec_u16_at(data@, off as int + 6),
            r.next as u16 == crate::bytes::spec_u16_at(data@, off as int + 8),
            r.param3 as u16 == crate::bytes::spec_u16_at(data@, off as int + 10),
            r.param4 as u16 == crate::bytes::spec_u16_at(data@, off as int + 12),
            r.param5 as u16 == crate::bytes::spec_u16_at(data@, off as int + 14),
    {
        let typ = read_u8(data, off);
        let sub_type = read_u8(data, off + 1);
        let param1 = read_u16_be(data, off + 4);
        let param2 = read_u16_be(data, off + 6);
        let next = read_i16_be(data, off + 8);
        let param3 = read_i16_be(data, off + 10);
        let param4 = read_i16_be(data, off + 12);
        let param5 = read_i16_be(data, off + 14);
        proof {
            assert(seq![typ] =~= data@.subrange(off as int, off as int + 1));
            assert(typ == data@.subrange(off as int, off as int + 1)[0]);
            assert(seq![sub_type] =~= data@.subrange(off as int + 1, off as int + 2));
            assert(sub_type == data@.subrange(off as int + 1, off as int + 2)[0]);
        }
        RawFlw3 { typ, sub_type, param1, param2, next, param3, param4, param5 }
    }
}

/// Reads one label group table: each group holds a count and an offset to
/// length-prefixed names, each followed by its 32-bit value.
pub fn parse_lbl(data: &[u8], cur_seg_start: u64) -> (r: Result<Vec<(String, u32)>, MsbError>)
{
    let len: u64 = data.len() as u64;
    if cur_seg_start > len || len - cur_seg_start < 4 {
        return Err(MsbError::Truncated { pos: cur_seg_start });
    }
    let group_count = read_u32_be(data, cur_seg_start);
    if group_count > 0x0001_0000 {
        return Err(MsbError::Truncated { pos: cur_seg_start });
    }
    let mut out: Vec<(String, u32)> = Vec::new();
    let mut g: u64 = 0;
    while g < group_count as u64
        invariant
            len == data@.len(),
            cur_seg_start + 4 <= len,
        decreases group_count as u64 - g,
    {
        let rel: u64 = 4 + g * 8;
        if rel > len - cur_seg_start || len - cur_seg_start - rel < 8 {
            return Err(MsbError::Truncated { pos: cur_seg_start });
        }
        let hdr = cur_seg_start + rel;
        let count = read_u32_be(data, hdr);
        let group_offset = read_u32_be(data, hdr + 4);
        if group_offset as u64 > len - cur_seg_start {
            return Err(MsbError::Truncated { pos: hdr });
        }
        let mut pos = cur_seg_start + group_offset as u64;
        let mut c: u64 = 0;
        while c < count as u64
            invariant
                len == data@.len(),
                pos <= len,
            decreases count as u64 - c,
        {
            if len - pos < 1 {
                return Err(MsbError::Truncated { pos });
            }
            let str_len = read_u8(data, pos);
            if len - pos < 1 + str_len as u64 + 4 {
                return Err(MsbError::Truncated { pos });
            }
            let mut name_bytes: Vec<u8> = Vec::new();
            let mut k: u64 = 0;
            while k < str_len as u64
                invariant
                    len == data@.len(),
                    pos + 1 + str_len as u64 <= len,
                decreases str_len as u64 - k,
            {
                name_bytes.push(read_u8(data, pos + 1 + k));
                k = k + 1;
            }
            let name = match crate::encoding::decode(name_bytes.as_slice()) {
                Some(s) => s,
                None => {
                    return Err(MsbError::Decoding { pos });
                },
            };
            let value = read_u32_be(data, pos + 1 + str_len as u64);
            out.push((name, value));
            pos = pos + 1 + str_len as u64 + 4;
            c = c + 1;
        }
        g = g + 1;
    }
    Ok(out)
}

/// Reads a message-text file: the label segment, the attribute segment and
/// the UTF-16 text segment, paired line by line.
pub fn parse_msbt(data: &[u8]) -> (r: Result<Msbt, MsbError>)
    ensures
        r matches Ok(m) ==> data@.len() >= 0x20,
{
    let file_end: u64 = data.len() as u64;
    if file_end < 0x20 || file_end > 0x4000_0000_0000_0000 {
        return Err(MsbError::Truncated { pos: 0 });
    }
    let mut next_seg: u64 = 0x20;
    let mut lbl_entries: Vec<(String, u32)> = Vec::new();
    let mut atr1: Vec<Vec<u8>> = Vec::new();
    let mut txt2: Vec<Vec<u16>> = Vec::new();
    while next_seg < file_end
        invariant
            file_end == data@.len(),
            file_end <= 0x4000_0000_0000_0000,
            next_seg >= 0x20,
        decreases file_end - next_seg,
    {
        if file_end - next_seg < 16 {
            return Err(MsbError::Truncated { pos: next_seg });
        }
        if next_seg > 0x7FFF_FFFF_FFFF_0000 {
            return Err(MsbError::Truncated { pos: next_seg });
        }
        let seg_id = read_u32_be(data, next_seg);
        let seg_len = read_u32_be(data, next_seg + 4);
        let cur_seg_start = next_seg + 0x10;
        let mut advanced = next_seg + 0x10 + seg_len as u64;
        advanced = advanced + crate::bytes::pad_len(advanced, 16);
        if advanced <= next_seg {
            return Err(MsbError::Truncated { pos: next_seg });
        }
        if seg_id == 0x4c424c31 {
            lbl_entries = match parse_lbl(data, cur_seg_start) {
                Ok(v) => v,
                Err(e) => {
                    return Err(e);
                },
            };
        } else if seg_id == 0x41545231 {
            if file_end - cur_seg_start < 8 {
                return Err(MsbError::Truncated { pos: cur_seg_start });
            }
            let count = read_u32_be(data, cur_seg_start);
            let dimension = read_u32_be(data, cur_seg_start + 4);
            proof {
                assert(count as u64 * dimension as u64 <= 0xFFFF_FFFFu64 * 0xFFFF_FFFFu64)
                    by (nonlinear_arith)
                    requires
                        count as u64 <= 0xFFFF_FFFFu64 && dimension as u64 <= 0xFFFF_FFFFu64,
                ;
            }
            if count as u64 * dimension as u64 > file_end - cur_seg_start - 8 {
                return Err(MsbError::Truncated { pos: cur_seg_start });
            }
            let mut i: u64 = 0;
            while i < count as u64
                invariant
                    file_end == data@.len(),
                    cur_seg_start + 8 + count as u64 * dimension as u64 <= file_end,
                    i <= count as u64,
                decreases count as u64 - i,
            {
                let mut current_arr: Vec<u8> = Vec::new();
                let mut d: u64 = 0;
                proof {
                    assert((i + 1) * (dimension as int) <= count as u64 * dimension as u64
                        && i * (dimension as int) >= 0 && (i + 1) * (dimension as int) == i * (
                    dimension as int) + dimension) by (nonlinear_arith)
                        requires
                            0 <= i < count as u64,
                            dimension >= 0,
                    ;
                }
                while d < dimension as u64
                    invariant
                        file_end == data@.len(),
                        cur_seg_start + 8 + (i + 1) * (dimension as int) <= file_end,
                        d <= dimension as u64,
                        i * dimension as int >= 0,
                        (i + 1) * (dimension as int) == i * (dimension as int) + dimension,
                    decreases dimension as u64 - d,
                {
                    current_arr.push(read_u8(data, cur_seg_start + 8 + i * (dimension as u64) + d));
                    d = d + 1;
                }
                atr1.push(current_arr);
                i = i + 1;
            }
        } else if seg_id == 0x54585432 {
            if file_end - cur_seg_start < 4 {
                return Err(MsbError::Truncated { pos: cur_seg_start });
            }
            let count = read_u32_be(data, cur_seg_start);
            if count as u64 * 4 > file_end - cur_seg_start - 4 {
                return Err(MsbError::Truncated { pos: cur_seg_start });
            }
            let mut i: u64 = 0;
            while i < count as u64
                invariant
                    file_end == data@.len(),
                    cur_seg_start + 4 + count as u64 * 4 <= file_end,
                    i <= count as u64,
                decreases count as u64 - i,
            {
                proof {
                    assert((i + 1) * 4 <= count as u64 * 4) by (nonlinear_arith)
                        requires
                            0 <= i < count as u64,
                    ;
                }
                let str_offset = read_u32_be(data, cur_seg_start + 4 + i * 4);
                if str_offset as u64 > file_end - cur_seg_start {
                    return Err(MsbError::Truncated { pos: cur_seg_start });
                }
                let mut p = cur_seg_start + str_offset as u64;
                let mut utf16buf: Vec<u16> = Vec::new();
                loop
                    invariant
                        file_end == data@.len(),
                        p <= file_end,
                    decreases file_end - p,
                {
                    if file_end - p < 2 {
                        return Err(MsbError::Truncated { pos: p });
                    }
                    let val = read_u16_be(data, p);
                    p = p + 2;
                    if val == 0 {
                        break ;
                    }
                    utf16buf.push(val);
                }
                txt2.push(utf16buf);
                i = i + 1;
            }
        } else {
            return Err(MsbError::UnknownSegment { id: seg_id, pos: next_seg });
        }
        next_seg = if advanced > file_end {
            file_end
        } else {
            advanced
        };
    }
    if atr1.len() != txt2.len() {
        return Err(MsbError::CountMismatch);
    }
    let mut text: Vec<TextSegment> = Vec::new();
    let mut i: usize = 0;
    let mut atr1 = atr1;
    let mut txt2 = txt2;
    while i < txt2.len() && atr1.len() == txt2.len()
        invariant
            i <= txt2@.len(),
            atr1@.len() == txt2@.len(),
        decreases txt2@.len() - i,
    {
        let a = atr1[i].clone();
        let t = txt2[i].clone();
        text.push(TextSegment { atr: a, text: t });
        i = i + 1;
    }
    Ok(Msbt { lbl: lbl_entries, text })
}

/// Reads a flow file: the entry-point segment and the flow-node segment with
/// its branch table.
pub fn parse_msbf(data: &[u8]) -> (r: Result<Msbf, MsbError>)
    ensures
        r matches Ok(m) ==> data@.len() >= 0x20,
{
    let file_end: u64 = data.len() as u64;
    if file_end < 0x20 || file_end > 0x4000_0000_0000_0000 {
        return Err(MsbError::Truncated { pos: 0 });
    }
    let mut next_seg: u64 = 0x20;
    let mut entrypoints: Vec<(String, u32)> = Vec::new();
    let mut flows: Vec<FlowEntry> = Vec::new();
    while next_seg < file_end
        invariant
            file_end == data@.len(),
            file_end <= 0x4000_0000_0000_0000,
            next_seg >= 0x20,
        decreases file_end - next_seg,
    {
        if file_end - next_seg < 16 {
            return Err(MsbError::Truncated { pos: next_seg });
        }
        if next_seg > 0x7FFF_FFFF_FFFF_0000 {
            return Err(MsbError::Truncated { pos: next_seg });
        }
        let seg_id = read_u32_be(data, next_seg);
        let seg_len = read_u32_be(data, next_seg + 4);
        let cur_seg_start = next_seg + 0x10;
        let mut advanced = next_seg + 0x10 + seg_len as u64;
        advanced = advanced + crate::bytes::pad_len(advanced, 16);
        if advanced <= next_seg {
            return Err(MsbError::Truncated { pos: next_seg });
        }
        if seg_id == 0x46454E31 {
            entrypoints = match parse_lbl(data, cur_seg_start) {
                Ok(v) => v,
                Err(e) => {
                    return Err(e);
                },
            };
        } else if seg_id == 0x464C5733 {
            if file_end - cur_seg_start < 4 {
                return Err(MsbError::Truncated { pos: cur_seg_start });
            }
            let flow_count = read_u16_be(data, cur_seg_start);
            let flow_start = cur_seg_start + 0x10;
            let branch_start = flow_start + 0x10 * flow_count as u64;
            if file_end < branch_start || branch_start < flow_start {
                return Err(MsbError::Truncated { pos: cur_seg_start });
            }
            let mut i: u64 = 0;
            while i < flow_count as u64
                invariant
                    file_end == data@.len(),
                    file_end <= 0x4000_0000_0000_0000,
                    flow_start + 0x10 * flow_count as u64 <= file_end,
                    branch_start == flow_start + 0x10 * flow_count as u64,
                    i <= flow_count as u64,
                decreases flow_count as u64 - i,
            {
                let fpos = flow_start + i * 0x10;
                let raw = RawFlw3::decode(data, fpos);
                if raw.typ == 1 {
                    flows.push(
                        FlowEntry::Text {
                            file: raw.param3 as u16,
                            line: raw.param4 as u16,
                            next: raw.next,
                        },
                    );
                } else if raw.typ == 2 {
                    let branch_offset = raw.param5;
                    let branch_count = raw.param4;
                    if branch_offset < 0 || branch_count < 0 {
                        return Err(MsbError::Truncated { pos: fpos });
                    }
                    let boff = branch_start + 2 * (branch_offset as u64);
                    if boff > file_end || (branch_count as u64) * 2 > file_end - boff {
                        return Err(MsbError::Truncated { pos: fpos });
                    }
                    let mut branches: Vec<i16> = Vec::new();
                    let mut b: u64 = 0;
                    while b < branch_count as u64
                        invariant
                            file_end == data@.len(),
                            boff + (branch_count as u64) * 2 <= file_end,
                            b <= branch_count as u64,
                        decreases branch_count as u64 - b,
                    {
                        branches.push(read_i16_be(data, boff + 2 * b));
                        b = b + 1;
                    }
                    flows.push(
                        FlowEntry::Switch {
                            param1: raw.param1,
                            param2: raw.param2,
                            param3: raw.param3,
                            subtype: raw.sub_type,
                            branches,
                        },
                    );
                } else if raw.typ == 3 {
                    flows.push(
                        FlowEntry::Flow {
                            subtype: raw.sub_type,
                            param1: raw.param1,
                            param2: raw.param2,
                            param3: raw.param3,
                            next: raw.next,
                        },
                    );
                } else if raw.typ == 4 {
                    flows.push(FlowEntry::Start { next: raw.next });
                } else {
                    return Err(MsbError::UnknownFlowType { typ: raw.typ, pos: fpos });
                }
                i = i + 1;
            }
        } else {
            return Err(MsbError::UnknownSegment { id: seg_id, pos: next_seg });
        }
        next_seg = if advanced > file_end {
            file_end
        } else {
            advanced
        };
    }
    Ok(Msbf { entrypoints, flows })
}

/// Writes one label/entry-point section: the bucket table, then each
/// bucket's length-prefixed names with their values, sorted inside a bucket
/// by value; the section is padded to 16 bytes with 0xAB filler.
pub fn write_lbl_fen(
    map: &Vec<(String, u32)>,
    section_name: u32,
    bucket_count: usize,
    ws: &mut Vec<u8>,
)
    requires
        0 < bucket_count <= 1024,
        old(ws)@.len() <= 0xFFF_FFFF,
    ensures
        final(ws)@.len() >= old(ws)@.len() + 16,
        final(ws)@.subrange(0, old(ws)@.len() as int) =~= old(ws)@,
{
    let ghost base = ws@.len();
    let section_start = ws.len();
    push_u32_be(ws, section_name);
    // length, filled in below
    push_u32_be(ws, 0);
    let mut z: usize = 0;
    while z < 8
        invariant
            z <= 8,
            ws@.len() == base + 8 + z,
            ws@.subrange(0, base as int) =~= old(ws)@,
        decreases 8 - z,
    {
        push_u8(ws, 0);
        z = z + 1;
        assert(ws@.subrange(0, base as int) =~= old(ws)@);
    }
    // sort entries into buckets by the rolling hash, then by value
    let mut buckets: Vec<Vec<(String, u32)>> = Vec::new();
    let mut bi: usize = 0;
    while bi < bucket_count
        invariant
            buckets@.len() == bi,
            bi <= bucket_count,
        decreases bucket_count - bi,
    {
        buckets.push(Vec::new());
        bi = bi + 1;
    }
    let mut mi: usize = 0;
    while mi < map.len()
        invariant
            buckets@.len() == bucket_count,
            0 < bucket_count,
        decreases map@.len() - mi,
    {
        let (name, idx) = (&map[mi].0, map[mi].1);
        let bucket = entrypoint_hash(name.as_str().as_bytes(), bucket_count);
        let mut b = buckets.remove(bucket);
        // keep each bucket ordered by the referenced value
        let mut at: usize = 0;
        while at < b.len() && b[at].1 <= idx
            invariant
                at <= b@.len(),
            decreases b@.len() - at,
        {
            at = at + 1;
        }
        b.insert(at, (name.clone(), idx));
        buckets.insert(bucket, b);
        mi = mi + 1;
    }
    let section_data_start = section_start + 16;
    // the bucket table: count, then (count, offset) per bucket
    push_u32_be(ws, bucket_count as u32);
    let mut bi: usize = 0;
    while bi < bucket_count
        invariant
            bi <= bucket_count,
            buckets@.len() == bucket_count,
            base == section_start,
            base <= 0xFFF_FFFF,
            ws@.len() == base + 20 + 8 * bi,
            ws@.subrange(0, base as int) =~= old(ws)@,
        decreases bucket_count - bi,
    {
        push_u32_be(ws, 0);
        push_u32_be(ws, 0);
        bi = bi + 1;
        assert(ws@.subrange(0, base as int) =~= old(ws)@);
    }
    // bucket data, patching each bucket's header as it is emitted
    let mut seg_data_offset: u64 = (bucket_count as u64) * 8 + 4;
    let mut bi: usize = 0;
    while bi < bucket_count
        invariant
            buckets@.len() == bucket_count,
            bucket_count <= 1024,
            base == section_start,
            base <= 0xFFF_FFFF,
            section_data_start == base + 16,
            ws@.len() >= base + 20 + 8 * bucket_count,
            ws@.subrange(0, base as int) =~= old(ws)@,
        decreases bucket_count - bi,
    {
        let b = &buckets[bi];
        let mut ei: usize = 0;
        while ei < b.len()
            invariant
                ws@.len() >= base + 20 + 8 * bucket_count,
                base <= 0xFFF_FFFF,
                bi < bucket_count <= 1024,
                buckets@.len() == bucket_count,
                b == buckets@[bi as int],
                ws@.subrange(0, base as int) =~= old(ws)@,
            decreases b@.len() - ei,
        {
            let lbl = b[ei].0.as_str().as_bytes();
            #[verifier::truncate]
            let ll = lbl.len() as u8;
            push_u8(ws, ll);
            let mut k: usize = 0;
            while k < lbl.len() && k < 255
                invariant
                    ws@.len() >= base + 20 + 8 * bucket_count,
                    base <= 0xFFF_FFFF,
                    k <= 255,
                    ws@.subrange(0, base as int) =~= old(ws)@,
                decreases lbl@.len() - k,
            {
                push_u8(ws, lbl[k]);
                k = k + 1;
                assert(ws@.subrange(0, base as int) =~= old(ws)@);
            }
            push_u32_be(ws, b[ei].1);
            ei = ei + 1;
            assert(ws@.subrange(0, base as int) =~= old(ws)@);
        }
        // patch this bucket's header: its entry count and data offset
        let hdr_pos: u64 = section_data_start as u64 + 4 + (bi as u64) * 8;
        let mut hdr: Vec<u8> = Vec::new();
        #[verifier::truncate]
        let bl32 = b.len() as u32;
        push_u32_be(&mut hdr, bl32);
        #[verifier::truncate]
        let so32 = seg_data_offset as u32;
        push_u32_be(&mut hdr, so32);
        assert(hdr_pos + 8 <= ws@.len());
        crate::bytes::overwrite_bytes(ws, hdr_pos, &hdr);
        assert(ws@.subrange(0, base as int) =~= old(ws)@);
        let new_off = ws.len() as u64 - (section_data_start as u64);
        if new_off >= seg_data_offset {
            seg_data_offset = new_off;
        }
        bi = bi + 1;
    }
    // patch the section length
    let mut lenb: Vec<u8> = Vec::new();
    #[verifier::truncate]
    let sd32 = seg_data_offset as u32;
    push_u32_be(&mut lenb, sd32);
    crate::bytes::overwrite_bytes(ws, section_start as u64 + 4, &lenb);
    assert(ws@.subrange(0, base as int) =~= old(ws)@);
    // pad to 16 bytes with filler
    if ws.len() as u64 <= u64::MAX - 64 {
        let pad = crate::bytes::pad_len(ws.len() as u64, 16);
        let mut p: u64 = 0;
        while p < pad
            invariant
                ws@.len() >= base + 16,
                ws@.subrange(0, base as int) =~= old(ws)@,
            decreases pad - p,
        {
            push_u8(ws, 0xAB);
            p = p + 1;
            assert(ws@.subrange(0, base as int) =~= old(ws)@);
        }
    }
}

impl Msbf {
    /// Serializes the flow file: the 32-byte file header, the flow-node
    /// segment with its branch table, then the entry-point segment; the file
    /// length is patched into the header at the end.
    pub fn write_msbf(&self) -> (out: Vec<u8>)
        ensures
            out@.len() >= 0x30,
            out@[0] == 0x4Du8 && out@[1] == 0x73u8 && out@[2] == 0x67u8 && out@[3] == 0x46u8,
            out@[4] == 0x6Cu8 && out@[5] == 0x77u8 && out@[6] == 0x42u8 && out@[7] == 0x6Eu8,
    {
        let mut ws: Vec<u8> = Vec::new();
        // magic, byte order mark, version, section count
        push_u8(&mut ws, 0x4D);
        push_u8(&mut ws, 0x73);
        push_u8(&mut ws, 0x67);
        push_u8(&mut ws, 0x46);
        push_u8(&mut ws, 0x6C);
        push_u8(&mut ws, 0x77);
        push_u8(&mut ws, 0x42);
        push_u8(&mut ws, 0x6E);
        push_u8(&mut ws, 0xFE);
        push_u8(&mut ws, 0xFF);
        push_u8(&mut ws, 0x00);
        push_u8(&mut ws, 0x00);
        push_u8(&mut ws, 0x00);
        push_u8(&mut ws, 0x03);
        push_u8(&mut ws, 0x00);
        push_u8(&mut ws, 0x02);
        let mut z: usize = 0;
        while z < 16
            invariant
                z <= 16,
                ws@.len() == 16 + z,
                ws@[0] == 0x4Du8 && ws@[1] == 0x73u8 && ws@[2] == 0x67u8 && ws@[3] == 0x46u8,
                ws@[4] == 0x6Cu8 && ws@[5] == 0x77u8 && ws@[6] == 0x42u8 && ws@[7] == 0x6Eu8,
            decreases 16 - z,
        {
            push_u8(&mut ws, 0);
            z = z + 1;
        }
        // decompose flows into raw nodes and the branch table
        let mut raws: Vec<RawFlw3> = Vec::new();
        let mut branch_points: Vec<i16> = Vec::new();
        let mut i: usize = 0;
        while i < self.flows.len()
            invariant
                branch_points@.len() <= 0x7FFF,
            decreases self.flows@.len() - i,
        {
            match &self.flows[i] {
                FlowEntry::Start { next } => {
                    raws.push(
                        RawFlw3 {
                            typ: 4,
                            sub_type: 0xFF,
                            next: *next,
                            param1: 0,
                            param2: 0,
                            param3: 0,
                            param4: 0,
                            param5: 0,
                        },
                    );
                },
                FlowEntry::Text { file, line, next } => {
                    #[verifier::truncate]
                    let p3 = *file as i16;
                    #[verifier::truncate]
                    let p4 = *line as i16;
                    raws.push(
                        RawFlw3 {
                            typ: 1,
                            sub_type: 0xFF,
                            next: *next,
                            param1: 0,
                            param2: 0,
                            param3: p3,
                            param4: p4,
                            param5: 0,
                        },
                    );
                },
                FlowEntry::Flow { subtype, param1, param2, next, param3 } => {
                    raws.push(
                        RawFlw3 {
                            typ: 3,
                            sub_type: *subtype,
                            next: *next,
                            param1: *param1,
                            param2: *param2,
                            param3: *param3,
                            param4: 0,
                            param5: 0,
                        },
                    );
                },
                FlowEntry::Switch { subtype, param1, param2, param3, branches } => {
                    #[verifier::truncate]
                    let branch_offset = branch_points.len() as i16;
                    let mut bj: usize = 0;
                    while bj < branches.len() && branch_points.len() < 0x7FFF
                        invariant
                            bj <= branches@.len(),
                            branch_points@.len() <= 0x7FFF,
                        decreases branches@.len() - bj,
                    {
                        branch_points.push(branches[bj]);
                        bj = bj + 1;
                    }
                    #[verifier::truncate]
                    let bc = branches.len() as i16;
                    raws.push(
                        RawFlw3 {
                            typ: 2,
                            sub_type: *subtype,
                            next: -1,
                            param1: *param1,
                            param2: *param2,
                            param3: *param3,
                            param4: bc,
                            param5: branch_offset,
                        },
                    );
                },
            }
            i = i + 1;
        }
        // FLW3 body: counts, reserved bytes, nodes, branch table
        let flw_start: u64 = 32;
        let mut body: Vec<u8> = Vec::new();
        #[verifier::truncate]
        let fcount = raws.len() as u16;
        push_u16_be(&mut body, fcount);
        #[verifier::truncate]
        let bcount = branch_points.len() as u16;
        push_u16_be(&mut body, bcount);
        let mut z: usize = 0;
        while z < 12
            decreases 12 - z,
        {
            push_u8(&mut body, 0);
            z = z + 1;
        }
        let mut i: usize = 0;
        while i < raws.len()
            decreases raws@.len() - i,
        {
            let r = raws[i];
            r.encode_into(&mut body);
            i = i + 1;
        }
        let mut i: usize = 0;
        while i < branch_points.len()
            decreases branch_points@.len() - i,
        {
            push_i16_be(&mut body, branch_points[i]);
            i = i + 1;
        }
        // FLW3 section header, then the body padded to 16 bytes
        push_u32_be(&mut ws, 0x464C5733);
        #[verifier::truncate]
        let blen = body.len() as u32;
        push_u32_be(&mut ws, blen);
        let mut z: usize = 0;
        while z < 8
            invariant
                z <= 8,
                ws@.len() == 0x28 + z,
                ws@[0] == 0x4Du8 && ws@[1] == 0x73u8 && ws@[2] == 0x67u8 && ws@[3] == 0x46u8,
                ws@[4] == 0x6Cu8 && ws@[5] == 0x77u8 && ws@[6] == 0x42u8 && ws@[7] == 0x6Eu8,
            decreases 8 - z,
        {
            push_u8(&mut ws, 0);
            z = z + 1;
        }
        let mut i: usize = 0;
        while i < body.len()
            invariant
                ws@.len() >= 0x30,
                ws@[0] == 0x4Du8 && ws@[1] == 0x73u8 && ws@[2] == 0x67u8 && ws@[3] == 0x46u8,
                ws@[4] == 0x6Cu8 && ws@[5] == 0x77u8 && ws@[6] == 0x42u8 && ws@[7] == 0x6Eu8,
            decreases body@.len() - i,
        {
            push_u8(&mut ws, body[i]);
            i = i + 1;
        }
        if ws.len() as u64 <= u64::MAX - 64 {
            let pad = crate::bytes::pad_len(ws.len() as u64, 16);
            let mut p: u64 = 0;
            while p < pad
                invariant
                    ws@.len() >= 0x30,
                    ws@[0] == 0x4Du8 && ws@[1] == 0x73u8 && ws@[2] == 0x67u8 && ws@[3] == 0x46u8,
                    ws@[4] == 0x6Cu8 && ws@[5] == 0x77u8 && ws@[6] == 0x42u8 && ws@[7]
                        == 0x6Eu8,
                decreases pad - p,
            {
                push_u8(&mut ws, 0xAB);
                p = p + 1;
            }
        }
        // FEN1
        if ws.len() <= 0xFFF_FFFF {
            write_lbl_fen(&self.entrypoints, 0x46454E31, 19, &mut ws);
            assert(ws@[0] == 0x4Du8 && ws@[1] == 0x73u8 && ws@[2] == 0x67u8 && ws@[3]
                == 0x46u8);
            assert(ws@[4] == 0x6Cu8 && ws@[5] == 0x77u8 && ws@[6] == 0x42u8 && ws@[7]
                == 0x6Eu8);
        }
        // patch the total file length into the header
        let mut lenb: Vec<u8> = Vec::new();
        #[verifier::truncate]
        let total = ws.len() as u32;
        push_u32_be(&mut lenb, total);
        if 0x16 <= ws.len() {
            crate::bytes::overwrite_bytes(&mut ws, 0x12, &lenb);
        }
        ws
    }
}

} // verus!
