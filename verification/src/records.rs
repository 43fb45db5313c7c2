//! Fixed-layout big-endian record types of the scene container, with a codec
//! proved byte-exact against a spec-level byte image of each record.
//!
//! Record fields that hold IEEE-754 single-precision values in the on-disc
//! format are carried here as their raw 32-bit big-endian bit patterns: the
//! codec never interprets them, it only reproduces them bit for bit.

use vstd::prelude::*;

use crate::bytes::push_u8;
use crate::bytes::push_i8;
use crate::bytes::push_u16_be;
use crate::bytes::push_i16_be;
use crate::bytes::push_u32_be;
use crate::bytes::read_u8;
use crate::bytes::read_i8;
use crate::bytes::read_u16_be;
use crate::bytes::read_i16_be;
use crate::bytes::read_u32_be;
use crate::bytes::spec_u16_be;
use crate::bytes::spec_i16_be;
use crate::bytes::spec_i8_be;
use crate::bytes::spec_u32_be;

verus! {

/// Appends a fixed-size byte array to the output.
pub fn push_array<const N: usize>(out: &mut Vec<u8>, a: &[u8; N])
    ensures
        final(out)@ == old(out)@ + a@,
{
    let mut i: usize = 0;
    while i < N
        invariant
            i <= N,
            a@.len() == N,
            out@ =~= old(out)@ + a@.subrange(0, i as int),
        decreases N - i,
    {
        out.push(a[i]);
        i = i + 1;
        assert(out@ =~= old(out)@ + a@.subrange(0, i as int));
    }
    assert(a@.subrange(0, N as int) =~= a@);
}

/// Reads a fixed-size byte array at `off`.
pub fn read_array<const N: usize>(data: &[u8], off: u64) -> (r: [u8; N])
    requires
        off + N <= data@.len(),
    ensures
        r@ =~= data@.subrange(off as int, off as int + N),
{
    let mut a: [u8; N] = vstd::array::array_fill_for_copy_types(0u8);
    let len = data.len();
    assert(data@.len() <= usize::MAX);
    let mut i: usize = 0;
    while i < N
        invariant
            i <= N,
            a@.len() == N,
            off + N <= data@.len(),
            data@.len() <= u64::MAX,
            forall|j: int| 0 <= j < i ==> a@[j] == data@[off + j],
        decreases N - i,
    {
        a[i] = data[(off + i as u64) as usize];
        i = i + 1;
    }
    a
}

/// A fixed-width record of the scene container. `spec_encode` is the record's
/// big-endian byte image; the exec codec is proved to produce and consume
/// exactly that image.
pub trait SceneRecord: Sized {
    /// Byte width of the encoded record.
    spec fn spec_width() -> nat;

    /// The record's exact byte image.
    spec fn spec_encode(self) -> Seq<u8>;

    /// Exec mirror of [`Self::spec_width`].
    fn byte_width() -> (w: u64)
        ensures
            w == Self::spec_width(),
            0 < w <= 64;

    proof fn lemma_width(self)
        ensures
            self.spec_encode().len() == Self::spec_width();

    /// Appends the record's byte image to `out`.
    fn encode_into(&self, out: &mut Vec<u8>)
        ensures
            final(out)@ == old(out)@ + self.spec_encode();

    /// Reads one record at `off`; the caller has checked the bounds.
    fn decode(data: &[u8], off: u64) -> (r: Self)
        requires
            off + Self::spec_width() <= data@.len(),
        ensures
            r.spec_encode() =~= data@.subrange(off as int, off as int + Self::spec_width());
}

/// Byte image of a whole record sequence: the records' images concatenated.
pub open spec fn spec_encode_seq<R: SceneRecord>(s: Seq<R>) -> Seq<u8>
    decreases s.len(),
{
    if s.len() == 0 {
        seq![]
    } else {
        spec_encode_seq(s.drop_last()) + s.last().spec_encode()
    }
}

pub proof fn lemma_encode_seq_len<R: SceneRecord>(s: Seq<R>)
    ensures
        spec_encode_seq(s).len() == s.len() * R::spec_width(),
    decreases s.len(),
{
    if s.len() == 0 {
    } else {
        lemma_encode_seq_len(s.drop_last());
        s.last().lemma_width();
        assert(s.len() * R::spec_width() == (s.len() - 1) * R::spec_width() + R::spec_width())
            by (nonlinear_arith);
    }
}

/// Inserting one record anywhere in a section grows the section's byte image
/// by exactly that record's encoded width, so every later section's data
/// shifts by that width when the stream is rebuilt.
pub proof fn lemma_insert_grows_payload<R: SceneRecord>(s: Seq<R>, i: int, r: R)
    requires
        0 <= i <= s.len(),
    ensures
        spec_encode_seq(s.insert(i, r)).len() == spec_encode_seq(s).len() + R::spec_width(),
{
    lemma_encode_seq_len(s);
    lemma_encode_seq_len(s.insert(i, r));
    assert((s.len() + 1) * R::spec_width() == s.len() * R::spec_width() + R::spec_width())
        by (nonlinear_arith);
}

/// Appends the byte images of every record in `v`, in order.
pub fn encode_records<R: SceneRecord>(v: &Vec<R>, out: &mut Vec<u8>)
    ensures
        final(out)@ == old(out)@ + spec_encode_seq(v@),
{
    let mut i: usize = 0;
    while i < v.len()
        invariant
            i <= v@.len(),
            out@ =~= old(out)@ + spec_encode_seq(v@.subrange(0, i as int)),
        decreases v@.len() - i,
    {
        v[i].encode_into(out);
        proof {
            assert(v@.subrange(0, i + 1).drop_last() =~= v@.subrange(0, i as int));
            assert(v@.subrange(0, i + 1).last() == v@[i as int]);
        }
        i = i + 1;
        assert(out@ =~= old(out)@ + spec_encode_seq(v@.subrange(0, i as int)));
    }
    assert(v@.subrange(0, v@.len() as int) =~= v@);
}

/// Reads `count` records at `off`; `None` when the buffer is too short.
pub fn decode_records<R: SceneRecord>(data: &[u8], off: u64, count: u64) -> (r: Option<Vec<R>>)
    ensures
        r matches Some(v) ==> {
            &&& v@.len() == count
            &&& off + count * R::spec_width() <= data@.len()
            &&& spec_encode_seq(v@) =~= data@.subrange(
                off as int,
                off as int + count * R::spec_width(),
            )
        },
        r is None <==> off + count * R::spec_width() > data@.len(),
{
    let w = R::byte_width();
    proof {
        assert(count * w <= 0xffff_ffff_ffff_ffffu64 * 64) by (nonlinear_arith)
            requires
                0 <= count <= 0xffff_ffff_ffff_ffffu64,
                0 <= w <= 64,
        ;
    }
    let need: u128 = (count as u128) * (w as u128);
    let len: u64 = data.len() as u64;
    if off > len || need > (len - off) as u128 {
        proof {
            assert(need == count * R::spec_width());
        }
        return None;
    }
    assert(off + count * R::spec_width() <= data@.len());
    let mut v: Vec<R> = Vec::new();
    let mut i: u64 = 0;
    while i < count
        invariant
            i <= count,
            off + count * R::spec_width() <= data@.len(),
            data@.len() <= u64::MAX,
            R::spec_width() == w,
            0 < w <= 64,
            v@.len() == i,
            spec_encode_seq(v@) =~= data@.subrange(off as int, off as int + i * R::spec_width()),
        decreases count - i,
    {
        proof {
            assert((i + 1) * R::spec_width() <= count * R::spec_width() && i * R::spec_width()
                >= 0 && (i + 1) * R::spec_width() == i * R::spec_width() + R::spec_width())
                by (nonlinear_arith)
                requires
                    0 <= i < count,
                    R::spec_width() > 0,
            ;
            assert(i * w == i * R::spec_width());
        }
        let rec = R::decode(data, off + i * w);
        let ghost pre = v@;
        v.push(rec);
        proof {
            let iw = i * R::spec_width() as int;
            let nw = iw + R::spec_width() as int;
            assert(v@.drop_last() =~= pre);
            assert(v@.drop_last() == pre);
            assert(spec_encode_seq(v@) == spec_encode_seq(pre) + rec.spec_encode());
            assert(data@.subrange(off as int, off + nw) =~= data@.subrange(off as int, off + iw)
                + data@.subrange(off + iw, off + nw));
            assert(spec_encode_seq(v@) =~= data@.subrange(off as int, off + nw));
        }
        i = i + 1;
    }
    Some(v)
}

/// File metadata record (singleton section).
/// Encoded width: 4 bytes.
#[derive(Debug, Clone, Copy, PartialEq, Eq)]
pub struct FILE {
    pub unk: i16,
    pub dummy: i16,
}

impl SceneRecord for FILE {
    open spec fn spec_width() -> nat {
        4
    }

    open spec fn spec_encode(self) -> Seq<u8> {
        spec_i16_be(self.unk) + spec_i16_be(self.dummy)
    }

    fn byte_width() -> (w: u64) {
        4
    }

    proof fn lemma_width(self) {
    }

    #[verifier::rlimit(50)]
    fn encode_into(&self, out: &mut Vec<u8>) {
        push_i16_be(out, self.unk);
        push_i16_be(out, self.dummy);
        assert(out@ =~= old(out)@ + self.spec_encode());
    }

    #[verifier::rlimit(50)]
    fn decode(data: &[u8], off: u64) -> (r: Self) {
        let n = data.len();
        assert(data@.len() <= usize::MAX);
        let r = FILE {
            unk: read_i16_be(data, off),
            dummy: read_i16_be(data, off + 2),
        };
        assert(r.spec_encode() =~= data@.subrange(off as int, off as int + 4));
        r
    }
}

/// Scene header record: a named exit/transition descriptor.
/// Encoded width: 40 bytes.
#[derive(Debug, Clone, Copy, PartialEq, Eq)]
pub struct SCEN {
    pub name: [u8; 32],
    pub room: u8,
    pub layer: u8,
    pub entrance: u8,
    pub night: u8,
    pub byte5: u8,
    pub flag6: u8,
    pub zero: u8,
    pub saveprompt: u8,
}

impl SceneRecord for SCEN {
    open spec fn spec_width() -> nat {
        40
    }

    open spec fn spec_encode(self) -> Seq<u8> {
        self.name@ + seq![self.room] + seq![self.layer] + seq![self.entrance] + seq![self.night] + seq![self.byte5] + seq![self.flag6] + seq![self.zero] + seq![self.saveprompt]
    }

    fn byte_width() -> (w: u64) {
        40
    }

    proof fn lemma_width(self) {
    }

    #[verifier::rlimit(50)]
    fn encode_into(&self, out: &mut Vec<u8>) {
        push_array(out, &self.name);
        push_u8(out, self.room);
        push_u8(out, self.layer);
        push_u8(out, self.entrance);
        push_u8(out, self.night);
        push_u8(out, self.byte5);
        push_u8(out, self.flag6);
        push_u8(out, self.zero);
        push_u8(out, self.saveprompt);
        assert(out@ =~= old(out)@ + self.spec_encode());
    }

    #[verifier::rlimit(50)]
    fn decode(data: &[u8], off: u64) -> (r: Self) {
        let n = data.len();
        assert(data@.len() <= usize::MAX);
        let r = SCEN {
            name: read_array(data, off),
            room: read_u8(data, off + 32),
            layer: read_u8(data, off + 33),
            entrance: read_u8(data, off + 34),
            night: read_u8(data, off + 35),
            byte5: read_u8(data, off + 36),
            flag6: read_u8(data, off + 37),
            zero: read_u8(data, off + 38),
            saveprompt: read_u8(data, off + 39),
        };
        assert(r.spec_encode() =~= data@.subrange(off as int, off as int + 40));
        r
    }
}

/// Camera record. Position and angle fields carry raw float bit patterns.
/// Encoded width: 44 bytes.
#[derive(Debug, Clone, Copy, PartialEq, Eq)]
pub struct CAM {
    pub unk1: u32,
    pub posx: u32,
    pub posy: u32,
    pub posz: u32,
    pub angle: u32,
    pub unk2: [u8; 8],
    pub name: [u8; 16],
}

impl SceneRecord for CAM {
    open spec fn spec_width() -> nat {
        44
    }

    open spec fn spec_encode(self) -> Seq<u8> {
        spec_u32_be(self.unk1) + spec_u32_be(self.posx) + spec_u32_be(self.posy) + spec_u32_be(self.posz) + spec_u32_be(self.angle) + self.unk2@ + self.name@
    }

    fn byte_width() -> (w: u64) {
        44
    }

    proof fn lemma_width(self) {
    }

    #[verifier::rlimit(50)]
    fn encode_into(&self, out: &mut Vec<u8>) {
        push_u32_be(out, self.unk1);
        push_u32_be(out, self.posx);
        push_u32_be(out, self.posy);
        push_u32_be(out, self.posz);
        push_u32_be(out, self.angle);
        push_array(out, &self.unk2);
        push_array(out, &self.name);
        assert(out@ =~= old(out)@ + self.spec_encode());
    }

    #[verifier::rlimit(50)]
    fn decode(data: &[u8], off: u64) -> (r: Self) {
        let n = data.len();
        assert(data@.len() <= usize::MAX);
        let r = CAM {
            unk1: read_u32_be(data, off),
            posx: read_u32_be(data, off + 4),
            posy: read_u32_be(data, off + 8),
            posz: read_u32_be(data, off + 12),
            angle: read_u32_be(data, off + 16),
            unk2: read_array(data, off + 20),
            name: read_array(data, off + 28),
        };
        assert(r.spec_encode() =~= data@.subrange(off as int, off as int + 44));
        r
    }
}

/// Path record indexing into the point sequence.
/// Encoded width: 12 bytes.
#[derive(Debug, Clone, Copy, PartialEq, Eq)]
pub struct PATH {
    pub unk1: [u8; 2],
    pub pnt_start_idx: u16,
    pub pnt_total_count: u16,
    pub unk2: [u8; 6],
}

impl SceneRecord for PATH {
    open spec fn spec_width() -> nat {
        12
    }

    open spec fn spec_encode(self) -> Seq<u8> {
        self.unk1@ + spec_u16_be(self.pnt_start_idx) + spec_u16_be(self.pnt_total_count) + self.unk2@
    }

    fn byte_width() -> (w: u64) {
        12
    }

    proof fn lemma_width(self) {
    }

    #[verifier::rlimit(50)]
    fn encode_into(&self, out: &mut Vec<u8>) {
        push_array(out, &self.unk1);
        push_u16_be(out, self.pnt_start_idx);
        push_u16_be(out, self.pnt_total_count);
        push_array(out, &self.unk2);
        assert(out@ =~= old(out)@ + self.spec_encode());
    }

    #[verifier::rlimit(50)]
    fn decode(data: &[u8], off: u64) -> (r: Self) {
        let n = data.len();
        assert(data@.len() <= usize::MAX);
        let r = PATH {
            unk1: read_array(data, off),
            pnt_start_idx: read_u16_be(data, off + 2),
            pnt_total_count: read_u16_be(data, off + 4),
            unk2: read_array(data, off + 6),
        };
        assert(r.spec_encode() =~= data@.subrange(off as int, off as int + 12));
        r
    }
}

/// Spline-path record indexing into the spline-point sequence.
/// Encoded width: 12 bytes.
#[derive(Debug, Clone, Copy, PartialEq, Eq)]
pub struct SPTH {
    pub unk1: [u8; 2],
    pub pnt_start_idx: u16,
    pub pnt_total_count: u16,
    pub unk2: [u8; 6],
}

impl SceneRecord for SPTH {
    open spec fn spec_width() -> nat {
        12
    }

    open spec fn spec_encode(self) -> Seq<u8> {
        self.unk1@ + spec_u16_be(self.pnt_start_idx) + spec_u16_be(self.pnt_total_count) + self.unk2@
    }

    fn byte_width() -> (w: u64) {
        12
    }

    proof fn lemma_width(self) {
    }

    #[verifier::rlimit(50)]
    fn encode_into(&self, out: &mut Vec<u8>) {
        push_array(out, &self.unk1);
        push_u16_be(out, self.pnt_start_idx);
        push_u16_be(out, self.pnt_total_count);
        push_array(out, &self.unk2);
        assert(out@ =~= old(out)@ + self.spec_encode());
    }

    #[verifier::rlimit(50)]
    fn decode(data: &[u8], off: u64) -> (r: Self) {
        let n = data.len();
        assert(data@.len() <= usize::MAX);
        let r = SPTH {
            unk1: read_array(data, off),
            pnt_start_idx: read_u16_be(data, off + 2),
            pnt_total_count: read_u16_be(data, off + 4),
            unk2: read_array(data, off + 6),
        };
        assert(r.spec_encode() =~= data@.subrange(off as int, off as int + 12));
        r
    }
}

/// Path point. Position fields carry raw float bit patterns.
/// Encoded width: 16 bytes.
#[derive(Debug, Clone, Copy, PartialEq, Eq)]
pub struct PNT {
    pub posx: u32,
    pub posy: u32,
    pub posz: u32,
    pub unk: u32,
}

impl SceneRecord for PNT {
    open spec fn spec_width() -> nat {
        16
    }

    open spec fn spec_encode(self) -> Seq<u8> {
        spec_u32_be(self.posx) + spec_u32_be(self.posy) + spec_u32_be(self.posz) + spec_u32_be(self.unk)
    }

    fn byte_width() -> (w: u64) {
        16
    }

    proof fn lemma_width(self) {
    }

    #[verifier::rlimit(50)]
    fn encode_into(&self, out: &mut Vec<u8>) {
        push_u32_be(out, self.posx);
        push_u32_be(out, self.posy);
        push_u32_be(out, self.posz);
        push_u32_be(out, self.unk);
        assert(out@ =~= old(out)@ + self.spec_encode());
    }

    #[verifier::rlimit(50)]
    fn decode(data: &[u8], off: u64) -> (r: Self) {
        let n = data.len();
        assert(data@.len() <= usize::MAX);
        let r = PNT {
            posx: read_u32_be(data, off),
            posy: read_u32_be(data, off + 4),
            posz: read_u32_be(data, off + 8),
            unk: read_u32_be(data, off + 12),
        };
        assert(r.spec_encode() =~= data@.subrange(off as int, off as int + 16));
        r
    }
}

/// Spline point. Position fields carry raw float bit patterns.
/// Encoded width: 16 bytes.
#[derive(Debug, Clone, Copy, PartialEq, Eq)]
pub struct SPNT {
    pub posx: u32,
    pub posy: u32,
    pub posz: u32,
    pub unk: u32,
}

impl SceneRecord for SPNT {
    open spec fn spec_width() -> nat {
        16
    }

    open spec fn spec_encode(self) -> Seq<u8> {
        spec_u32_be(self.posx) + spec_u32_be(self.posy) + spec_u32_be(self.posz) + spec_u32_be(self.unk)
    }

    fn byte_width() -> (w: u64) {
        16
    }

    proof fn lemma_width(self) {
    }

    #[verifier::rlimit(50)]
    fn encode_into(&self, out: &mut Vec<u8>) {
        push_u32_be(out, self.posx);
        push_u32_be(out, self.posy);
        push_u32_be(out, self.posz);
        push_u32_be(out, self.unk);
        assert(out@ =~= old(out)@ + self.spec_encode());
    }

    #[verifier::rlimit(50)]
    fn decode(data: &[u8], off: u64) -> (r: Self) {
        let n = data.len();
        assert(data@.len() <= usize::MAX);
        let r = SPNT {
            posx: read_u32_be(data, off),
            posy: read_u32_be(data, off + 4),
            posz: read_u32_be(data, off + 8),
            unk: read_u32_be(data, off + 12),
        };
        assert(r.spec_encode() =~= data@.subrange(off as int, off as int + 16));
        r
    }
}

/// Bezier point triple. Position fields carry raw float bit patterns.
/// Encoded width: 40 bytes.
#[derive(Debug, Clone, Copy, PartialEq, Eq)]
pub struct BPNT {
    pub pos1x: u32,
    pub pos1y: u32,
    pub pos1z: u32,
    pub pos2x: u32,
    pub pos2y: u32,
    pub pos2z: u32,
    pub pos3x: u32,
    pub pos3y: u32,
    pub pos3z: u32,
    pub unk: [u8; 4],
}

impl SceneRecord for BPNT {
    open spec fn spec_width() -> nat {
        40
    }

    open spec fn spec_encode(self) -> Seq<u8> {
        spec_u32_be(self.pos1x) + spec_u32_be(self.pos1y) + spec_u32_be(self.pos1z) + spec_u32_be(self.pos2x) + spec_u32_be(self.pos2y) + spec_u32_be(self.pos2z) + spec_u32_be(self.pos3x) + spec_u32_be(self.pos3y) + spec_u32_be(self.pos3z) + self.unk@
    }

    fn byte_width() -> (w: u64) {
        40
    }

    proof fn lemma_width(self) {
    }

    #[verifier::rlimit(50)]
    fn encode_into(&self, out: &mut Vec<u8>) {
        push_u32_be(out, self.pos1x);
        push_u32_be(out, self.pos1y);
        push_u32_be(out, self.pos1z);
        push_u32_be(out, self.pos2x);
        push_u32_be(out, self.pos2y);
        push_u32_be(out, self.pos2z);
        push_u32_be(out, self.pos3x);
        push_u32_be(out, self.pos3y);
        push_u32_be(out, self.pos3z);
        push_array(out, &self.unk);
        assert(out@ =~= old(out)@ + self.spec_encode());
    }

    #[verifier::rlimit(50)]
    fn decode(data: &[u8], off: u64) -> (r: Self) {
        let n = data.len();
        assert(data@.len() <= usize::MAX);
        let r = BPNT {
            pos1x: read_u32_be(data, off),
            pos1y: read_u32_be(data, off + 4),
            pos1z: read_u32_be(data, off + 8),
            pos2x: read_u32_be(data, off + 12),
            pos2y: read_u32_be(data, off + 16),
            pos2z: read_u32_be(data, off + 20),
            pos3x: read_u32_be(data, off + 24),
            pos3y: read_u32_be(data, off + 28),
            pos3z: read_u32_be(data, off + 32),
            unk: read_array(data, off + 36),
        };
        assert(r.spec_encode() =~= data@.subrange(off as int, off as int + 40));
        r
    }
}

/// Area trigger volume. Position and size fields carry raw float bit patterns.
/// Encoded width: 32 bytes.
#[derive(Debug, Clone, Copy, PartialEq, Eq)]
pub struct AREA {
    pub posx: u32,
    pub posy: u32,
    pub posz: u32,
    pub sizex: u32,
    pub sizey: u32,
    pub sizez: u32,
    pub angley: u16,
    pub area_link: i16,
    pub unk3: u8,
    pub dummy: [u8; 3],
}

impl SceneRecord for AREA {
    open spec fn spec_width() -> nat {
        32
    }

    open spec fn spec_encode(self) -> Seq<u8> {
        spec_u32_be(self.posx) + spec_u32_be(self.posy) + spec_u32_be(self.posz) + spec_u32_be(self.sizex) + spec_u32_be(self.sizey) + spec_u32_be(self.sizez) + spec_u16_be(self.angley) + spec_i16_be(self.area_link) + seq![self.unk3] + self.dummy@
    }

    fn byte_width() -> (w: u64) {
        32
    }

    proof fn lemma_width(self) {
    }

    #[verifier::rlimit(50)]
    fn encode_into(&self, out: &mut Vec<u8>) {
        push_u32_be(out, self.posx);
        push_u32_be(out, self.posy);
        push_u32_be(out, self.posz);
        push_u32_be(out, self.sizex);
        push_u32_be(out, self.sizey);
        push_u32_be(out, self.sizez);
        push_u16_be(out, self.angley);
        push_i16_be(out, self.area_link);
        push_u8(out, self.unk3);
        push_array(out, &self.dummy);
        assert(out@ =~= old(out)@ + self.spec_encode());
    }

    #[verifier::rlimit(50)]
    fn decode(data: &[u8], off: u64) -> (r: Self) {
        let n = data.len();
        assert(data@.len() <= usize::MAX);
        let r = AREA {
            posx: read_u32_be(data, off),
            posy: read_u32_be(data, off + 4),
            posz: read_u32_be(data, off + 8),
            sizex: read_u32_be(data, off + 12),
            sizey: read_u32_be(data, off + 16),
            sizez: read_u32_be(data, off + 20),
            angley: read_u16_be(data, off + 24),
            area_link: read_i16_be(data, off + 26),
            unk3: read_u8(data, off + 28),
            dummy: read_array(data, off + 29),
        };
        assert(r.spec_encode() =~= data@.subrange(off as int, off as int + 32));
        r
    }
}

/// Event record with story/scene flag conditions and an item.
/// Encoded width: 52 bytes.
#[derive(Debug, Clone, Copy, PartialEq, Eq)]
pub struct EVNT {
    pub unk1: [u8; 2],
    pub storyflag1: i16,
    pub storyflag2: i16,
    pub unk2: [u8; 3],
    pub exit_id: u8,
    pub unk3: u8,
    pub sceneflag1: u8,
    pub sceneflag2: u8,
    pub skipflag: u8,
    pub dummy1: i16,
    pub item: i16,
    pub dummy2: i16,
    pub name: [u8; 32],
}

impl SceneRecord for EVNT {
    open spec fn spec_width() -> nat {
        52
    }

    open spec fn spec_encode(self) -> Seq<u8> {
        self.unk1@ + spec_i16_be(self.storyflag1) + spec_i16_be(self.storyflag2) + self.unk2@ + seq![self.exit_id] + seq![self.unk3] + seq![self.sceneflag1] + seq![self.sceneflag2] + seq![self.skipflag] + spec_i16_be(self.dummy1) + spec_i16_be(self.item) + spec_i16_be(self.dummy2) + self.name@
    }

    fn byte_width() -> (w: u64) {
        52
    }

    proof fn lemma_width(self) {
    }

    #[verifier::rlimit(50)]
    fn encode_into(&self, out: &mut Vec<u8>) {
        push_array(out, &self.unk1);
        push_i16_be(out, self.storyflag1);
        push_i16_be(out, self.storyflag2);
        push_array(out, &self.unk2);
        push_u8(out, self.exit_id);
        push_u8(out, self.unk3);
        push_u8(out, self.sceneflag1);
        push_u8(out, self.sceneflag2);
        push_u8(out, self.skipflag);
        push_i16_be(out, self.dummy1);
        push_i16_be(out, self.item);
        push_i16_be(out, self.dummy2);
        push_array(out, &self.name);
        assert(out@ =~= old(out)@ + self.spec_encode());
    }

    #[verifier::rlimit(50)]
    fn decode(data: &[u8], off: u64) -> (r: Self) {
        let n = data.len();
        assert(data@.len() <= usize::MAX);
        let r = EVNT {
            unk1: read_array(data, off),
            storyflag1: read_i16_be(data, off + 2),
            storyflag2: read_i16_be(data, off + 4),
            unk2: read_array(data, off + 6),
            exit_id: read_u8(data, off + 9),
            unk3: read_u8(data, off + 10),
            sceneflag1: read_u8(data, off + 11),
            sceneflag2: read_u8(data, off + 12),
            skipflag: read_u8(data, off + 13),
            dummy1: read_i16_be(data, off + 14),
            item: read_i16_be(data, off + 16),
            dummy2: read_i16_be(data, off + 18),
            name: read_array(data, off + 20),
        };
        assert(r.spec_encode() =~= data@.subrange(off as int, off as int + 52));
        r
    }
}

/// Player spawn record. Position and angle fields carry raw float bit patterns.
/// Encoded width: 30 bytes.
#[derive(Debug, Clone, Copy, PartialEq, Eq)]
pub struct PLY {
    pub storyflag: i16,
    pub play_cutscene: i8,
    pub byte4: u8,
    pub posx: u32,
    pub posy: u32,
    pub posz: u32,
    pub anglex: u32,
    pub angley: u32,
    pub anglez: u32,
    pub entrance_id: i16,
}

impl SceneRecord for PLY {
    open spec fn spec_width() -> nat {
        30
    }

    open spec fn spec_encode(self) -> Seq<u8> {
        spec_i16_be(self.storyflag) + spec_i8_be(self.play_cutscene) + seq![self.byte4] + spec_u32_be(self.posx) + spec_u32_be(self.posy) + spec_u32_be(self.posz) + spec_u32_be(self.anglex) + spec_u32_be(self.angley) + spec_u32_be(self.anglez) + spec_i16_be(self.entrance_id)
    }

    fn byte_width() -> (w: u64) {
        30
    }

    proof fn lemma_width(self) {
    }

    #[verifier::rlimit(50)]
    fn encode_into(&self, out: &mut Vec<u8>) {
        push_i16_be(out, self.storyflag);
        push_i8(out, self.play_cutscene);
        push_u8(out, self.byte4);
        push_u32_be(out, self.posx);
        push_u32_be(out, self.posy);
        push_u32_be(out, self.posz);
        push_u32_be(out, self.anglex);
        push_u32_be(out, self.angley);
        push_u32_be(out, self.anglez);
        push_i16_be(out, self.entrance_id);
        assert(out@ =~= old(out)@ + self.spec_encode());
    }

    #[verifier::rlimit(50)]
    fn decode(data: &[u8], off: u64) -> (r: Self) {
        let n = data.len();
        assert(data@.len() <= usize::MAX);
        let r = PLY {
            storyflag: read_i16_be(data, off),
            play_cutscene: read_i8(data, off + 2),
            byte4: read_u8(data, off + 3),
            posx: read_u32_be(data, off + 4),
            posy: read_u32_be(data, off + 8),
            posz: read_u32_be(data, off + 12),
            anglex: read_u32_be(data, off + 16),
            angley: read_u32_be(data, off + 20),
            anglez: read_u32_be(data, off + 24),
            entrance_id: read_i16_be(data, off + 28),
        };
        assert(r.spec_encode() =~= data@.subrange(off as int, off as int + 30));
        r
    }
}

/// Layer-state descriptor selecting a layer by story flag and time of day.
/// Encoded width: 4 bytes.
#[derive(Debug, Clone, Copy, PartialEq, Eq)]
pub struct LYSE {
    pub storyflag: i16,
    pub night: i8,
    pub layer: i8,
}

impl SceneRecord for LYSE {
    open spec fn spec_width() -> nat {
        4
    }

    open spec fn spec_encode(self) -> Seq<u8> {
        spec_i16_be(self.storyflag) + spec_i8_be(self.night) + spec_i8_be(self.layer)
    }

    fn byte_width() -> (w: u64) {
        4
    }

    proof fn lemma_width(self) {
    }

    #[verifier::rlimit(50)]
    fn encode_into(&self, out: &mut Vec<u8>) {
        push_i16_be(out, self.storyflag);
        push_i8(out, self.night);
        push_i8(out, self.layer);
        assert(out@ =~= old(out)@ + self.spec_encode());
    }

    #[verifier::rlimit(50)]
    fn decode(data: &[u8], off: u64) -> (r: Self) {
        let n = data.len();
        assert(data@.len() <= usize::MAX);
        let r = LYSE {
            storyflag: read_i16_be(data, off),
            night: read_i8(data, off + 2),
            layer: read_i8(data, off + 3),
        };
        assert(r.spec_encode() =~= data@.subrange(off as int, off as int + 4));
        r
    }
}

/// Stage info record (singleton section).
/// Encoded width: 20 bytes.
#[derive(Debug, Clone, Copy, PartialEq, Eq)]
pub struct STIF {
    pub wtf1: u32,
    pub wtf2: u32,
    pub wtf3: u32,
    pub byte1: i8,
    pub flagindex: i8,
    pub byte3: i8,
    pub byte4: i8,
    pub unk1: [u8; 2],
    pub map_name_id: i8,
    pub unk2: u8,
}

impl SceneRecord for STIF {
    open spec fn spec_width() -> nat {
        20
    }

    open spec fn spec_encode(self) -> Seq<u8> {
        spec_u32_be(self.wtf1) + spec_u32_be(self.wtf2) + spec_u32_be(self.wtf3) + spec_i8_be(self.byte1) + spec_i8_be(self.flagindex) + spec_i8_be(self.byte3) + spec_i8_be(self.byte4) + self.unk1@ + spec_i8_be(self.map_name_id) + seq![self.unk2]
    }

    fn byte_width() -> (w: u64) {
        20
    }

    proof fn lemma_width(self) {
    }

    #[verifier::rlimit(50)]
    fn encode_into(&self, out: &mut Vec<u8>) {
        push_u32_be(out, self.wtf1);
        push_u32_be(out, self.wtf2);
        push_u32_be(out, self.wtf3);
        push_i8(out, self.byte1);
        push_i8(out, self.flagindex);
        push_i8(out, self.byte3);
        push_i8(out, self.byte4);
        push_array(out, &self.unk1);
        push_i8(out, self.map_name_id);
        push_u8(out, self.unk2);
        assert(out@ =~= old(out)@ + self.spec_encode());
    }

    #[verifier::rlimit(50)]
    fn decode(data: &[u8], off: u64) -> (r: Self) {
        let n = data.len();
        assert(data@.len() <= usize::MAX);
        let r = STIF {
            wtf1: read_u32_be(data, off),
            wtf2: read_u32_be(data, off + 4),
            wtf3: read_u32_be(data, off + 8),
            byte1: read_i8(data, off + 12),
            flagindex: read_i8(data, off + 13),
            byte3: read_i8(data, off + 14),
            byte4: read_i8(data, off + 15),
            unk1: read_array(data, off + 16),
            map_name_id: read_i8(data, off + 18),
            unk2: read_u8(data, off + 19),
        };
        assert(r.spec_encode() =~= data@.subrange(off as int, off as int + 20));
        r
    }
}

/// Path camera record. Position fields carry raw float bit patterns.
/// Encoded width: 36 bytes.
#[derive(Debug, Clone, Copy, PartialEq, Eq)]
pub struct PCAM {
    pub pos1x: u32,
    pub pos1y: u32,
    pub pos1z: u32,
    pub pos2x: u32,
    pub pos2y: u32,
    pub pos2z: u32,
    pub angle: u32,
    pub wtf: u32,
    pub unk: [u8; 4],
}

impl SceneRecord for PCAM {
    open spec fn spec_width() -> nat {
        36
    }

    open spec fn spec_encode(self) -> Seq<u8> {
        spec_u32_be(self.pos1x) + spec_u32_be(self.pos1y) + spec_u32_be(self.pos1z) + spec_u32_be(self.pos2x) + spec_u32_be(self.pos2y) + spec_u32_be(self.pos2z) + spec_u32_be(self.angle) + spec_u32_be(self.wtf) + self.unk@
    }

    fn byte_width() -> (w: u64) {
        36
    }

    proof fn lemma_width(self) {
    }

    #[verifier::rlimit(50)]
    fn encode_into(&self, out: &mut Vec<u8>) {
        push_u32_be(out, self.pos1x);
        push_u32_be(out, self.pos1y);
        push_u32_be(out, self.pos1z);
        push_u32_be(out, self.pos2x);
        push_u32_be(out, self.pos2y);
        push_u32_be(out, self.pos2z);
        push_u32_be(out, self.angle);
        push_u32_be(out, self.wtf);
        push_array(out, &self.unk);
        assert(out@ =~= old(out)@ + self.spec_encode());
    }

    #[verifier::rlimit(50)]
    fn decode(data: &[u8], off: u64) -> (r: Self) {
        let n = data.len();
        assert(data@.len() <= usize::MAX);
        let r = PCAM {
            pos1x: read_u32_be(data, off),
            pos1y: read_u32_be(data, off + 4),
            pos1z: read_u32_be(data, off + 8),
            pos2x: read_u32_be(data, off + 12),
            pos2y: read_u32_be(data, off + 16),
            pos2z: read_u32_be(data, off + 20),
            angle: read_u32_be(data, off + 24),
            wtf: read_u32_be(data, off + 28),
            unk: read_array(data, off + 32),
        };
        assert(r.spec_encode() =~= data@.subrange(off as int, off as int + 36));
        r
    }
}

/// Layer list entry.
/// Encoded width: 4 bytes.
#[derive(Debug, Clone, Copy, PartialEq, Eq)]
pub struct LYLT {
    pub layer: i8,
    pub demo_high: i8,
    pub demo_low: i8,
    pub dummy: i8,
}

impl SceneRecord for LYLT {
    open spec fn spec_width() -> nat {
        4
    }

    open spec fn spec_encode(self) -> Seq<u8> {
        spec_i8_be(self.layer) + spec_i8_be(self.demo_high) + spec_i8_be(self.demo_low) + spec_i8_be(self.dummy)
    }

    fn byte_width() -> (w: u64) {
        4
    }

    proof fn lemma_width(self) {
    }

    #[verifier::rlimit(50)]
    fn encode_into(&self, out: &mut Vec<u8>) {
        push_i8(out, self.layer);
        push_i8(out, self.demo_high);
        push_i8(out, self.demo_low);
        push_i8(out, self.dummy);
        assert(out@ =~= old(out)@ + self.spec_encode());
    }

    #[verifier::rlimit(50)]
    fn decode(data: &[u8], off: u64) -> (r: Self) {
        let n = data.len();
        assert(data@.len() <= usize::MAX);
        let r = LYLT {
            layer: read_i8(data, off),
            demo_high: read_i8(data, off + 1),
            demo_low: read_i8(data, off + 2),
            dummy: read_i8(data, off + 3),
        };
        assert(r.spec_encode() =~= data@.subrange(off as int, off as int + 4));
        r
    }
}

/// Scalable object record: an object that additionally carries a 3D size.
/// Encoded width: 48 bytes.
#[derive(Debug, Clone, Copy, PartialEq, Eq)]
pub struct SOBJ {
    pub params1: u32,
    pub params2: u32,
    pub posx: u32,
    pub posy: u32,
    pub posz: u32,
    pub sizex: u32,
    pub sizey: u32,
    pub sizez: u32,
    pub anglex: u16,
    pub angley: u16,
    pub anglez: u16,
    pub id: u16,
    pub name: [u8; 8],
}

impl SceneRecord for SOBJ {
    open spec fn spec_width() -> nat {
        48
    }

    open spec fn spec_encode(self) -> Seq<u8> {
        spec_u32_be(self.params1) + spec_u32_be(self.params2) + spec_u32_be(self.posx) + spec_u32_be(self.posy) + spec_u32_be(self.posz) + spec_u32_be(self.sizex) + spec_u32_be(self.sizey) + spec_u32_be(self.sizez) + spec_u16_be(self.anglex) + spec_u16_be(self.angley) + spec_u16_be(self.anglez) + spec_u16_be(self.id) + self.name@
    }

    fn byte_width() -> (w: u64) {
        48
    }

    proof fn lemma_width(self) {
    }

    #[verifier::rlimit(50)]
    fn encode_into(&self, out: &mut Vec<u8>) {
        push_u32_be(out, self.params1);
        push_u32_be(out, self.params2);
        push_u32_be(out, self.posx);
        push_u32_be(out, self.posy);
        push_u32_be(out, self.posz);
        push_u32_be(out, self.sizex);
        push_u32_be(out, self.sizey);
        push_u32_be(out, self.sizez);
        push_u16_be(out, self.anglex);
        push_u16_be(out, self.angley);
        push_u16_be(out, self.anglez);
        push_u16_be(out, self.id);
        push_array(out, &self.name);
        assert(out@ =~= old(out)@ + self.spec_encode());
    }

    #[verifier::rlimit(50)]
    fn decode(data: &[u8], off: u64) -> (r: Self) {
        let n = data.len();
        assert(data@.len() <= usize::MAX);
        let r = SOBJ {
            params1: read_u32_be(data, off),
            params2: read_u32_be(data, off + 4),
            posx: read_u32_be(data, off + 8),
            posy: read_u32_be(data, off + 12),
            posz: read_u32_be(data, off + 16),
            sizex: read_u32_be(data, off + 20),
            sizey: read_u32_be(data, off + 24),
            sizez: read_u32_be(data, off + 28),
            anglex: read_u16_be(data, off + 32),
            angley: read_u16_be(data, off + 34),
            anglez: read_u16_be(data, off + 36),
            id: read_u16_be(data, off + 38),
            name: read_array(data, off + 40),
        };
        assert(r.spec_encode() =~= data@.subrange(off as int, off as int + 48));
        r
    }
}

/// Object record: parameter words, position, angles, id and an 8-byte name.
/// Encoded width: 36 bytes.
#[derive(Debug, Clone, Copy, PartialEq, Eq)]
pub struct OBJ {
    pub params1: u32,
    pub params2: u32,
    pub posx: u32,
    pub posy: u32,
    pub posz: u32,
    pub anglex: u16,
    pub angley: u16,
    pub anglez: u16,
    pub id: u16,
    pub name: [u8; 8],
}

impl SceneRecord for OBJ {
    open spec fn spec_width() -> nat {
        36
    }

    open spec fn spec_encode(self) -> Seq<u8> {
        spec_u32_be(self.params1) + spec_u32_be(self.params2) + spec_u32_be(self.posx) + spec_u32_be(self.posy) + spec_u32_be(self.posz) + spec_u16_be(self.anglex) + spec_u16_be(self.angley) + spec_u16_be(self.anglez) + spec_u16_be(self.id) + self.name@
    }

    fn byte_width() -> (w: u64) {
        36
    }

    proof fn lemma_width(self) {
    }

    #[verifier::rlimit(50)]
    fn encode_into(&self, out: &mut Vec<u8>) {
        push_u32_be(out, self.params1);
        push_u32_be(out, self.params2);
        push_u32_be(out, self.posx);
        push_u32_be(out, self.posy);
        push_u32_be(out, self.posz);
        push_u16_be(out, self.anglex);
        push_u16_be(out, self.angley);
        push_u16_be(out, self.anglez);
        push_u16_be(out, self.id);
        push_array(out, &self.name);
        assert(out@ =~= old(out)@ + self.spec_encode());
    }

    #[verifier::rlimit(50)]
    fn decode(data: &[u8], off: u64) -> (r: Self) {
        let n = data.len();
        assert(data@.len() <= usize::MAX);
        let r = OBJ {
            params1: read_u32_be(data, off),
            params2: read_u32_be(data, off + 4),
            posx: read_u32_be(data, off + 8),
            posy: read_u32_be(data, off + 12),
            posz: read_u32_be(data, off + 16),
            anglex: read_u16_be(data, off + 20),
            angley: read_u16_be(data, off + 22),
            anglez: read_u16_be(data, off + 24),
            id: read_u16_be(data, off + 26),
            name: read_array(data, off + 28),
        };
        assert(r.spec_encode() =~= data@.subrange(off as int, off as int + 36));
        r
    }
}


} // verus!
