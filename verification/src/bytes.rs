//! Big-endian byte-level primitives shared by every codec in the crate:
//! spec-level byte images of the integer widths the formats use, exec readers
//! and writers proved against them, and helpers for nul-terminated runs,
//! alignment padding and in-place overwrites.

use vstd::prelude::*;

verus! {

/// Big-endian byte image of a `u16`.
pub open spec fn spec_u16_be(x: u16) -> Seq<u8> {
    seq![(x >> 8) as u8, x as u8]
}

/// Big-endian byte image of the low 24 bits of a `u32`.
pub open spec fn spec_u24_be(x: u32) -> Seq<u8> {
    seq![(x >> 16) as u8, (x >> 8) as u8, x as u8]
}

/// Big-endian byte image of a `u32`.
pub open spec fn spec_u32_be(x: u32) -> Seq<u8> {
    seq![(x >> 24) as u8, (x >> 16) as u8, (x >> 8) as u8, x as u8]
}

/// Big-endian byte image of an `i16` (two's complement).
pub open spec fn spec_i16_be(x: i16) -> Seq<u8> {
    spec_u16_be(x as u16)
}

/// Big-endian byte image of an `i8` (two's complement, one byte).
pub open spec fn spec_i8_be(x: i8) -> Seq<u8> {
    seq![x as u8]
}

/// The `u16` stored big-endian at position `p`.
pub open spec fn spec_u16_at(b: Seq<u8>, p: int) -> u16 {
    ((b[p] as u16) << 8) | (b[p + 1] as u16)
}

/// The low-24-bit value stored big-endian at position `p`.
pub open spec fn spec_u24_at(b: Seq<u8>, p: int) -> u32 {
    ((b[p] as u32) << 16) | ((b[p + 1] as u32) << 8) | (b[p + 2] as u32)
}

/// The `u32` stored big-endian at position `p`.
pub open spec fn spec_u32_at(b: Seq<u8>, p: int) -> u32 {
    ((b[p] as u32) << 24) | ((b[p + 1] as u32) << 16) | ((b[p + 2] as u32) << 8) | (b[p + 3]
        as u32)
}

pub fn push_u8(out: &mut Vec<u8>, x: u8)
    ensures
        final(out)@ == old(out)@ + seq![x],
{
    out.push(x);
}

pub fn push_i8(out: &mut Vec<u8>, x: i8)
    ensures
        final(out)@ == old(out)@ + spec_i8_be(x),
{
    out.push(x as u8);
}

pub fn push_u16_be(out: &mut Vec<u8>, x: u16)
    ensures
        final(out)@ == old(out)@ + spec_u16_be(x),
{
    out.push((x >> 8) as u8);
    out.push(x as u8);
    assert(out@ =~= old(out)@ + spec_u16_be(x));
}

pub fn push_i16_be(out: &mut Vec<u8>, x: i16)
    ensures
        final(out)@ == old(out)@ + spec_i16_be(x),
{
    push_u16_be(out, x as u16);
}

pub fn push_u24_be(out: &mut Vec<u8>, x: u32)
    ensures
        final(out)@ == old(out)@ + spec_u24_be(x),
{
    out.push((x >> 16) as u8);
    out.push((x >> 8) as u8);
    out.push(x as u8);
    assert(out@ =~= old(out)@ + spec_u24_be(x));
}

pub fn push_u32_be(out: &mut Vec<u8>, x: u32)
    ensures
        final(out)@ == old(out)@ + spec_u32_be(x),
{
    out.push((x >> 24) as u8);
    out.push((x >> 16) as u8);
    out.push((x >> 8) as u8);
    out.push(x as u8);
    assert(out@ =~= old(out)@ + spec_u32_be(x));
}

pub fn read_u8(data: &[u8], off: u64) -> (r: u8)
    requires
        off + 1 <= data@.len(),
    ensures
        seq![r] =~= data@.subrange(off as int, off as int + 1),
{
    data[off as usize]
}

pub fn read_i8(data: &[u8], off: u64) -> (r: i8)
    requires
        off + 1 <= data@.len(),
    ensures
        spec_i8_be(r) =~= data@.subrange(off as int, off as int + 1),
{
    let b = data[off as usize];
    #[verifier::truncate]
    let r = b as i8;
    proof {
        assert(b as i8 as u8 == b) by (bit_vector);
    }
    r
}

pub fn read_u16_be(data: &[u8], off: u64) -> (r: u16)
    requires
        off + 2 <= data@.len(),
    ensures
        spec_u16_be(r) =~= data@.subrange(off as int, off as int + 2),
        r == spec_u16_at(data@, off as int),
{
    let b0 = data[off as usize];
    let b1 = data[off as usize + 1];
    let r = ((b0 as u16) << 8) | (b1 as u16);
    proof {
        assert((((b0 as u16) << 8 | (b1 as u16)) >> 8) as u8 == b0 && ((b0 as u16) << 8 | (
        b1 as u16)) as u8 == b1) by (bit_vector);
    }
    r
}

pub fn read_i16_be(data: &[u8], off: u64) -> (r: i16)
    requires
        off + 2 <= data@.len(),
    ensures
        spec_i16_be(r) =~= data@.subrange(off as int, off as int + 2),
        r as u16 == spec_u16_at(data@, off as int),
{
    let x = read_u16_be(data, off);
    #[verifier::truncate]
    let r = x as i16;
    proof {
        assert(x as i16 as u16 == x) by (bit_vector);
    }
    r
}

pub fn read_u24_be(data: &[u8], off: u64) -> (r: u32)
    requires
        off + 3 <= data@.len(),
    ensures
        spec_u24_be(r) =~= data@.subrange(off as int, off as int + 3),
        r == spec_u24_at(data@, off as int),
        r < 0x1000000,
{
    let b0 = data[off as usize];
    let b1 = data[off as usize + 1];
    let b2 = data[off as usize + 2];
    let r = ((b0 as u32) << 16) | ((b1 as u32) << 8) | (b2 as u32);
    proof {
        let v = ((b0 as u32) << 16) | ((b1 as u32) << 8) | (b2 as u32);
        assert((v >> 16) as u8 == b0 && (v >> 8) as u8 == b1 && v as u8 == b2 && v < 0x1000000)
            by (bit_vector)
            requires
                v == ((b0 as u32) << 16) | ((b1 as u32) << 8) | (b2 as u32),
        ;
    }
    r
}

pub fn read_u32_be(data: &[u8], off: u64) -> (r: u32)
    requires
        off + 4 <= data@.len(),
    ensures
        spec_u32_be(r) =~= data@.subrange(off as int, off as int + 4),
        r == spec_u32_at(data@, off as int),
{
    let b0 = data[off as usize];
    let b1 = data[off as usize + 1];
    let b2 = data[off as usize + 2];
    let b3 = data[off as usize + 3];
    let r = ((b0 as u32) << 24) | ((b1 as u32) << 16) | ((b2 as u32) << 8) | (b3 as u32);
    proof {
        let v = ((b0 as u32) << 24) | ((b1 as u32) << 16) | ((b2 as u32) << 8) | (b3 as u32);
        assert((v >> 24) as u8 == b0 && (v >> 16) as u8 == b1 && (v >> 8) as u8 == b2 && v as u8
            == b3) by (bit_vector)
            requires
                v == ((b0 as u32) << 24) | ((b1 as u32) << 16) | ((b2 as u32) << 8) | (b3 as u32),
        ;
    }
    r
}

/// The run of bytes at `start` up to (excluding) the first nul, or to the end
/// of the buffer when no nul follows.
pub open spec fn nul_run(b: Seq<u8>, start: int) -> Seq<u8>
    decreases b.len() - start,
{
    if start < 0 || start >= b.len() || b[start] == 0 {
        seq![]
    } else {
        seq![b[start]] + nul_run(b, start + 1)
    }
}

/// Reads the nul-terminated run starting at `off`; errors when the buffer ends
/// before a nul terminator.
pub fn read_nul_terminated(data: &[u8], off: u64) -> (r: Option<Vec<u8>>)
    requires
        off <= data@.len(),
    ensures
        r matches Some(v) ==> v@ =~= nul_run(data@, off as int) && off + v@.len() < data@.len()
            && data@[off as int + v@.len()] == 0,
        r is None <==> !(exists|j: int| off <= j < data@.len() && data@[j] == 0),
{
    let mut run: Vec<u8> = Vec::new();
    let mut pos = off;
    loop
        invariant
            off <= pos <= data@.len(),
            run@ =~= data@.subrange(off as int, pos as int),
            forall|j: int| off <= j < pos ==> data@[j] != 0,
        decreases data@.len() - pos,
    {
        if pos >= data.len() as u64 {
            return None;
        }
        let b = data[pos as usize];
        if b == 0 {
            proof {
                lemma_nul_run_extent(data@, off as int, pos as int);
            }
            return Some(run);
        }
        run.push(b);
        pos = pos + 1;
        assert(run@ =~= data@.subrange(off as int, pos as int));
    }
}

/// The run up to a nul at `end` is exactly the nul-free span before it.
proof fn lemma_nul_run_extent(b: Seq<u8>, start: int, end: int)
    requires
        0 <= start <= end < b.len(),
        forall|j: int| start <= j < end ==> b[j] != 0,
        b[end] == 0,
    ensures
        nul_run(b, start) =~= b.subrange(start, end),
    decreases end - start,
{
    if start < end {
        lemma_nul_run_extent(b, start + 1, end);
        assert(nul_run(b, start) =~= b.subrange(start, end));
    }
}

/// Every byte of a nul run is nonzero.
pub proof fn lemma_nul_run_nonzero(b: Seq<u8>, start: int)
    ensures
        forall|j: int| 0 <= j < nul_run(b, start).len() ==> nul_run(b, start)[j] != 0,
    decreases b.len() - start,
{
    if !(start < 0 || start >= b.len() || b[start] == 0) {
        lemma_nul_run_nonzero(b, start + 1);
        let run = nul_run(b, start);
        let rest = nul_run(b, start + 1);
        assert(run == seq![b[start]] + rest);
        assert forall|j: int| 0 <= j < run.len() implies run[j] != 0 by {
            if j == 0 {
            } else {
                assert(run[j] == rest[j - 1]);
            }
        }
    }
}

/// A buffer without nul bytes is its own nul run.
pub proof fn lemma_nul_run_whole(b: Seq<u8>)
    requires
        forall|j: int| 0 <= j < b.len() ==> b[j] != 0,
    ensures
        nul_run(b, 0) =~= b,
{
    lemma_nul_run_whole_from(b, 0);
}

proof fn lemma_nul_run_whole_from(b: Seq<u8>, start: int)
    requires
        0 <= start <= b.len(),
        forall|j: int| start <= j < b.len() ==> b[j] != 0,
    ensures
        nul_run(b, start) =~= b.subrange(start, b.len() as int),
    decreases b.len() - start,
{
    if start < b.len() {
        lemma_nul_run_whole_from(b, start + 1);
        assert(nul_run(b, start) =~= b.subrange(start, b.len() as int));
    }
}

/// Bytes needed to round `pos` up to a multiple of `align` (a power of two in
/// practice; any nonzero value is accepted).
pub open spec fn spec_pad_to(pos: int, align: int) -> int {
    if pos % align == 0 {
        0
    } else {
        align - pos % align
    }
}

/// Appends `filler` bytes until the buffer's length is a multiple of `align`.
pub fn pad_to_alignment(out: &mut Vec<u8>, align: u64, filler: u8)
    requires
        2 <= align <= 32,
        old(out)@.len() + align < u64::MAX,
    ensures
        final(out)@.len() == old(out)@.len() + spec_pad_to(old(out)@.len() as int, align as int),
        final(out)@.subrange(0, old(out)@.len() as int) =~= old(out)@,
        forall|j: int|
            old(out)@.len() <= j < final(out)@.len() ==> final(out)@[j] == filler,
        final(out)@.len() as int % align as int == 0,
{
    let pad = pad_len(out.len() as u64, align);
    let mut i: u64 = 0;
    while i < pad
        invariant
            i <= pad,
            pad == spec_pad_to(old(out)@.len() as int, align as int),
            out@.len() == old(out)@.len() + i,
            out@.subrange(0, old(out)@.len() as int) =~= old(out)@,
            forall|j: int| old(out)@.len() <= j < out@.len() ==> out@[j] == filler,
        decreases pad - i,
    {
        out.push(filler);
        i = i + 1;
        assert(out@.subrange(0, old(out)@.len() as int) =~= old(out)@);
    }
}

/// Bytes needed to round `pos` up to a multiple of `align`.
pub fn pad_len(pos: u64, align: u64) -> (r: u64)
    requires
        2 <= align <= 32,
        pos + align < u64::MAX,
    ensures
        r == spec_pad_to(pos as int, align as int),
        r < align,
        (pos + r) as int % align as int == 0,
{
    let rem = pos % align;
    if rem == 0 {
        0
    } else {
        proof {
            assert((pos + (align - pos % align)) as int % align as int == 0) by (nonlinear_arith)
                requires
                    2 <= align <= 32,
                    pos + align < u64::MAX,
                    pos % align != 0,
            ;
        }
        align - rem
    }
}

/// The buffer with `data` written over the range starting at `pos`.
pub open spec fn spec_overwrite(buf: Seq<u8>, pos: int, data: Seq<u8>) -> Seq<u8> {
    Seq::new(buf.len(), |i: int| if pos <= i < pos + data.len() { data[i - pos] } else { buf[i] })
}

/// Overwrites `data.len()` bytes of `buf` in place, starting at `pos`.
pub fn overwrite_bytes(buf: &mut Vec<u8>, pos: u64, data: &Vec<u8>)
    requires
        pos + data@.len() <= old(buf)@.len(),
    ensures
        final(buf)@ =~= spec_overwrite(old(buf)@, pos as int, data@),
{
    let n = buf.len();
    assert(buf@.len() <= usize::MAX);
    let mut i: usize = 0;
    while i < data.len()
        invariant
            i <= data@.len(),
            pos + data@.len() <= buf@.len(),
            buf@.len() == old(buf)@.len(),
            old(buf)@.len() <= usize::MAX,
            forall|j: int|
                0 <= j < buf@.len() ==> buf@[j] == if pos <= j < pos + i {
                    data@[j - pos]
                } else {
                    old(buf)@[j]
                },
        decreases data@.len() - i,
    {
        let idx = pos + i as u64;
        buf.set(idx as usize, data[i]);
        i = i + 1;
        assert(forall|j: int|
            0 <= j < buf@.len() ==> buf@[j] == if pos <= j < pos + i {
                data@[j - pos]
            } else {
                old(buf)@[j]
            });
    }
}

} // verus!
