//! Boundary with the legacy Japanese text encoding (Shift-JIS). The two
//! conversions are outside calls; everything layered on them is verified
//! against named results of those calls.

use vstd::prelude::*;
use vstd::string::StringSliceAdditionalSpecFns;

use crate::bytes::nul_run;

verus! {

/// Error for text that the legacy encoding cannot represent, or that does not
/// fit in a fixed-width destination.
#[derive(Debug, Clone, Copy, PartialEq, Eq, Structural)]
pub enum EncodingError {
    InvalidShiftJis,
    TooLong,
}

impl EncodingError {
    /// A short human-readable description of the error.
    pub fn message(&self) -> (r: &'static str)
    {
        match self {
            EncodingError::InvalidShiftJis => "Invalid Shift-Jis",
            EncodingError::TooLong => "Input too long",
        }
    }
}

/// What the Shift-JIS encoder returns for `s`: the encoded bytes when every
/// character is representable, `None` otherwise.
pub uninterp spec fn sjis_enc(s: Seq<char>) -> Option<Seq<u8>>;

/// What the Shift-JIS decoder returns for `b`: the decoded characters when the
/// bytes are well-formed, `None` otherwise.
pub uninterp spec fn sjis_dec(b: Seq<u8>) -> Option<Seq<char>>;

/// Relies on encoding_rs's `SHIFT_JIS.encode`: the result is a function of the
/// characters alone, an error flag marks unmappable characters, and ASCII-only
/// text is passed through as its own bytes without error.
#[verifier::external_body]
fn sjis_encode(s: &str) -> (r: Option<Vec<u8>>)
    ensures
        match r {
            Some(v) => sjis_enc(s@) matches Some(e) && v@ == e,
            None => sjis_enc(s@) is None,
        },
        r matches Some(v) ==> (s.is_ascii() ==> v@ == s.spec_bytes()),
        r is None ==> !s.is_ascii(),
{
    let (result, _, had_errors) = encoding_rs::SHIFT_JIS.encode(s);
    if had_errors {
        None
    } else {
        Some(result.into_owned())
    }
}

/// True when every byte is plain ASCII.
pub open spec fn all_ascii_bytes(b: Seq<u8>) -> bool {
    forall|i: int| 0 <= i < b.len() ==> b[i] < 0x80
}

/// The characters of an ASCII byte sequence, one per byte.
pub open spec fn ascii_chars(b: Seq<u8>) -> Seq<char> {
    Seq::new(b.len(), |i: int| b[i] as char)
}

/// Relies on encoding_rs's `SHIFT_JIS.decode_without_bom_handling_and_without_replacement`:
/// the result is a function of the bytes alone, `None` marks malformed input,
/// and ASCII-only bytes are passed through as an ASCII string.
#[verifier::external_body]
fn sjis_decode_bytes(b: &[u8]) -> (r: Option<String>)
    ensures
        match r {
            Some(s) => sjis_dec(b@) matches Some(d) && s@ == d,
            None => sjis_dec(b@) is None,
        },
        r matches Some(s) ==> (all_ascii_bytes(b@) ==> s@ == ascii_chars(b@)),
        r is None ==> !all_ascii_bytes(b@),
{
    match encoding_rs::SHIFT_JIS.decode_without_bom_handling_and_without_replacement(b) {
        Some(cow) => Some(cow.into_owned()),
        None => None,
    }
}

/// Decodes the bytes before the first nul (or the whole buffer when none) as
/// Shift-JIS; `None` when they are not valid Shift-JIS.
pub fn decode(buf: &[u8]) -> (r: Option<String>)
    ensures
        r matches Some(s) ==> sjis_dec(nul_run(buf@, 0)) matches Some(d) && s@ == d,
        r is Some <==> sjis_dec(nul_run(buf@, 0)) is Some,
        all_ascii_bytes(nul_run(buf@, 0)) ==> (r matches Some(s) && s@ == ascii_chars(
            nul_run(buf@, 0),
        )),
{
    let mut prefix: Vec<u8> = Vec::new();
    let mut i: usize = 0;
    while i < buf.len() && buf[i] != 0
        invariant
            i <= buf@.len(),
            prefix@ =~= buf@.subrange(0, i as int),
            forall|j: int| 0 <= j < i ==> buf@[j] != 0,
        decreases buf@.len() - i,
    {
        prefix.push(buf[i]);
        i = i + 1;
        assert(prefix@ =~= buf@.subrange(0, i as int));
    }
    proof {
        lemma_nul_run_is_prefix(buf@, i as int);
    }
    sjis_decode_bytes(prefix.as_slice())
}

/// The nul run starting at 0 is the nul-free prefix up to `end`, where `end`
/// is the buffer's end or holds a nul.
proof fn lemma_nul_run_is_prefix(b: Seq<u8>, end: int)
    requires
        0 <= end <= b.len(),
        forall|j: int| 0 <= j < end ==> b[j] != 0,
        end < b.len() ==> b[end] == 0,
    ensures
        nul_run(b, 0) =~= b.subrange(0, end),
{
    lemma_nul_run_span(b, 0, end);
}

proof fn lemma_nul_run_span(b: Seq<u8>, start: int, end: int)
    requires
        0 <= start <= end <= b.len(),
        forall|j: int| start <= j < end ==> b[j] != 0,
        end < b.len() ==> b[end] == 0,
    ensures
        nul_run(b, start) =~= b.subrange(start, end),
    decreases end - start,
{
    if start < end {
        lemma_nul_run_span(b, start + 1, end);
        assert(nul_run(b, start) =~= b.subrange(start, end));
    }
}

/// Encodes `s` as Shift-JIS; fails when a character is not representable.
pub fn encode(s: &str) -> (r: Result<Vec<u8>, EncodingError>)
    ensures
        r matches Ok(v) ==> sjis_enc(s@) matches Some(e) && v@ == e,
        r is Ok <==> sjis_enc(s@) is Some,
        r matches Err(e) ==> e == EncodingError::InvalidShiftJis,
        s.is_ascii() ==> (r matches Ok(v) && v@ == s.spec_bytes()),
{
    match sjis_encode(s) {
        Some(v) => Ok(v),
        None => Err(EncodingError::InvalidShiftJis),
    }
}

/// Encodes `s` into a fixed-width destination, keeping the destination's
/// length: the encoded bytes followed by zero padding. Fails when the text is
/// not representable or does not fit.
pub fn encode_into(s: &str, buf: &mut Vec<u8>) -> (r: Result<(), EncodingError>)
    ensures
        final(buf)@.len() == old(buf)@.len(),
        r matches Ok(()) ==> sjis_enc(s@) matches Some(e) && e.len() <= old(buf)@.len()
            && final(buf)@ =~= e + Seq::new((old(buf)@.len() - e.len()) as nat, |i: int| 0u8),
        r matches Err(e) ==> final(buf)@ == old(buf)@ && (e == EncodingError::InvalidShiftJis
            <==> sjis_enc(s@) is None),
        r is Err <==> (sjis_enc(s@) is None || (sjis_enc(s@) matches Some(e) && e.len() > old(
            buf,
        )@.len())),
{
    let enc = match sjis_encode(s) {
        Some(v) => v,
        None => {
            return Err(EncodingError::InvalidShiftJis);
        },
    };
    if enc.len() > buf.len() {
        return Err(EncodingError::TooLong);
    }
    let n = buf.len();
    let mut out: Vec<u8> = Vec::new();
    let mut i: usize = 0;
    while i < enc.len()
        invariant
            i <= enc@.len() <= n,
            out@ =~= enc@.subrange(0, i as int),
        decreases enc@.len() - i,
    {
        out.push(enc[i]);
        i = i + 1;
        assert(out@ =~= enc@.subrange(0, i as int));
    }
    assert(out@ =~= enc@);
    while i < n
        invariant
            enc@.len() <= i <= n,
            out@.len() == i,
            out@.subrange(0, enc@.len() as int) =~= enc@,
            forall|j: int| enc@.len() <= j < i ==> out@[j] == 0,
        decreases n - i,
    {
        out.push(0);
        i = i + 1;
        assert(out@.subrange(0, enc@.len() as int) =~= enc@);
    }
    *buf = out;
    assert(buf@ =~= enc@ + Seq::new((n - enc@.len()) as nat, |i: int| 0u8));
    Ok(())
}

/// A string destined for the nul-terminated Shift-JIS representation.
#[derive(Debug, Clone)]
pub struct NulTermShiftJis {
    pub data: String,
}

impl NulTermShiftJis {
    pub fn new(data: String) -> (r: Self)
        ensures
            r.data == data,
    {
        NulTermShiftJis { data }
    }
}

/// Appends `s` encoded as Shift-JIS followed by a single nul terminator.
pub fn write_nul_term_shift_jis(s: &str, writer: &mut Vec<u8>) -> (r: Result<
    (),
    EncodingError,
>)
    ensures
        r matches Ok(()) ==> sjis_enc(s@) matches Some(e) && final(writer)@ == old(writer)@ + e
            + seq![0u8],
        r is Ok <==> sjis_enc(s@) is Some,
        r is Err ==> final(writer)@ == old(writer)@,
{
    match sjis_encode(s) {
        Some(v) => {
            let mut i: usize = 0;
            while i < v.len()
                invariant
                    i <= v@.len(),
                    writer@ =~= old(writer)@ + v@.subrange(0, i as int),
                decreases v@.len() - i,
            {
                writer.push(v[i]);
                i = i + 1;
                assert(writer@ =~= old(writer)@ + v@.subrange(0, i as int));
            }
            writer.push(0);
            assert(writer@ =~= old(writer)@ + v@ + seq![0u8]);
            Ok(())
        },
        None => Err(EncodingError::InvalidShiftJis),
    }
}

} // verus!
