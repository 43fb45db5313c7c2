//! Ready-made flow entries for common patch actions, and the text helpers
//! the patcher needs.

use vstd::prelude::*;

use crate::msb_edit::Flowref;
use crate::msb_edit::RefFlowEntryNonDiverging;

verus! {

/// What `str::encode_utf16` yields for a string.
pub uninterp spec fn utf16_of(s: Seq<char>) -> Seq<u16>;

/// Relies on `str::encode_utf16`: the UTF-16 code units are a function of
/// the characters alone.
#[verifier::external_body]
pub fn encode_utf16_units(s: &str) -> (r: Vec<u16>)
    ensures
        r@ == utf16_of(s@),
{
    s.encode_utf16().collect()
}

/// The decimal digits of `n`, as a string.
pub fn decimal_string(n: u16) -> (r: String)
{
    let mut digits: Vec<u8> = Vec::new();
    let mut v = n;
    if v == 0 {
        digits.push(0x30);
    }
    while v > 0
        invariant
            forall|j: int| 0 <= j < digits@.len() ==> 0x30 <= #[trigger] digits@[j] < 0x3A,
        decreases v,
    {
        let d = (v % 10) as u8;
        digits.push(0x30 + d);
        v = v / 10;
    }
    let mut fwd: Vec<u8> = Vec::new();
    let mut i = digits.len();
    while i > 0
        invariant
            i <= digits@.len(),
            forall|j: int| 0 <= j < digits@.len() ==> 0x30 <= #[trigger] digits@[j] < 0x3A,
            forall|j: int| 0 <= j < fwd@.len() ==> 0x30 <= #[trigger] fwd@[j] < 0x3A,
        decreases i,
    {
        i = i - 1;
        fwd.push(digits[i]);
    }
    assert(crate::encoding::all_ascii_bytes(fwd@));
    match crate::encoding::decode(fwd.as_slice()) {
        Some(s) => s,
        None => {
            proof {
                crate::bytes::lemma_nul_run_nonzero(fwd@, 0);
                crate::bytes::lemma_nul_run_whole(fwd@);
            }
            String::new()
        },
    }
}

/// A fresh start entry ending its chain.
pub fn start() -> (r: RefFlowEntryNonDiverging)
    ensures
        r == (RefFlowEntryNonDiverging::Start { next: Flowref::Index(-1i16) }),
{
    RefFlowEntryNonDiverging::Start { next: Flowref::end() }
}

/// An action that sets a story flag.
pub fn set_storyflag(flag: u16) -> (r: RefFlowEntryNonDiverging)
    ensures
        r == (RefFlowEntryNonDiverging::Flow {
            subtype: 0u8,
            param1: 0u16,
            param2: flag,
            next: Flowref::Index(-1i16),
            param3: 0i16,
        }),
{
    RefFlowEntryNonDiverging::Flow {
        subtype: 0,
        param1: 0,
        param2: flag,
        next: Flowref::end(),
        param3: 0,
    }
}

/// An action that clears a story flag.
pub fn unset_storyflag(flag: u16) -> (r: RefFlowEntryNonDiverging)
    ensures
        r == (RefFlowEntryNonDiverging::Flow {
            subtype: 0u8,
            param1: 0u16,
            param2: flag,
            next: Flowref::Index(-1i16),
            param3: 1i16,
        }),
{
    RefFlowEntryNonDiverging::Flow {
        subtype: 0,
        param1: 0,
        param2: flag,
        next: Flowref::end(),
        param3: 1,
    }
}

/// An action that grants rupees (negative amounts deduct).
pub fn add_rupees(rupees: i16) -> (r: RefFlowEntryNonDiverging)
    ensures
        r == (RefFlowEntryNonDiverging::Flow {
            subtype: 0u8,
            param1: 0u16,
            param2: rupees as u16,
            next: Flowref::Index(-1i16),
            param3: 8i16,
        }),
{
    #[verifier::truncate]
    let p2 = rupees as u16;
    proof {
        assert(rupees as u16 == p2) by (bit_vector)
            requires
                p2 == rupees as u16,
        ;
    }
    RefFlowEntryNonDiverging::Flow {
        subtype: 0,
        param1: 0,
        param2: p2,
        next: Flowref::end(),
        param3: 8,
    }
}

/// An action that gives an item.
pub fn give_item(item: u16) -> (r: RefFlowEntryNonDiverging)
    ensures
        r == (RefFlowEntryNonDiverging::Flow {
            subtype: 0u8,
            param1: 0u16,
            param2: item,
            next: Flowref::Index(-1i16),
            param3: 9i16,
        }),
{
    RefFlowEntryNonDiverging::Flow {
        subtype: 0,
        param1: 0,
        param2: item,
        next: Flowref::end(),
        param3: 9,
    }
}

/// An action that grants the gratitude crystals reward.
pub fn give_gratitude_crystals() -> (r: RefFlowEntryNonDiverging)
    ensures
        r == (RefFlowEntryNonDiverging::Flow {
            subtype: 0u8,
            param1: 0u16,
            param2: 0u16,
            next: Flowref::Index(-1i16),
            param3: 43i16,
        }),
{
    RefFlowEntryNonDiverging::Flow {
        subtype: 0,
        param1: 0,
        param2: 0,
        next: Flowref::end(),
        param3: 43,
    }
}

} // verus!
