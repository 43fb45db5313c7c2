//! Named-object patch helpers: keyed bit-field edits for the well-known
//! object classes, partial-field patches, and id scanning over a whole model.

use vstd::prelude::*;

use crate::codec::BzsEntries;
use crate::edit::scan_has_id;
use crate::edit::spec_masked_set;
use crate::records::OBJ;
use crate::records::SOBJ;

verus! {

/// Replaces the bits of `value` selected by `mask` shifted by `shift` with
/// the low bits of `new_value`.
pub fn mask_shift_set(value: u32, mask: u32, shift: u32, new_value: u32) -> (r: u32)
    requires
        shift < 32,
    ensures
        r == spec_masked_set(value, mask, shift, new_value),
{
    crate::edit::mask_shift_set(value, mask, shift, new_value)
}

/// `input` copied into an `N`-byte array, truncated or zero-padded on the
/// right.
pub fn zero_pad<const N: usize>(input: &[u8]) -> (r: [u8; N])
    ensures
        r@.len() == N,
        forall|j: int| 0 <= j < N && j < input@.len() ==> r@[j] == input@[j],
        forall|j: int| input@.len() <= j < N ==> r@[j] == 0u8,
{
    crate::edit::zero_pad(input)
}

/// The highest locally-unique id (low 10 bits) used by any object or
/// scalable object of the model or its layers.
pub fn find_highest_used_id(bzs: &BzsEntries) -> (r: u16)
    ensures
        r == 0 || (scan_has_id(*bzs, r) && r != 0x3FF),
        forall|w: u16| scan_has_id(*bzs, w) && w != 0x3FF ==> w <= r,
{
    crate::edit::find_highest_used_id(bzs)
}

/// Custom per-class patches an object can receive by field name.
pub trait ObjExt {
    fn set_NPC_trigstoryfid(&mut self, flag: u16);

    fn set_NPC_untrigstoryfid(&mut self, flag: u16);
}

/// A partial update of one integer field: only the bits under `mask` are
/// replaced, with `value` already positioned.
#[derive(Debug, Clone, Copy, PartialEq, Eq)]
pub struct MaskValue<T> {
    pub mask: T,
    pub value: T,
}

impl MaskValue<u32> {
    /// Applies the partial update to a 32-bit field.
    pub fn apply(&self, out_value: &mut u32)
        ensures
            *final(out_value) == (*old(out_value) & !self.mask) | self.value,
    {
        *out_value = (*out_value & !self.mask) | self.value
    }

    /// True when the field's masked bits equal `value`.
    pub fn check(&self, value: u32) -> (r: bool)
        ensures
            r == ((value & self.mask) == self.value),
    {
        (value & self.mask) == self.value
    }

    /// The update that changes nothing.
    pub fn none() -> (r: Self)
        ensures
            r.mask == 0u32 && r.value == 0u32,
    {
        MaskValue { mask: 0, value: 0 }
    }
}

impl MaskValue<u16> {
    /// Applies the partial update to a 16-bit field.
    pub fn apply(&self, out_value: &mut u16)
        ensures
            *final(out_value) == (*old(out_value) & !self.mask) | self.value,
    {
        *out_value = (*out_value & !self.mask) | self.value
    }

    /// True when the field's masked bits equal `value`.
    pub fn check(&self, value: u16) -> (r: bool)
        ensures
            r == ((value & self.mask) == self.value),
    {
        (value & self.mask) == self.value
    }

    /// The update that changes nothing.
    pub fn none() -> (r: Self)
        ensures
            r.mask == 0u16 && r.value == 0u16,
    {
        MaskValue { mask: 0, value: 0 }
    }
}

/// A partial patch of a scalable-object record: masked parameter and angle
/// updates, and optional replacements of position, size and name. Position
/// and size carry raw float bit patterns.
#[derive(Debug, Clone, Copy, PartialEq, Eq)]
pub struct SOBJParamPatch {
    pub params1: MaskValue<u32>,
    pub params2: MaskValue<u32>,
    pub posx: Option<u32>,
    pub posy: Option<u32>,
    pub posz: Option<u32>,
    pub sizex: Option<u32>,
    pub sizey: Option<u32>,
    pub sizez: Option<u32>,
    pub anglex: MaskValue<u16>,
    pub angley: MaskValue<u16>,
    pub anglez: MaskValue<u16>,
    pub id: MaskValue<u16>,
    pub name: Option<[u8; 8]>,
}

/// The value an optional replacement leaves in a field.
pub open spec fn opt_or<T>(o: Option<T>, dflt: T) -> T {
    match o {
        Some(v) => v,
        None => dflt,
    }
}

impl SOBJParamPatch {
    /// The patch that changes nothing.
    pub fn none() -> (r: Self)
        ensures
            r.params1.mask == 0u32 && r.params1.value == 0u32,
            r.params2.mask == 0u32 && r.params2.value == 0u32,
            r.posx is None && r.posy is None && r.posz is None,
            r.sizex is None && r.sizey is None && r.sizez is None,
            r.anglex.mask == 0u16 && r.anglex.value == 0u16,
            r.angley.mask == 0u16 && r.angley.value == 0u16,
            r.anglez.mask == 0u16 && r.anglez.value == 0u16,
            r.id.mask == 0u16 && r.id.value == 0u16,
            r.name is None,
    {
        SOBJParamPatch {
            params1: MaskValue::<u32>::none(),
            params2: MaskValue::<u32>::none(),
            posx: None,
            posy: None,
            posz: None,
            sizex: None,
            sizey: None,
            sizez: None,
            anglex: MaskValue::<u16>::none(),
            angley: MaskValue::<u16>::none(),
            anglez: MaskValue::<u16>::none(),
            id: MaskValue::<u16>::none(),
            name: None,
        }
    }

    /// Applies every part of the patch to the record.
    pub fn apply(&self, sobj: &mut SOBJ)
        ensures
            final(sobj).params1 == (old(sobj).params1 & !self.params1.mask) | self.params1.value,
            final(sobj).params2 == (old(sobj).params2 & !self.params2.mask) | self.params2.value,
            final(sobj).posx == opt_or(self.posx, old(sobj).posx),
            final(sobj).posy == opt_or(self.posy, old(sobj).posy),
            final(sobj).posz == opt_or(self.posz, old(sobj).posz),
            final(sobj).sizex == opt_or(self.sizex, old(sobj).sizex),
            final(sobj).sizey == opt_or(self.sizey, old(sobj).sizey),
            final(sobj).sizez == opt_or(self.sizez, old(sobj).sizez),
            final(sobj).anglex == (old(sobj).anglex & !self.anglex.mask) | self.anglex.value,
            final(sobj).angley == (old(sobj).angley & !self.angley.mask) | self.angley.value,
            final(sobj).anglez == (old(sobj).anglez & !self.anglez.mask) | self.anglez.value,
            final(sobj).id == (old(sobj).id & !self.id.mask) | self.id.value,
            final(sobj).name == opt_or(self.name, old(sobj).name),
    {
        self.params1.apply(&mut sobj.params1);
        self.params2.apply(&mut sobj.params2);
        if let Some(val) = self.posx {
            sobj.posx = val;
        }
        if let Some(val) = self.posy {
            sobj.posy = val;
        }
        if let Some(val) = self.posz {
            sobj.posz = val;
        }
        if let Some(val) = self.sizex {
            sobj.sizex = val;
        }
        if let Some(val) = self.sizey {
            sobj.sizey = val;
        }
        if let Some(val) = self.sizez {
            sobj.sizez = val;
        }
        self.anglex.apply(&mut sobj.anglex);
        self.angley.apply(&mut sobj.angley);
        self.anglez.apply(&mut sobj.anglez);
        self.id.apply(&mut sobj.id);
        if let Some(val) = self.name {
            sobj.name = val;
        }
    }
}

/// The name begins with the given bytes.
pub open spec fn starts_with_bytes(name: Seq<u8>, p: Seq<u8>) -> bool {
    p.len() <= name.len() && name.subrange(0, p.len() as int) == p
}

pub open spec fn pfx_npc() -> Seq<u8> {
    seq![0x4Eu8, 0x70u8, 0x63u8]
}

pub open spec fn pfx_npctke() -> Seq<u8> {
    seq![0x4Eu8, 0x70u8, 0x63u8, 0x54u8, 0x6Bu8, 0x65u8]
}

pub open spec fn pfx_tbox() -> Seq<u8> {
    seq![0x54u8, 0x42u8, 0x6Fu8, 0x78u8]
}

pub open spec fn pfx_evnttag() -> Seq<u8> {
    seq![0x45u8, 0x76u8, 0x6Eu8, 0x74u8, 0x54u8, 0x61u8, 0x67u8]
}

pub open spec fn pfx_evftag() -> Seq<u8> {
    seq![0x45u8, 0x76u8, 0x66u8, 0x54u8, 0x61u8, 0x67u8]
}

pub open spec fn pfx_scchang() -> Seq<u8> {
    seq![0x53u8, 0x63u8, 0x43u8, 0x68u8, 0x61u8, 0x6Eu8, 0x67u8]
}

pub open spec fn pfx_swareat() -> Seq<u8> {
    seq![0x53u8, 0x77u8, 0x41u8, 0x72u8, 0x65u8, 0x61u8, 0x54u8]
}

/// The keyed patches an object class supports; any other name/key pair is
/// rejected up front (the codec never guesses at unknown fields).
pub open spec fn custom_patch_supported(name: Seq<u8>, key: Seq<char>) -> bool {
    if starts_with_bytes(name, pfx_npc()) {
        ||| key == "trigstoryfid"@
        ||| key == "untrigstoryfid"@
        ||| key == "talk_behaviour"@
        ||| (starts_with_bytes(name, pfx_npctke()) && (key == "trigscenefid"@ || key
            == "untrigscenefid"@ || key == "subtype"@))
    } else if starts_with_bytes(name, pfx_tbox()) {
        key == "spawnscenefid"@ || key == "setscenefid"@ || key == "itemid"@
    } else if starts_with_bytes(name, pfx_evnttag()) {
        key == "trigscenefid"@ || key == "setscenefid"@ || key == "event"@
    } else if starts_with_bytes(name, pfx_evftag()) {
        key == "trigstoryfid"@ || key == "setstoryfid"@ || key == "event"@
    } else if starts_with_bytes(name, pfx_scchang()) {
        key == "trigstoryfid"@ || key == "untrigstoryfid"@ || key == "scen_link"@ || key
            == "trigscenefid"@
    } else if starts_with_bytes(name, pfx_swareat()) {
        key == "setstoryfid"@ || key == "unsetstoryfid"@ || key == "setscenefid"@ || key
            == "unsetscenefid"@
    } else {
        false
    }
}

/// The (params1, anglex, anglez) triple after a keyed patch, given the
/// object's name class.
pub open spec fn custom_patch(
    p1: u32,
    ax: u16,
    az: u16,
    name: Seq<u8>,
    key: Seq<char>,
    value: u32,
) -> (u32, u16, u16) {
    if starts_with_bytes(name, pfx_npc()) {
        if key == "trigstoryfid"@ {
            (spec_masked_set(p1, 0x7FF, 10, value), ax, az)
        } else if key == "untrigstoryfid"@ {
            (spec_masked_set(p1, 0x7FF, 21, value), ax, az)
        } else if key == "talk_behaviour"@ {
            (p1, ax, value as u16)
        } else if key == "trigscenefid"@ {
            (p1, spec_masked_set(ax as u32, 0xFF, 0, value) as u16, az)
        } else if key == "untrigscenefid"@ {
            (p1, spec_masked_set(ax as u32, 0xFF, 8, value) as u16, az)
        } else {
            (spec_masked_set(p1, 0xFF, 0, value), ax, az)
        }
    } else if starts_with_bytes(name, pfx_tbox()) {
        if key == "spawnscenefid"@ {
            (spec_masked_set(p1, 0xFF, 20, value), ax, az)
        } else if key == "setscenefid"@ {
            (p1, spec_masked_set(ax as u32, 0xFF, 0, value) as u16, az)
        } else {
            (p1, ax, spec_masked_set(az as u32, 0x1FF, 0, value) as u16)
        }
    } else if starts_with_bytes(name, pfx_evnttag()) {
        if key == "trigscenefid"@ {
            (spec_masked_set(p1, 0xFF, 16, value), ax, az)
        } else if key == "setscenefid"@ {
            (spec_masked_set(p1, 0xFF, 8, value), ax, az)
        } else {
            (spec_masked_set(p1, 0xFF, 0, value), ax, az)
        }
    } else if starts_with_bytes(name, pfx_evftag()) {
        if key == "trigstoryfid"@ {
            (spec_masked_set(p1, 0x7FF, 19, value), ax, az)
        } else if key == "setstoryfid"@ {
            (spec_masked_set(p1, 0x7FF, 8, value), ax, az)
        } else {
            (spec_masked_set(p1, 0xFF, 0, value), ax, az)
        }
    } else if starts_with_bytes(name, pfx_scchang()) {
        if key == "trigstoryfid"@ {
            (p1, spec_masked_set(ax as u32, 0x7FF, 0, value) as u16, az)
        } else if key == "untrigstoryfid"@ {
            (p1, ax, spec_masked_set(az as u32, 0x7FF, 0, value) as u16)
        } else if key == "scen_link"@ {
            (spec_masked_set(p1, 0xFF, 0, value), ax, az)
        } else {
            (spec_masked_set(p1, 0xFF, 24, value), ax, az)
        }
    } else {
        if key == "setstoryfid"@ {
            (p1, spec_masked_set(ax as u32, 0x7FF, 0, value) as u16, az)
        } else if key == "unsetstoryfid"@ {
            (p1, ax, spec_masked_set(az as u32, 0x7FF, 0, value) as u16)
        } else if key == "setscenefid"@ {
            (spec_masked_set(p1, 0xFF, 0, value), ax, az)
        } else {
            (spec_masked_set(p1, 0xFF, 8, value), ax, az)
        }
    }
}

/// String equality by content.
pub fn str_eq(a: &str, b: &str) -> (r: bool)
    ensures
        r == (a@ == b@),
{
    a.to_owned() == b.to_owned()
}

/// The first bytes of an 8-byte name equal `p`.
fn name_starts_with(name: &[u8; 8], p: &[u8]) -> (r: bool)
    ensures
        r == starts_with_bytes(name@, p@),
{
    if p.len() > 8 {
        return false;
    }
    let mut i: usize = 0;
    while i < p.len()
        invariant
            i <= p@.len(),
            p@.len() <= 8,
            name@.len() == 8,
            forall|j: int| 0 <= j < i ==> name@[j] == p@[j],
        decreases p@.len() - i,
    {
        if name[i] != p[i] {
            assert(name@.subrange(0, p@.len() as int)[i as int] != p@[i as int]);
            return false;
        }
        i = i + 1;
    }
    assert(name@.subrange(0, p@.len() as int) =~= p@);
    true
}

/// Applies the keyed patch `key = value` to a plain object whose name picks
/// one of the known classes; the supported name/key pairs are exactly those
/// of [`custom_patch_supported`].
pub fn do_custom_obj_patch(obj: &mut OBJ, key: &str, value: u32)
    requires
        custom_patch_supported(old(obj).name@, key@),
    ensures
        ({
            let t = custom_patch(
                old(obj).params1,
                old(obj).anglex,
                old(obj).anglez,
                old(obj).name@,
                key@,
                value,
            );
            *final(obj) == (OBJ { params1: t.0, anglex: t.1, anglez: t.2, ..*old(obj) })
        }),
{
    let pn: [u8; 3] = [0x4E, 0x70, 0x63];
    let pt: [u8; 6] = [0x4E, 0x70, 0x63, 0x54, 0x6B, 0x65];
    let pb: [u8; 4] = [0x54, 0x42, 0x6F, 0x78];
    let pe: [u8; 7] = [0x45, 0x76, 0x6E, 0x74, 0x54, 0x61, 0x67];
    let pf: [u8; 6] = [0x45, 0x76, 0x66, 0x54, 0x61, 0x67];
    let ps: [u8; 7] = [0x53, 0x63, 0x43, 0x68, 0x61, 0x6E, 0x67];
    let pw: [u8; 7] = [0x53, 0x77, 0x41, 0x72, 0x65, 0x61, 0x54];
    if name_starts_with(&obj.name, pn.as_slice()) {
        if str_eq(key, "trigstoryfid") {
            obj.params1 = mask_shift_set(obj.params1, 0x7FF, 10, value);
        } else if str_eq(key, "untrigstoryfid") {
            obj.params1 = mask_shift_set(obj.params1, 0x7FF, 21, value);
        } else if str_eq(key, "talk_behaviour") {
            #[verifier::truncate]
            let v16 = value as u16;
            obj.anglez = v16;
        } else if str_eq(key, "trigscenefid") {
            #[verifier::truncate]
            let v16 = mask_shift_set(obj.anglex as u32, 0xFF, 0, value) as u16;
            obj.anglex = v16;
        } else if str_eq(key, "untrigscenefid") {
            #[verifier::truncate]
            let v16 = mask_shift_set(obj.anglex as u32, 0xFF, 8, value) as u16;
            obj.anglex = v16;
        } else {
            assert(key@ == "subtype"@);
            obj.params1 = mask_shift_set(obj.params1, 0xFF, 0, value);
        }
    } else if name_starts_with(&obj.name, pb.as_slice()) {
        if str_eq(key, "spawnscenefid") {
            obj.params1 = mask_shift_set(obj.params1, 0xFF, 20, value);
        } else if str_eq(key, "setscenefid") {
            #[verifier::truncate]
            let v16 = mask_shift_set(obj.anglex as u32, 0xFF, 0, value) as u16;
            obj.anglex = v16;
        } else {
            assert(key@ == "itemid"@);
            #[verifier::truncate]
            let v16 = mask_shift_set(obj.anglez as u32, 0x1FF, 0, value) as u16;
            obj.anglez = v16;
        }
    } else if name_starts_with(&obj.name, pe.as_slice()) {
        if str_eq(key, "trigscenefid") {
            obj.params1 = mask_shift_set(obj.params1, 0xFF, 16, value);
        } else if str_eq(key, "setscenefid") {
            obj.params1 = mask_shift_set(obj.params1, 0xFF, 8, value);
        } else {
            assert(key@ == "event"@);
            obj.params1 = mask_shift_set(obj.params1, 0xFF, 0, value);
        }
    } else if name_starts_with(&obj.name, pf.as_slice()) {
        if str_eq(key, "trigstoryfid") {
            obj.params1 = mask_shift_set(obj.params1, 0x7FF, 19, value);
        } else if str_eq(key, "setstoryfid") {
            obj.params1 = mask_shift_set(obj.params1, 0x7FF, 8, value);
        } else {
            assert(key@ == "event"@);
            obj.params1 = mask_shift_set(obj.params1, 0xFF, 0, value);
        }
    } else if name_starts_with(&obj.name, ps.as_slice()) {
        if str_eq(key, "trigstoryfid") {
            #[verifier::truncate]
            let v16 = mask_shift_set(obj.anglex as u32, 0x7FF, 0, value) as u16;
            obj.anglex = v16;
        } else if str_eq(key, "untrigstoryfid") {
            #[verifier::truncate]
            let v16 = mask_shift_set(obj.anglez as u32, 0x7FF, 0, value) as u16;
            obj.anglez = v16;
        } else if str_eq(key, "scen_link") {
            obj.params1 = mask_shift_set(obj.params1, 0xFF, 0, value);
        } else {
            assert(key@ == "trigscenefid"@);
            obj.params1 = mask_shift_set(obj.params1, 0xFF, 24, value);
        }
    } else {
        assert(starts_with_bytes(old(obj).name@, pfx_swareat()));
        if str_eq(key, "setstoryfid") {
            #[verifier::truncate]
            let v16 = mask_shift_set(obj.anglex as u32, 0x7FF, 0, value) as u16;
            obj.anglex = v16;
        } else if str_eq(key, "unsetstoryfid") {
            #[verifier::truncate]
            let v16 = mask_shift_set(obj.anglez as u32, 0x7FF, 0, value) as u16;
            obj.anglez = v16;
        } else if str_eq(key, "setscenefid") {
            obj.params1 = mask_shift_set(obj.params1, 0xFF, 0, value);
        } else {
            assert(key@ == "unsetscenefid"@);
            obj.params1 = mask_shift_set(obj.params1, 0xFF, 8, value);
        }
    }
}

/// Applies the keyed patch `key = value` to a scalable object; same classes
/// and fields as [`do_custom_obj_patch`].
pub fn do_custom_sobj_patch(obj: &mut SOBJ, key: &str, value: u32)
    requires
        custom_patch_supported(old(obj).name@, key@),
    ensures
        ({
            let t = custom_patch(
                old(obj).params1,
                old(obj).anglex,
                old(obj).anglez,
                old(obj).name@,
                key@,
                value,
            );
            *final(obj) == (SOBJ { params1: t.0, anglex: t.1, anglez: t.2, ..*old(obj) })
        }),
{
    let pn: [u8; 3] = [0x4E, 0x70, 0x63];
    let pb: [u8; 4] = [0x54, 0x42, 0x6F, 0x78];
    let pe: [u8; 7] = [0x45, 0x76, 0x6E, 0x74, 0x54, 0x61, 0x67];
    let pf: [u8; 6] = [0x45, 0x76, 0x66, 0x54, 0x61, 0x67];
    let ps: [u8; 7] = [0x53, 0x63, 0x43, 0x68, 0x61, 0x6E, 0x67];
    if name_starts_with(&obj.name, pn.as_slice()) {
        if str_eq(key, "trigstoryfid") {
            obj.params1 = mask_shift_set(obj.params1, 0x7FF, 10, value);
        } else if str_eq(key, "untrigstoryfid") {
            obj.params1 = mask_shift_set(obj.params1, 0x7FF, 21, value);
        } else if str_eq(key, "talk_behaviour") {
            #[verifier::truncate]
            let v16 = value as u16;
            obj.anglez = v16;
        } else if str_eq(key, "trigscenefid") {
            #[verifier::truncate]
            let v16 = mask_shift_set(obj.anglex as u32, 0xFF, 0, value) as u16;
            obj.anglex = v16;
        } else if str_eq(key, "untrigscenefid") {
            #[verifier::truncate]
            let v16 = mask_shift_set(obj.anglex as u32, 0xFF, 8, value) as u16;
            obj.anglex = v16;
        } else {
            assert(key@ == "subtype"@);
            obj.params1 = mask_shift_set(obj.params1, 0xFF, 0, value);
        }
    } else if name_starts_with(&obj.name, pb.as_slice()) {
        if str_eq(key, "spawnscenefid") {
            obj.params1 = mask_shift_set(obj.params1, 0xFF, 20, value);
        } else if str_eq(key, "setscenefid") {
            #[verifier::truncate]
            let v16 = mask_shift_set(obj.anglex as u32, 0xFF, 0, value) as u16;
            obj.anglex = v16;
        } else {
            assert(key@ == "itemid"@);
            #[verifier::truncate]
            let v16 = mask_shift_set(obj.anglez as u32, 0x1FF, 0, value) as u16;
            obj.anglez = v16;
        }
    } else if name_starts_with(&obj.name, pe.as_slice()) {
        if str_eq(key, "trigscenefid") {
            obj.params1 = mask_shift_set(obj.params1, 0xFF, 16, value);
        } else if str_eq(key, "setscenefid") {
            obj.params1 = mask_shift_set(obj.params1, 0xFF, 8, value);
        } else {
            assert(key@ == "event"@);
            obj.params1 = mask_shift_set(obj.params1, 0xFF, 0, value);
        }
    } else if name_starts_with(&obj.name, pf.as_slice()) {
        if str_eq(key, "trigstoryfid") {
            obj.params1 = mask_shift_set(obj.params1, 0x7FF, 19, value);
        } else if str_eq(key, "setstoryfid") {
            obj.params1 = mask_shift_set(obj.params1, 0x7FF, 8, value);
        } else {
            assert(key@ == "event"@);
            obj.params1 = mask_shift_set(obj.params1, 0xFF, 0, value);
        }
    } else if name_starts_with(&obj.name, ps.as_slice()) {
        if str_eq(key, "trigstoryfid") {
            #[verifier::truncate]
            let v16 = mask_shift_set(obj.anglex as u32, 0x7FF, 0, value) as u16;
            obj.anglex = v16;
        } else if str_eq(key, "untrigstoryfid") {
            #[verifier::truncate]
            let v16 = mask_shift_set(obj.anglez as u32, 0x7FF, 0, value) as u16;
            obj.anglez = v16;
        } else if str_eq(key, "scen_link") {
            obj.params1 = mask_shift_set(obj.params1, 0xFF, 0, value);
        } else {
            assert(key@ == "trigscenefid"@);
            obj.params1 = mask_shift_set(obj.params1, 0xFF, 24, value);
        }
    } else {
        assert(starts_with_bytes(old(obj).name@, pfx_swareat()));
        if str_eq(key, "setstoryfid") {
            #[verifier::truncate]
            let v16 = mask_shift_set(obj.anglex as u32, 0x7FF, 0, value) as u16;
            obj.anglex = v16;
        } else if str_eq(key, "unsetstoryfid") {
            #[verifier::truncate]
            let v16 = mask_shift_set(obj.anglez as u32, 0x7FF, 0, value) as u16;
            obj.anglez = v16;
        } else if str_eq(key, "setscenefid") {
            obj.params1 = mask_shift_set(obj.params1, 0xFF, 0, value);
        } else {
            assert(key@ == "unsetscenefid"@);
            obj.params1 = mask_shift_set(obj.params1, 0xFF, 8, value);
        }
    }
}

} // verus!
