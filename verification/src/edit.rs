//! Helpers for patching a decoded scene model: id-based lookup in the object
//! sequences, id allocation, and bit-field updates.

use vstd::prelude::*;

use crate::codec::BzsEntries;
use crate::records::OBJ;
use crate::records::SOBJ;

verus! {

broadcast use vstd::array::group_array_axioms;

/// Failure of a patch operation on the model.
#[derive(Debug, Clone, Copy, PartialEq, Eq, Structural)]
pub enum InvalidPatchError {
    IdNotFound(u16),
}

impl InvalidPatchError {
    /// A short human-readable description of the failure.
    pub fn message(&self) -> (r: &'static str)
    {
        match self {
            InvalidPatchError::IdNotFound(_) => "could not find id",
        }
    }
}

/// Writes `new_value` through `mask` at `shift`: the selected window of
/// `value` is replaced, everything else is kept.
pub open spec fn spec_masked_set(value: u32, mask: u32, shift: u32, new_value: u32) -> u32 {
    (value & !(mask << shift)) | ((new_value & mask) << shift)
}

/// Replaces the bits of `value` selected by `mask` shifted by `shift` with
/// the low bits of `new_value`.
pub fn mask_shift_set(value: u32, mask: u32, shift: u32, new_value: u32) -> (r: u32)
    requires
        shift < 32,
    ensures
        r == spec_masked_set(value, mask, shift, new_value),
{
    let new_value = new_value & mask;
    (value & !(mask << shift)) | (new_value << shift)
}

/// `input` copied into an `N`-byte array, truncated or zero-padded on the
/// right.
pub fn zero_pad<const N: usize>(input: &[u8]) -> (r: [u8; N])
    ensures
        r@.len() == N,
        forall|j: int| 0 <= j < N && j < input@.len() ==> r@[j] == input@[j],
        forall|j: int| input@.len() <= j < N ==> r@[j] == 0u8,
{
    let mut out: [u8; N] = vstd::array::array_fill_for_copy_types(0u8);
    let mut i: usize = 0;
    while i < N && i < input.len()
        invariant
            i <= N,
            i <= input@.len(),
            out@.len() == N,
            forall|j: int|
                0 <= j < i ==> out@[j] == input@[j],
            forall|j: int| i <= j < N ==> out@[j] == 0u8,
        decreases N - i,
    {
        out[i] = input[i];
        i = i + 1;
    }
    out
}

/// A sequence of objects holds `v` as a masked (low 10 bits) id.
pub open spec fn seq_has_obj_id(s: Seq<OBJ>, v: u16) -> bool {
    exists|i: int| 0 <= i < s.len() && (#[trigger] s[i].id) & 0x3FF == v
}

/// A sequence of scalable objects holds `v` as a masked id.
pub open spec fn seq_has_sobj_id(s: Seq<SOBJ>, v: u16) -> bool {
    exists|i: int| 0 <= i < s.len() && (#[trigger] s[i].id) & 0x3FF == v
}

/// Some object or scalable object of this model (layers not included) uses
/// the masked id `v`.
pub open spec fn model_has_id(e: BzsEntries, v: u16) -> bool {
    ||| seq_has_obj_id(e.obj@, v)
    ||| seq_has_obj_id(e.objs@, v)
    ||| seq_has_obj_id(e.door@, v)
    ||| seq_has_sobj_id(e.sobj@, v)
    ||| seq_has_sobj_id(e.sobs@, v)
    ||| seq_has_sobj_id(e.sndt@, v)
    ||| seq_has_sobj_id(e.stag@, v)
    ||| seq_has_sobj_id(e.stas@, v)
}

/// The masked id `v` is used somewhere in the root model or one of its
/// layers.
pub open spec fn scan_has_id(e: BzsEntries, v: u16) -> bool {
    model_has_id(e, v) || exists|l: int|
        0 <= l < e.lay@.len() && model_has_id(#[trigger] e.lay@[l], v)
}

/// Folds a plain-object sequence into the running maximum used id; the
/// reserved sentinel 0x3FF never counts.
fn scan_objs(v: &Vec<OBJ>, cur: u16) -> (r: u16)
    ensures
        r >= cur,
        r == cur || (seq_has_obj_id(v@, r) && r != 0x3FF),
        forall|w: u16| seq_has_obj_id(v@, w) && w != 0x3FF ==> w <= r,
{
    let mut best = cur;
    let mut i: usize = 0;
    while i < v.len()
        invariant
            i <= v@.len(),
            best >= cur,
            best == cur || (seq_has_obj_id(v@, best) && best != 0x3FF),
            forall|j: int|
                0 <= j < i ==> ((#[trigger] v@[j].id) & 0x3FF == 0x3FF || v@[j].id & 0x3FF
                    <= best),
        decreases v@.len() - i,
    {
        let id = v[i].id & 0x3FF;
        if id != 0x3FF && id > best {
            best = id;
        }
        i = i + 1;
    }
    best
}

/// Folds a scalable-object sequence into the running maximum used id.
fn scan_sobjs(v: &Vec<SOBJ>, cur: u16) -> (r: u16)
    ensures
        r >= cur,
        r == cur || (seq_has_sobj_id(v@, r) && r != 0x3FF),
        forall|w: u16| seq_has_sobj_id(v@, w) && w != 0x3FF ==> w <= r,
{
    let mut best = cur;
    let mut i: usize = 0;
    while i < v.len()
        invariant
            i <= v@.len(),
            best >= cur,
            best == cur || (seq_has_sobj_id(v@, best) && best != 0x3FF),
            forall|j: int|
                0 <= j < i ==> ((#[trigger] v@[j].id) & 0x3FF == 0x3FF || v@[j].id & 0x3FF
                    <= best),
        decreases v@.len() - i,
    {
        let id = v[i].id & 0x3FF;
        if id != 0x3FF && id > best {
            best = id;
        }
        i = i + 1;
    }
    best
}

/// Folds one model's eight object sequences into the running maximum.
fn scan_model(e: &BzsEntries, cur: u16) -> (r: u16)
    ensures
        r >= cur,
        r == cur || (model_has_id(*e, r) && r != 0x3FF),
        forall|w: u16| model_has_id(*e, w) && w != 0x3FF ==> w <= r,
{
    let mut best = cur;
    best = scan_objs(&e.obj, best);
    best = scan_objs(&e.objs, best);
    best = scan_objs(&e.door, best);
    best = scan_sobjs(&e.sobj, best);
    best = scan_sobjs(&e.sobs, best);
    best = scan_sobjs(&e.sndt, best);
    best = scan_sobjs(&e.stag, best);
    best = scan_sobjs(&e.stas, best);
    best
}

/// The highest locally-unique id (low 10 bits) used by any object or
/// scalable object of the model or its layers; the sentinel 0x3FF never
/// counts, and 0 is returned when nothing else is used.
pub fn find_highest_used_id(bzs: &BzsEntries) -> (r: u16)
    ensures
        r == 0 || (scan_has_id(*bzs, r) && r != 0x3FF),
        forall|w: u16| scan_has_id(*bzs, w) && w != 0x3FF ==> w <= r,
{
    let mut best: u16 = 0;
    best = scan_model(bzs, best);
    let mut l: usize = 0;
    while l < bzs.lay.len()
        invariant
            l <= bzs.lay@.len(),
            best == 0 || (scan_has_id(*bzs, best) && best != 0x3FF),
            forall|w: u16| model_has_id(*bzs, w) && w != 0x3FF ==> w <= best,
            forall|j: int, w: u16|
                0 <= j < l && #[trigger] model_has_id(bzs.lay@[j], w) && w != 0x3FF ==> w <= best,
        decreases bzs.lay@.len() - l,
    {
        best = scan_model(&bzs.lay[l], best);
        l = l + 1;
    }
    best
}

/// Id-keyed access to an object sequence of the model.
pub trait ByIdExt: Sized {
    type Out;

    /// The identity field of an element.
    spec fn elem_id(o: Self::Out) -> u16;

    /// The elements as a sequence.
    spec fn elems(&self) -> Seq<Self::Out>;

    /// Removes and returns the first element whose id equals `id`.
    fn remove_by_id(&mut self, id: u16) -> (r: Result<Self::Out, InvalidPatchError>);

    /// Returns (a copy of) the first element whose id equals `id`.
    fn get_by_id(&self, id: u16) -> (r: Result<Self::Out, InvalidPatchError>);

    /// Replaces the first element whose id equals `id`.
    fn set_by_id(&mut self, id: u16, val: Self::Out) -> (r: Result<(), InvalidPatchError>);
}

impl ByIdExt for Vec<OBJ> {
    type Out = OBJ;

    open spec fn elem_id(o: OBJ) -> u16 {
        o.id
    }

    open spec fn elems(&self) -> Seq<OBJ> {
        self@
    }

    fn remove_by_id(&mut self, id: u16) -> (r: Result<OBJ, InvalidPatchError>)
        ensures
            r matches Ok(o) ==> exists|k: int|
                {
                    &&& 0 <= k < old(self)@.len()
                    &&& (#[trigger] old(self)@[k]).id == id
                    &&& o == old(self)@[k]
                    &&& forall|j: int| 0 <= j < k ==> (#[trigger] old(self)@[j]).id != id
                    &&& final(self)@ == old(self)@.remove(k)
                },
            r is Err <==> !exists|k: int| 0 <= k < old(self)@.len() && (#[trigger] old(
                self,
            )@[k]).id == id,
            r matches Err(e) ==> e == InvalidPatchError::IdNotFound(id) && final(self)@ == old(
                self,
            )@,
    {
        let mut i: usize = 0;
        while i < self.len()
            invariant
                i <= self@.len(),
                self@ == old(self)@,
                forall|j: int| 0 <= j < i ==> (#[trigger] self@[j]).id != id,
            decreases self@.len() - i,
        {
            if self[i].id == id {
                let o = self.remove(i);
                return Ok(o);
            }
            i = i + 1;
        }
        Err(InvalidPatchError::IdNotFound(id))
    }

    fn get_by_id(&self, id: u16) -> (r: Result<OBJ, InvalidPatchError>)
        ensures
            r matches Ok(o) ==> exists|k: int|
                {
                    &&& 0 <= k < self@.len()
                    &&& (#[trigger] self@[k]).id == id
                    &&& o == self@[k]
                    &&& forall|j: int| 0 <= j < k ==> (#[trigger] self@[j]).id != id
                },
            r is Err <==> !exists|k: int| 0 <= k < self@.len() && (#[trigger] self@[k]).id == id,
            r matches Err(e) ==> e == InvalidPatchError::IdNotFound(id),
    {
        let mut i: usize = 0;
        while i < self.len()
            invariant
                i <= self@.len(),
                forall|j: int| 0 <= j < i ==> (#[trigger] self@[j]).id != id,
            decreases self@.len() - i,
        {
            if self[i].id == id {
                return Ok(self[i]);
            }
            i = i + 1;
        }
        Err(InvalidPatchError::IdNotFound(id))
    }

    fn set_by_id(&mut self, id: u16, val: OBJ) -> (r: Result<(), InvalidPatchError>)
        ensures
            r matches Ok(()) ==> exists|k: int|
                {
                    &&& 0 <= k < old(self)@.len()
                    &&& (#[trigger] old(self)@[k]).id == id
                    &&& forall|j: int| 0 <= j < k ==> (#[trigger] old(self)@[j]).id != id
                    &&& final(self)@ == old(self)@.update(k, val)
                },
            r is Err <==> !exists|k: int| 0 <= k < old(self)@.len() && (#[trigger] old(
                self,
            )@[k]).id == id,
            r matches Err(e) ==> e == InvalidPatchError::IdNotFound(id) && final(self)@ == old(
                self,
            )@,
    {
        let mut i: usize = 0;
        while i < self.len()
            invariant
                i <= self@.len(),
                self@ == old(self)@,
                forall|j: int| 0 <= j < i ==> (#[trigger] self@[j]).id != id,
            decreases self@.len() - i,
        {
            if self[i].id == id {
                self.set(i, val);
                return Ok(());
            }
            i = i + 1;
        }
        Err(InvalidPatchError::IdNotFound(id))
    }
}

impl ByIdExt for Vec<SOBJ> {
    type Out = SOBJ;

    open spec fn elem_id(o: SOBJ) -> u16 {
        o.id
    }

    open spec fn elems(&self) -> Seq<SOBJ> {
        self@
    }

    fn remove_by_id(&mut self, id: u16) -> (r: Result<SOBJ, InvalidPatchError>)
        ensures
            r matches Ok(o) ==> exists|k: int|
                {
                    &&& 0 <= k < old(self)@.len()
                    &&& (#[trigger] old(self)@[k]).id == id
                    &&& o == old(self)@[k]
                    &&& forall|j: int| 0 <= j < k ==> (#[trigger] old(self)@[j]).id != id
                    &&& final(self)@ == old(self)@.remove(k)
                },
            r is Err <==> !exists|k: int| 0 <= k < old(self)@.len() && (#[trigger] old(
                self,
            )@[k]).id == id,
            r matches Err(e) ==> e == InvalidPatchError::IdNotFound(id) && final(self)@ == old(
                self,
            )@,
    {
        let mut i: usize = 0;
        while i < self.len()
            invariant
                i <= self@.len(),
                self@ == old(self)@,
                forall|j: int| 0 <= j < i ==> (#[trigger] self@[j]).id != id,
            decreases self@.len() - i,
        {
            if self[i].id == id {
                let o = self.remove(i);
                return Ok(o);
            }
            i = i + 1;
        }
        Err(InvalidPatchError::IdNotFound(id))
    }

    fn get_by_id(&self, id: u16) -> (r: Result<SOBJ, InvalidPatchError>)
        ensures
            r matches Ok(o) ==> exists|k: int|
                {
                    &&& 0 <= k < self@.len()
                    &&& (#[trigger] self@[k]).id == id
                    &&& o == self@[k]
                    &&& forall|j: int| 0 <= j < k ==> (#[trigger] self@[j]).id != id
                },
            r is Err <==> !exists|k: int| 0 <= k < self@.len() && (#[trigger] self@[k]).id == id,
            r matches Err(e) ==> e == InvalidPatchError::IdNotFound(id),
    {
        let mut i: usize = 0;
        while i < self.len()
            invariant
                i <= self@.len(),
                forall|j: int| 0 <= j < i ==> (#[trigger] self@[j]).id != id,
            decreases self@.len() - i,
        {
            if self[i].id == id {
                return Ok(self[i]);
            }
            i = i + 1;
        }
        Err(InvalidPatchError::IdNotFound(id))
    }

    fn set_by_id(&mut self, id: u16, val: SOBJ) -> (r: Result<(), InvalidPatchError>)
        ensures
            r matches Ok(()) ==> exists|k: int|
                {
                    &&& 0 <= k < old(self)@.len()
                    &&& (#[trigger] old(self)@[k]).id == id
                    &&& forall|j: int| 0 <= j < k ==> (#[trigger] old(self)@[j]).id != id
                    &&& final(self)@ == old(self)@.update(k, val)
                },
            r is Err <==> !exists|k: int| 0 <= k < old(self)@.len() && (#[trigger] old(
                self,
            )@[k]).id == id,
            r matches Err(e) ==> e == InvalidPatchError::IdNotFound(id) && final(self)@ == old(
                self,
            )@,
    {
        let mut i: usize = 0;
        while i < self.len()
            invariant
                i <= self@.len(),
                self@ == old(self)@,
                forall|j: int| 0 <= j < i ==> (#[trigger] self@[j]).id != id,
            decreases self@.len() - i,
        {
            if self[i].id == id {
                self.set(i, val);
                return Ok(());
            }
            i = i + 1;
        }
        Err(InvalidPatchError::IdNotFound(id))
    }
}

/// Appends a fresh plain object: the next id is advanced and stamped on it,
/// and its parameter words start out all-ones.
pub fn create_obj(v: &mut Vec<OBJ>, next_id: &mut u16) -> (r: OBJ)
    requires
        *old(next_id) < u16::MAX,
    ensures
        *final(next_id) == *old(next_id) + 1,
        final(v)@ == old(v)@.push(r),
        r.id == *old(next_id) + 1,
        r.params1 == 0xFFFFFFFFu32,
        r.params2 == 0xFFFFFFFFu32,
{
    *next_id = *next_id + 1;
    let obj = OBJ {
        params1: 0xFFFFFFFF,
        params2: 0xFFFFFFFF,
        posx: 0,
        posy: 0,
        posz: 0,
        anglex: 0,
        angley: 0,
        anglez: 0,
        id: *next_id,
        name: [0u8; 8],
    };
    v.push(obj);
    obj
}

/// Appends a fresh scalable object: the next id is advanced and stamped on
/// it, its parameter words start out all-ones, and its size is unit scale
/// (the bit pattern of 1.0) on every axis.
pub fn create_sobj(v: &mut Vec<SOBJ>, next_id: &mut u16) -> (r: SOBJ)
    requires
        *old(next_id) < u16::MAX,
    ensures
        *final(next_id) == *old(next_id) + 1,
        final(v)@ == old(v)@.push(r),
        r.id == *old(next_id) + 1,
        r.params1 == 0xFFFFFFFFu32,
        r.params2 == 0xFFFFFFFFu32,
        r.sizex == 0x3F800000u32 && r.sizey == 0x3F800000u32 && r.sizez == 0x3F800000u32,
{
    *next_id = *next_id + 1;
    let sobj = SOBJ {
        params1: 0xFFFFFFFF,
        params2: 0xFFFFFFFF,
        posx: 0,
        posy: 0,
        posz: 0,
        sizex: 0x3F800000,
        sizey: 0x3F800000,
        sizez: 0x3F800000,
        anglex: 0,
        angley: 0,
        anglez: 0,
        id: *next_id,
        name: [0u8; 8],
    };
    v.push(sobj);
    sobj
}

impl OBJ {
    /// Sets the position (raw float bit patterns).
    pub fn set_pos(&mut self, x: u32, y: u32, z: u32)
        ensures
            *final(self) == (OBJ { posx: x, posy: y, posz: z, ..*old(self) }),
    {
        self.posx = x;
        self.posy = y;
        self.posz = z;
    }

    /// Sets the three 16-bit angles.
    pub fn set_angle(&mut self, x: u16, y: u16, z: u16)
        ensures
            *final(self) == (OBJ { anglex: x, angley: y, anglez: z, ..*old(self) }),
    {
        self.anglex = x;
        self.angley = y;
        self.anglez = z;
    }

    /// Sets the first parameter word.
    pub fn set_params1(&mut self, params1: u32)
        ensures
            *final(self) == (OBJ { params1, ..*old(self) }),
    {
        self.params1 = params1;
    }

    /// Sets the second parameter word.
    pub fn set_params2(&mut self, params2: u32)
        ensures
            *final(self) == (OBJ { params2, ..*old(self) }),
    {
        self.params2 = params2;
    }

    /// Sets the 8-byte name.
    pub fn set_name(&mut self, name: [u8; 8])
        ensures
            *final(self) == (OBJ { name, ..*old(self) }),
    {
        self.name = name;
    }

    /// Overwrites only the type/category bits (the high 6) of the id.
    pub fn set_id(&mut self, id: u16)
        ensures
            *final(self) == (OBJ { id: (old(self).id & !0xFC00) | (id & 0xFC00), ..*old(self) }),
    {
        self.id = (self.id & !0xFC00) | (id & 0xFC00);
    }

    /// Stamps the pot object class: its type bits and its name.
    pub fn as_tubo(&mut self)
        ensures
            final(self).id == (old(self).id & !0xFC00) | 0x0400,
            final(self).name@ =~= seq![0x54u8, 0x75u8, 0x62u8, 0x6Fu8, 0u8, 0u8, 0u8, 0u8],
            final(self).params1 == old(self).params1,
            final(self).params2 == old(self).params2,
    {
        proof {
            assert(0x0400u16 & 0xFC00u16 == 0x0400u16) by (bit_vector);
        }
        self.set_id(0x0400);
        let name: [u8; 8] = [0x54, 0x75, 0x62, 0x6F, 0, 0, 0, 0];
        self.set_name(name);
    }

    /// A pot's subtype: the low nibble of the first parameter word.
    pub fn set_tubo_subtype(&mut self, subtype: u8)
        ensures
            final(self).params1 == spec_masked_set(old(self).params1, 0xF, 0, subtype as u32),
            final(self).params2 == old(self).params2,
            final(self).id == old(self).id,
    {
        self.params1 = mask_shift_set(self.params1, 0xF, 0, subtype as u32);
    }

    /// A pot's drop: the top byte of the second parameter word.
    pub fn set_tubo_drop(&mut self, drop: u8)
        ensures
            final(self).params2 == spec_masked_set(old(self).params2, 0xFF, 0x18, drop as u32),
            final(self).params1 == old(self).params1,
            final(self).id == old(self).id,
    {
        self.params2 = mask_shift_set(self.params2, 0xFF, 0x18, drop as u32);
    }

    /// Stamps the save-point object class: its type bits and its name.
    pub fn as_save_obj(&mut self)
        ensures
            final(self).id == (old(self).id & !0xFC00) | 0xFC00,
            final(self).name@ =~= seq![
                0x73u8,
                0x61u8,
                0x76u8,
                0x65u8,
                0x4Fu8,
                0x62u8,
                0x6Au8,
                0u8,
            ],
            final(self).params1 == old(self).params1,
            final(self).params2 == old(self).params2,
    {
        proof {
            assert(0xFC00u16 & 0xFC00u16 == 0xFC00u16) by (bit_vector);
        }
        self.set_id(0xFC00);
        let name: [u8; 8] = [0x73, 0x61, 0x76, 0x65, 0x4F, 0x62, 0x6A, 0];
        self.set_name(name);
    }

    /// A save point's subtype: the second byte of the first parameter word.
    pub fn set_save_obj_subtype(&mut self, subtype: u8)
        ensures
            final(self).params1 == spec_masked_set(old(self).params1, 0xFF, 8, subtype as u32),
            final(self).params2 == old(self).params2,
            final(self).id == old(self).id,
    {
        self.params1 = mask_shift_set(self.params1, 0xFF, 8, subtype as u32);
    }

    /// A save point's exit: the third byte of the first parameter word.
    pub fn set_save_obj_exit(&mut self, exit: u8)
        ensures
            final(self).params1 == spec_masked_set(old(self).params1, 0xFF, 0x10, exit as u32),
            final(self).params2 == old(self).params2,
            final(self).id == old(self).id,
    {
        self.params1 = mask_shift_set(self.params1, 0xFF, 0x10, exit as u32);
    }
}

impl SOBJ {
    /// Sets the position (raw float bit patterns).
    pub fn set_pos(&mut self, x: u32, y: u32, z: u32)
        ensures
            *final(self) == (SOBJ { posx: x, posy: y, posz: z, ..*old(self) }),
    {
        self.posx = x;
        self.posy = y;
        self.posz = z;
    }

    /// Sets the size (raw float bit patterns).
    pub fn set_size(&mut self, x: u32, y: u32, z: u32)
        ensures
            *final(self) == (SOBJ { sizex: x, sizey: y, sizez: z, ..*old(self) }),
    {
        self.sizex = x;
        self.sizey = y;
        self.sizez = z;
    }

    /// Sets the three 16-bit angles.
    pub fn set_angle(&mut self, x: u16, y: u16, z: u16)
        ensures
            *final(self) == (SOBJ { anglex: x, angley: y, anglez: z, ..*old(self) }),
    {
        self.anglex = x;
        self.angley = y;
        self.anglez = z;
    }

    /// Sets the first parameter word.
    pub fn set_params1(&mut self, params1: u32)
        ensures
            *final(self) == (SOBJ { params1, ..*old(self) }),
    {
        self.params1 = params1;
    }

    /// Sets the second parameter word.
    pub fn set_params2(&mut self, params2: u32)
        ensures
            *final(self) == (SOBJ { params2, ..*old(self) }),
    {
        self.params2 = params2;
    }

    /// Sets the 8-byte name.
    pub fn set_name(&mut self, name: [u8; 8])
        ensures
            *final(self) == (SOBJ { name, ..*old(self) }),
    {
        self.name = name;
    }

    /// Overwrites only the type/category bits (the high 6) of the id.
    pub fn set_id(&mut self, id: u16)
        ensures
            *final(self) == (SOBJ { id: (old(self).id & !0xFC00) | (id & 0xFC00), ..*old(self) }),
    {
        self.id = (self.id & !0xFC00) | (id & 0xFC00);
    }
}

} // verus!
