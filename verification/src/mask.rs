//! Partial updates of numeric fields: set or read only the bits selected by a
//! mask, optionally after a shift.

use vstd::prelude::*;

verus! {

/// A mask together with the replacement bits: applying it to a value keeps the
/// bits outside `mask` and overwrites those inside it with `set`.
#[derive(Debug, PartialEq, Eq, Clone, Copy)]
pub struct MaskSet {
    pub mask: u32,
    pub set: u32,
}

/// Spec-level meaning of applying a [`MaskSet`] to a 32-bit value.
pub open spec fn spec_mask_set(value: u32, mask: u32, set: u32) -> u32 {
    (value & !mask) | (set & mask)
}

pub trait MaskSetable {
    fn apply(&mut self, mask_set: MaskSet);
}

impl MaskSetable for u8 {
    fn apply(&mut self, mask_set: MaskSet)
        ensures
            *final(self) == spec_mask_set(*old(self) as u32, mask_set.mask, mask_set.set) as u8,
    {
        *self = (((*self as u32) & !mask_set.mask) | (mask_set.set & mask_set.mask)) as u8;
    }
}

impl MaskSetable for u16 {
    fn apply(&mut self, mask_set: MaskSet)
        ensures
            *final(self) == spec_mask_set(*old(self) as u32, mask_set.mask, mask_set.set) as u16,
    {
        *self = (((*self as u32) & !mask_set.mask) | (mask_set.set & mask_set.mask)) as u16;
    }
}

impl MaskSetable for u32 {
    fn apply(&mut self, mask_set: MaskSet)
        ensures
            *final(self) == spec_mask_set(*old(self), mask_set.mask, mask_set.set),
    {
        *self = ((*self & !mask_set.mask) | (mask_set.set & mask_set.mask)) as u32;
    }
}

/// A window of bits in a wider integer: `mask` selects the width, `shift` the
/// position. `mask_shift_set` and `mask_shift_get` write and read that window.
#[derive(Debug, PartialEq, Eq, Clone, Copy)]
pub struct MaskShift {
    pub mask: u32,
    pub shift: u32,
}

/// Spec-level meaning of writing `new_value` through a mask at a shift.
pub open spec fn spec_mask_shift_set(value: u32, mask: u32, shift: u32, new_value: u32) -> u32 {
    (!(mask << shift) & value) | (new_value << shift)
}

/// Spec-level meaning of reading the bits selected by a mask at a shift.
pub open spec fn spec_mask_shift_get(value: u32, mask: u32, shift: u32) -> u32 {
    (value >> shift) & mask
}

impl MaskShift {
    pub fn mask_shift_set(&self, value: u32, new_value: u32) -> (r: u32)
        requires
            self.shift < 32,
        ensures
            r == spec_mask_shift_set(value, self.mask, self.shift, new_value),
    {
        (!(self.mask << self.shift) & value) | (new_value << self.shift)
    }

    pub fn mask_shift_get(&self, value: u32) -> (r: u32)
        requires
            self.shift < 32,
        ensures
            r == spec_mask_shift_get(value, self.mask, self.shift),
    {
        (value >> self.shift) & self.mask
    }
}

/// With a window given, writes through it; without one, replaces the whole value.
pub fn mask_shift_set(mask_shift: Option<MaskShift>, value: u32, new_value: u32) -> (r: u32)
    requires
        mask_shift matches Some(ms) ==> ms.shift < 32,
    ensures
        r == match mask_shift {
            Some(ms) => spec_mask_shift_set(value, ms.mask, ms.shift, new_value),
            None => new_value,
        },
{
    if let Some(mask_shift) = mask_shift {
        mask_shift.mask_shift_set(value, new_value)
    } else {
        new_value
    }
}

/// With a window given, reads through it; without one, returns the whole value.
pub fn mask_shift_get(mask_shift: Option<MaskShift>, value: u32) -> (r: u32)
    requires
        mask_shift matches Some(ms) ==> ms.shift < 32,
    ensures
        r == match mask_shift {
            Some(ms) => spec_mask_shift_get(value, ms.mask, ms.shift),
            None => value,
        },
{
    if let Some(mask_shift) = mask_shift {
        mask_shift.mask_shift_get(value)
    } else {
        value
    }
}

} // verus!
