//! Toolkit for a console game's on-disc scene data: a byte-exact codec for the
//! tag-addressed scene container, the hierarchical archive format that stores
//! it, the dialogue flow format, and the relocatable-module format, together
//! with helpers for patching the decoded models.

use vstd::prelude::*;

pub mod bytes;
pub mod codec;
pub mod edit;
pub mod encoding;
pub mod eventpatches;
pub mod inode;
mod mask;
pub mod msb;
pub mod msb_edit;
pub mod options;
pub mod patches;
pub mod records;
pub mod rel;
pub mod stage_patch;
pub mod u8file;

pub use mask::MaskSet;
pub use mask::MaskSetable;
pub use mask::MaskShift;
pub use mask::mask_shift_get;
pub use mask::mask_shift_set;

verus! {

} // verus!
