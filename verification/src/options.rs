//! Logic options a patch run can be configured with.

use vstd::prelude::*;

verus! {

/// How the thunderhead region opens.
#[derive(Debug, Clone, Copy, PartialEq, Eq, Structural)]
pub enum OpenThunderhead {
    Open,
    Ballad,
}

/// The sword the player starts with.
#[derive(Debug, Clone, Copy, PartialEq, Eq, Structural)]
pub enum StartingSword {
    Swordless,
    PracticeSword,
    GoddessSword,
    GoddessLongsword,
    GoddessWhiteSword,
    MasterSword,
    TrueMasterSword,
}

/// The options that shape a randomized patch.
#[derive(Debug, Clone, Copy, PartialEq, Eq)]
pub struct LogicOptions {
    pub start_tablet_count: u8,
    pub open_thunderhead: OpenThunderhead,
    pub starting_sword: StartingSword,
    pub required_dungeon_count: u8,
    pub skip_imp2: bool,
    pub empty_unrequired_dungeons: bool,
    pub triforce_required: bool,
}

/// One planned patch: what to change, where.
#[derive(Debug, Clone, PartialEq, Eq)]
pub enum PatchKind {
    TBox { stage: String, room: u8, layer: u8, tbox_id: u8 },
    Item { stage: String, room: u8, layer: u8, flag: u8 },
    Soil { stage: String, room: u8, layer: u8, flag: u8 },
    Chest { stage: String, room: u8, layer: u8, flag: u8 },
    EBc { stage: String, room: u8, layer: u8, id: u16 },
    Chandel { stage: String, room: u8, layer: u8 },
    WarpObj { stage: String, room: u8, layer: u8 },
    HeartCo { stage: String, room: u8, layer: u8 },
    SwSB { stage: String, room: u8, layer: u8, index: u8 },
    FlowById { file: String, index: u16 },
    FlowByName { file: String, name: String },
    Oarc { stage: String, layer: u8 },
    ShpSmpl { index: u8 },
}

} // verus!
