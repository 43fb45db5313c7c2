//! Patching a whole stage archive: the stage-level scene blob and every
//! room's blob are decoded, handed to the caller's patch logic, and written
//! back byte-exactly.

use vstd::prelude::*;
use vstd::string::StringExecFns;

use crate::codec::BzsEntries;
use crate::codec::BzsError;
use crate::edit::InvalidPatchError;
use crate::u8file::Entry;
use crate::u8file::U8File;
use crate::u8file::U8ParseError;

verus! {

/// Failures while patching a stage archive.
#[derive(Debug, Clone, Copy, PartialEq, Eq)]
pub enum StagePatchError {
    Archive(U8ParseError),
    Scene(BzsError),
    Patch(InvalidPatchError),
    MissingEntry,
    BadRoomName,
}

impl StagePatchError {
    /// A short human-readable description of the failure.
    pub fn message(&self) -> (r: &'static str)
    {
        match self {
            StagePatchError::Archive(_) => "archive could not be read",
            StagePatchError::Scene(_) => "scene data could not be read or written",
            StagePatchError::Patch(_) => "a patch operation failed",
            StagePatchError::MissingEntry => "expected archive entry is missing",
            StagePatchError::BadRoomName => "room archive name is malformed",
        }
    }
}

/// The callback a patch run implements: it is called once for the stage
/// scene (no room) and once per room scene, may mutate the model, and says
/// whether it changed anything. The oarc lists collect per-layer archive
/// additions and removals requested along the way.
pub trait PatcherFunctions {
    fn stagepatch(
        &self,
        stage: &str,
        room: Option<u8>,
        bzs: &mut BzsEntries,
        oarc_add: &mut Vec<(u8, String)>,
        oarc_delete: &mut Vec<(u8, String)>,
    ) -> (r: Result<bool, InvalidPatchError>);
}

/// Decodes the two decimal digits of a room archive name (`..._rNN.arc`).
fn parse_room_number(name: &[u8], prefix_len: usize) -> (r: Option<u8>)
{
    // name looks like "<stage>_rNN.arc": two digits after the prefix
    if name.len() < 4 {
        return None;
    }
    if prefix_len > name.len() - 4 || name.len() - 4 - prefix_len < 3 {
        return None;
    }
    let d1 = name[prefix_len + 2];
    if name.len() - 4 - (prefix_len + 2) == 1 {
        if d1 < 0x30 || d1 > 0x39 {
            return None;
        }
        return Some(d1 - 0x30);
    }
    if name.len() - 4 - (prefix_len + 2) != 2 {
        return None;
    }
    let d2 = name[prefix_len + 3];
    if d1 < 0x30 || d1 > 0x39 || d2 < 0x30 || d2 > 0x39 {
        return None;
    }
    Some((d1 - 0x30) * 10 + (d2 - 0x30))
}

/// Patches one stage archive: the stage blob and every room blob are
/// decoded, patched and re-encoded; returns the rebuilt archive bytes when
/// anything was modified, and nothing otherwise.
pub fn handle_single_stage<F: PatcherFunctions>(
    decompressed_l0: Vec<u8>,
    name_str: &str,
    f: &F,
    oarc_add: &mut Vec<(u8, String)>,
    oarc_delete: &mut Vec<(u8, String)>,
) -> (r: Result<Option<Vec<u8>>, StagePatchError>)
    ensures
        r matches Ok(Some(v)) ==> v@.len() >= 0x20 && v@[0] == 0x55u8 && v@[1] == 0xAAu8 && v@[2]
            == 0x38u8 && v@[3] == 0x2Du8,
{
    let mut arc = match U8File::from_vec(decompressed_l0) {
        Ok(a) => a,
        Err(e) => {
            return Err(StagePatchError::Archive(e));
        },
    };
    let mut is_modified = false;

    // the stage-scoped scene blob first
    let bzs_data: Vec<u8> = {
        let d = match arc.get_entry_data("dat/stage.bzs") {
            Some(d) => d,
            None => {
                return Err(StagePatchError::MissingEntry);
            },
        };
        let mut copied: Vec<u8> = Vec::new();
        let mut i: usize = 0;
        while i < d.len()
            decreases d@.len() - i,
        {
            copied.push(d[i]);
            i = i + 1;
        }
        copied
    };
    let mut bzs = match crate::codec::parse_bzs_file(bzs_data.as_slice()) {
        Ok(b) => b,
        Err(e) => {
            return Err(StagePatchError::Scene(e));
        },
    };
    match f.stagepatch(name_str, None, &mut bzs, oarc_add, oarc_delete) {
        Ok(changed) => {
            if changed {
                is_modified = true;
            }
        },
        Err(e) => {
            return Err(StagePatchError::Patch(e));
        },
    }
    let rebuilt = match crate::codec::write_bzs(&bzs) {
        Ok(v) => v,
        Err(e) => {
            return Err(StagePatchError::Scene(e));
        },
    };
    let _ = arc.set_entry_data("dat/stage.bzs", rebuilt);

    // rooms live under the "rarc" directory, one archive each
    let mut room_names: Vec<String> = Vec::new();
    {
        let rarc = match arc.get_entry("rarc") {
            Some(e) => e,
            None => {
                return Err(StagePatchError::MissingEntry);
            },
        };
        match rarc {
            Entry::DirEntry { files, .. } => {
                let mut i: usize = 0;
                while i < files.len()
                    decreases files@.len() - i,
                {
                    room_names.push(files[i].get_name().clone());
                    i = i + 1;
                }
            },
            Entry::FileEntry { .. } => {
                return Err(StagePatchError::MissingEntry);
            },
        }
    }
    let mut ri: usize = 0;
    while ri < room_names.len()
        decreases room_names@.len() - ri,
    {
        let rname = &room_names[ri];
        let room_no = match parse_room_number(rname.as_str().as_bytes(), name_str.as_bytes().len())
        {
            Some(n) => n,
            None => {
                return Err(StagePatchError::BadRoomName);
            },
        };
        let mut room_path = String::from_str("rarc/");
        room_path.append(rname.as_str());
        let room_arc_data: Vec<u8> = {
            let d = match arc.get_entry_data(room_path.as_str()) {
                Some(d) => d,
                None => {
                    return Err(StagePatchError::MissingEntry);
                },
            };
            let mut copied: Vec<u8> = Vec::new();
            let mut i: usize = 0;
            while i < d.len()
                decreases d@.len() - i,
            {
                copied.push(d[i]);
                i = i + 1;
            }
            copied
        };
        let mut room_arc = match U8File::from_vec(room_arc_data) {
            Ok(a) => a,
            Err(e) => {
                return Err(StagePatchError::Archive(e));
            },
        };
        let room_bzs_data: Vec<u8> = {
            let d = match room_arc.get_entry_data("dat/room.bzs") {
                Some(d) => d,
                None => {
                    return Err(StagePatchError::MissingEntry);
                },
            };
            let mut copied: Vec<u8> = Vec::new();
            let mut i: usize = 0;
            while i < d.len()
                decreases d@.len() - i,
            {
                copied.push(d[i]);
                i = i + 1;
            }
            copied
        };
        let mut room_bzs = match crate::codec::parse_bzs_file(room_bzs_data.as_slice()) {
            Ok(b) => b,
            Err(e) => {
                return Err(StagePatchError::Scene(e));
            },
        };
        match f.stagepatch(name_str, Some(room_no), &mut room_bzs, oarc_add, oarc_delete) {
            Ok(changed) => {
                if changed {
                    is_modified = true;
                }
            },
            Err(e) => {
                return Err(StagePatchError::Patch(e));
            },
        }
        let room_rebuilt = match crate::codec::write_bzs(&room_bzs) {
            Ok(v) => v,
            Err(e) => {
                return Err(StagePatchError::Scene(e));
            },
        };
        let _ = room_arc.set_entry_data("dat/room.bzs", room_rebuilt);
        let room_arc_bytes = room_arc.write();
        let _ = arc.set_entry_data(room_path.as_str(), room_arc_bytes);
        ri = ri + 1;
    }

    if is_modified {
        Ok(Some(arc.write()))
    } else {
        Ok(None)
    }
}

} // verus!
