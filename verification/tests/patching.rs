//! Whole-stage patching: the stage and room scene blobs inside a stage
//! archive are decoded, patched and written back.

use sstools::codec::parse_bzs_file;
use sstools::codec::write_bzs;
use sstools::codec::BzsEntries;
use sstools::edit::InvalidPatchError;
use sstools::eventpatches::do_eventpatches;
use sstools::eventpatches::FlowpatchManager;
use sstools::inode::construct_inode_map;
use sstools::inode::InodeEntry;
use sstools::inode::InodeSupplier;
use sstools::msb::Msbf;
use sstools::msb::Msbt;
use sstools::options::OpenThunderhead;
use sstools::options::LogicOptions;
use sstools::options::StartingSword;
use sstools::records::OBJ;
use sstools::stage_patch::handle_single_stage;
use sstools::stage_patch::PatcherFunctions;
use sstools::u8file::U8File;
use sstools::u8file::MAGIC_HEADER;

fn push_u24(v: &mut Vec<u8>, x: u32) {
    v.extend_from_slice(&x.to_be_bytes()[1..4]);
}

fn push_u32(v: &mut Vec<u8>, x: u32) {
    v.extend_from_slice(&x.to_be_bytes());
}

struct Node {
    name: &'static str,
    // directories give the index one past their last descendant
    dir_next: Option<u32>,
    data: Vec<u8>,
}

/// Builds archive bytes from a flattened depth-first node list.
fn build_archive(nodes: &[Node]) -> Vec<u8> {
    let mut strings = vec![0u8];
    let mut str_offsets = Vec::new();
    for n in nodes {
        str_offsets.push(strings.len() as u32);
        strings.extend_from_slice(n.name.as_bytes());
        strings.push(0);
    }
    let first_node_offset = 0x20u32;
    let node_bytes = (nodes.len() as u32 + 1) * 12;
    let mut data_offset = first_node_offset + node_bytes + strings.len() as u32;
    data_offset = (data_offset + 31) & !31;

    let mut b = Vec::new();
    push_u32(&mut b, MAGIC_HEADER);
    push_u32(&mut b, first_node_offset);
    push_u32(&mut b, node_bytes + strings.len() as u32);
    push_u32(&mut b, data_offset);
    b.extend_from_slice(&[0; 16]);
    // the root node spans everything
    b.push(1);
    push_u24(&mut b, 0);
    push_u32(&mut b, 0);
    push_u32(&mut b, nodes.len() as u32 + 1);
    let mut running = data_offset;
    let mut data_region = Vec::new();
    for (i, n) in nodes.iter().enumerate() {
        match n.dir_next {
            Some(next) => {
                b.push(1);
                push_u24(&mut b, str_offsets[i]);
                push_u32(&mut b, 0);
                push_u32(&mut b, next);
            }
            None => {
                b.push(0);
                push_u24(&mut b, str_offsets[i]);
                push_u32(&mut b, running);
                push_u32(&mut b, n.data.len() as u32);
                data_region.extend_from_slice(&n.data);
                running += n.data.len() as u32;
                let pad = (32 - (running % 32)) % 32;
                data_region.extend(std::iter::repeat(0u8).take(pad as usize));
                running += pad;
            }
        }
    }
    b.extend_from_slice(&strings);
    while (b.len() as u32) < data_offset {
        b.push(0);
    }
    b.extend_from_slice(&data_region);
    b
}

fn sample_stage_archive() -> Vec<u8> {
    let empty_bzs = write_bzs(&BzsEntries::new()).expect("encode");
    let room_arc = build_archive(&[
        Node {
            name: "dat",
            dir_next: Some(3),
            data: Vec::new(),
        },
        Node {
            name: "room.bzs",
            dir_next: None,
            data: empty_bzs.clone(),
        },
    ]);
    build_archive(&[
        Node {
            name: "dat",
            dir_next: Some(3),
            data: Vec::new(),
        },
        Node {
            name: "stage.bzs",
            dir_next: None,
            data: empty_bzs,
        },
        Node {
            name: "rarc",
            dir_next: Some(5),
            data: Vec::new(),
        },
        Node {
            name: "F000_r00.arc",
            dir_next: None,
            data: room_arc,
        },
    ])
}

struct AddRoomObject;

impl PatcherFunctions for AddRoomObject {
    fn stagepatch(
        &self,
        stage: &str,
        room: Option<u8>,
        bzs: &mut BzsEntries,
        oarc_add: &mut Vec<(u8, String)>,
        _oarc_delete: &mut Vec<(u8, String)>,
    ) -> Result<bool, InvalidPatchError> {
        assert_eq!(stage, "F000");
        match room {
            Some(0) => {
                bzs.obj.push(OBJ {
                    params1: 0xFFFFFFFF,
                    params2: 0xFFFFFFFF,
                    posx: 0,
                    posy: 0,
                    posz: 0,
                    anglex: 0,
                    angley: 0,
                    anglez: 0,
                    id: 1,
                    name: *b"Tubo\0\0\0\0",
                });
                oarc_add.push((0, "Tubo".to_string()));
                Ok(true)
            }
            _ => Ok(false),
        }
    }
}

/// A room patch is applied inside the nested room archive and the stage
/// archive is rebuilt.
#[test]
fn stage_patch_applies_to_room() {
    let archive = sample_stage_archive();
    // sanity: the synthetic archive parses and has the expected layout
    let probe = U8File::from_vec(archive.clone()).expect("parse");
    assert!(probe.get_entry_data("dat/stage.bzs").is_some());
    assert!(probe.get_entry_data("rarc/F000_r00.arc").is_some());

    let mut adds = Vec::new();
    let mut dels = Vec::new();
    let out = handle_single_stage(archive, "F000", &AddRoomObject, &mut adds, &mut dels)
        .expect("patch")
        .expect("modified");
    assert_eq!(adds, vec![(0u8, "Tubo".to_string())]);

    let rebuilt = U8File::from_vec(out).expect("reparse");
    let room_bytes = rebuilt
        .get_entry_data("rarc/F000_r00.arc")
        .expect("room entry")
        .to_vec();
    let room_arc = U8File::from_vec(room_bytes).expect("room arc");
    let room_bzs = parse_bzs_file(room_arc.get_entry_data("dat/room.bzs").expect("room bzs"))
        .expect("room scene");
    assert_eq!(room_bzs.obj.len(), 1);
    assert_eq!(&room_bzs.obj[0].name, b"Tubo\0\0\0\0");
}

/// A patch run that changes nothing reports the archive as unmodified.
#[test]
fn stage_patch_noop() {
    struct Never;
    impl PatcherFunctions for Never {
        fn stagepatch(
            &self,
            _stage: &str,
            _room: Option<u8>,
            _bzs: &mut BzsEntries,
            _oarc_add: &mut Vec<(u8, String)>,
            _oarc_delete: &mut Vec<(u8, String)>,
        ) -> Result<bool, InvalidPatchError> {
            Ok(false)
        }
    }
    let mut adds = Vec::new();
    let mut dels = Vec::new();
    let out = handle_single_stage(sample_stage_archive(), "F000", &Never, &mut adds, &mut dels)
        .expect("patch");
    assert!(out.is_none());
}

/// Inode numbering walks the tree depth-first, one number per node.
#[test]
fn inode_numbering() {
    let file = U8File::from_vec(sample_stage_archive()).expect("parse");
    let mut supplier = InodeSupplier::new();
    let mut map: Vec<(u64, InodeEntry)> = Vec::new();
    let root = construct_inode_map(".", file.get_root_entry(), &mut supplier, &mut map);
    assert_eq!(root, 1);
    // the root, two directories and two files
    assert_eq!(map.len(), 5);
    let names: Vec<&str> = map.iter().map(|(_, e)| e.get_name().as_str()).collect();
    assert!(names.contains(&"stage.bzs"));
    assert!(names.contains(&"F000_r00.arc"));
    assert!(names.contains(&"."));
}

/// The scripted event patches and their manager run without touching
/// unrelated files.
#[test]
fn event_patch_dispatch() {
    let mut msbf = Msbf {
        flows: Vec::new(),
        entrypoints: Vec::new(),
    };
    let mut msbt = Msbt {
        lbl: Vec::new(),
        text: Vec::new(),
    };
    do_eventpatches("114-Friend", &mut msbf, &mut msbt);
    do_eventpatches("some-other-file", &mut msbf, &mut msbt);
    let mut mgr = FlowpatchManager::new();
    let e = mgr.get_flow(3);
    assert_eq!(e.index, 3);
    assert_eq!(mgr.planned, 0);
}

/// The option types carry their configuration.
#[test]
fn logic_options_hold_values() {
    let opts = LogicOptions {
        start_tablet_count: 1,
        open_thunderhead: OpenThunderhead::Ballad,
        starting_sword: StartingSword::GoddessSword,
        required_dungeon_count: 2,
        skip_imp2: true,
        empty_unrequired_dungeons: false,
        triforce_required: true,
    };
    assert_eq!(opts.start_tablet_count, 1);
    assert_eq!(opts.open_thunderhead, OpenThunderhead::Ballad);
    assert_ne!(opts.starting_sword, StartingSword::Swordless);
}
