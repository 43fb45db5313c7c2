//! Model patching: id scans, id-keyed access, and bit-field updates.

use sstools::codec::BzsEntries;
use sstools::edit::create_obj;
use sstools::edit::create_sobj;
use sstools::edit::find_highest_used_id;
use sstools::edit::mask_shift_set;
use sstools::edit::zero_pad;
use sstools::edit::ByIdExt;
use sstools::edit::InvalidPatchError;
use sstools::patches::do_custom_obj_patch;
use sstools::patches::do_custom_sobj_patch;
use sstools::patches::MaskValue;
use sstools::patches::SOBJParamPatch;
use sstools::records::OBJ;
use sstools::records::SOBJ;

fn obj_with_id(id: u16) -> OBJ {
    OBJ {
        params1: 0,
        params2: 0,
        posx: 0,
        posy: 0,
        posz: 0,
        anglex: 0,
        angley: 0,
        anglez: 0,
        id,
        name: [0; 8],
    }
}

fn sobj_with_id(id: u16) -> SOBJ {
    SOBJ {
        params1: 0,
        params2: 0,
        posx: 0,
        posy: 0,
        posz: 0,
        sizex: 0,
        sizey: 0,
        sizez: 0,
        anglex: 0,
        angley: 0,
        anglez: 0,
        id,
        name: [0; 8],
    }
}

/// Ids 3, 7, 0x3FF and 5 spread over the root and one layer: the scan finds
/// 7, ignoring the reserved sentinel.
#[test]
fn highest_used_id_scan() {
    let mut model = BzsEntries::new();
    model.obj.push(obj_with_id(3));
    model.objs.push(obj_with_id(0x3FF)); // the reserved sentinel never counts
    let mut layer = BzsEntries::new();
    layer.sobj.push(sobj_with_id(7));
    layer.door.push(obj_with_id(5));
    model.lay.push(layer);
    assert_eq!(find_highest_used_id(&model), 7);
}

/// High type bits above the low-10-bit id are masked off before comparing.
#[test]
fn highest_used_id_masks_type_bits() {
    let mut model = BzsEntries::new();
    model.obj.push(obj_with_id(0xFC00 | 0x005)); // type bits plus id 5
    assert_eq!(find_highest_used_id(&model), 5);
}

/// A model whose every id is the sentinel scans to zero.
#[test]
fn highest_used_id_all_sentinel() {
    let mut model = BzsEntries::new();
    model.obj.push(obj_with_id(0x3FF));
    model.sobj.push(sobj_with_id(0x3FF));
    assert_eq!(find_highest_used_id(&model), 0);
}

/// By-id lookup, replacement and removal find the first match and report a
/// missing id.
#[test]
fn by_id_operations() {
    let mut v: Vec<OBJ> = vec![obj_with_id(1), obj_with_id(2), obj_with_id(2)];
    assert_eq!(v.get_by_id(2).unwrap(), obj_with_id(2));
    assert_eq!(v.get_by_id(9), Err(InvalidPatchError::IdNotFound(9)));

    let mut replacement = obj_with_id(2);
    replacement.params1 = 0x55;
    v.set_by_id(2, replacement).unwrap();
    assert_eq!(v[1].params1, 0x55);
    assert_eq!(v[2].params1, 0); // only the first match changes

    let removed = v.remove_by_id(1).unwrap();
    assert_eq!(removed.id, 1);
    assert_eq!(v.len(), 2);
    assert_eq!(v.remove_by_id(9), Err(InvalidPatchError::IdNotFound(9)));
}

/// Creating a new object advances the id counter and stamps the defaults.
#[test]
fn create_stamps_defaults() {
    let mut v: Vec<OBJ> = Vec::new();
    let mut next_id = 7;
    let o = create_obj(&mut v, &mut next_id);
    assert_eq!(next_id, 8);
    assert_eq!(o.id, 8);
    assert_eq!(o.params1, 0xFFFFFFFF);
    assert_eq!(v.len(), 1);

    let mut s: Vec<SOBJ> = Vec::new();
    let so = create_sobj(&mut s, &mut next_id);
    assert_eq!(next_id, 9);
    assert_eq!(so.sizex, 0x3F800000); // unit scale as raw float bits
    assert_eq!(so.sizey, 0x3F800000);
    assert_eq!(so.sizez, 0x3F800000);
}

/// The masked-set helper writes only through the window.
#[test]
fn mask_shift_set_values() {
    assert_eq!(mask_shift_set(0x0000_0000, 0xFF, 8, 0xAB), 0x0000_AB00);
    assert_eq!(mask_shift_set(0xFFFF_FFFF, 0xFF, 8, 0x00), 0xFFFF_00FF);
    // the new value is masked before shifting
    assert_eq!(mask_shift_set(0, 0xF, 0, 0x12), 0x2);
}

/// Zero padding copies and fills.
#[test]
fn zero_pad_behaviour() {
    let padded: [u8; 8] = zero_pad(b"saveObj");
    assert_eq!(&padded, b"saveObj\0");
    let truncated: [u8; 4] = zero_pad(b"saveObj");
    assert_eq!(&truncated, b"save");
}

/// The keyed object patches write the documented windows per object class.
#[test]
fn custom_obj_patch_classes() {
    let mut npc = obj_with_id(1);
    npc.name = *b"Npc\0\0\0\0\0";
    do_custom_obj_patch(&mut npc, "trigstoryfid", 0x7FF);
    assert_eq!(npc.params1, 0x7FF << 10);
    do_custom_obj_patch(&mut npc, "talk_behaviour", 0x1234);
    assert_eq!(npc.anglez, 0x1234);

    let mut tbox = obj_with_id(2);
    tbox.name = *b"TBox\0\0\0\0";
    do_custom_obj_patch(&mut tbox, "itemid", 0x1FF);
    assert_eq!(tbox.anglez, 0x1FF);
    do_custom_obj_patch(&mut tbox, "spawnscenefid", 0xAB);
    assert_eq!(tbox.params1, 0xAB << 20);

    let mut tke = obj_with_id(3);
    tke.name = *b"NpcTke\0\0";
    do_custom_obj_patch(&mut tke, "subtype", 0x5);
    assert_eq!(tke.params1, 0x5);
    // the shared Npc keys still win over the NpcTke-specific ones
    do_custom_obj_patch(&mut tke, "untrigstoryfid", 1);
    assert_eq!(tke.params1, (1 << 21) | 0x5);

    let mut sw = obj_with_id(4);
    sw.name = *b"SwAreaT\0";
    do_custom_obj_patch(&mut sw, "setstoryfid", 0x7FF);
    assert_eq!(sw.anglex, 0x7FF);
}

/// The scalable-object patch mirrors the plain-object one.
#[test]
fn custom_sobj_patch_classes() {
    let mut sc = sobj_with_id(1);
    sc.name = *b"ScChang\0";
    do_custom_sobj_patch(&mut sc, "scen_link", 0x42);
    assert_eq!(sc.params1, 0x42);
    do_custom_sobj_patch(&mut sc, "trigscenefid", 0x42);
    assert_eq!(sc.params1, (0x42 << 24) | 0x42);
    do_custom_sobj_patch(&mut sc, "untrigstoryfid", 0x123);
    assert_eq!(sc.anglez, 0x123);
}

/// Masked partial field updates and the whole-record patch.
#[test]
fn sobj_param_patch() {
    let m = MaskValue::<u32> { mask: 0xFF00, value: 0x4200 };
    let mut v: u32 = 0x1234_5678;
    m.apply(&mut v);
    assert_eq!(v, 0x1234_4278);
    assert!(m.check(v));
    assert!(!m.check(0));

    let mut patch = SOBJParamPatch::none();
    patch.posx = Some(0x40000000);
    patch.id = MaskValue::<u16> { mask: 0x3FF, value: 0x123 };
    patch.name = Some(*b"Tubo\0\0\0\0");
    let mut sobj = sobj_with_id(0xFC00);
    patch.apply(&mut sobj);
    assert_eq!(sobj.posx, 0x40000000);
    assert_eq!(sobj.id, 0xFC00 | 0x123);
    assert_eq!(&sobj.name, b"Tubo\0\0\0\0");
    assert_eq!(sobj.posy, 0); // untouched fields stay
}

/// The well-known object classes can be stamped and configured in place.
#[test]
fn actor_class_builders() {
    let mut pot = obj_with_id(5);
    pot.as_tubo();
    assert_eq!(&pot.name, b"Tubo\0\0\0\0");
    assert_eq!(pot.id, 0x0400 | 5);
    pot.set_tubo_subtype(0x3);
    assert_eq!(pot.params1, 0x3);
    pot.set_tubo_drop(0x26);
    assert_eq!(pot.params2, 0x26 << 24);

    let mut save = obj_with_id(9);
    save.as_save_obj();
    assert_eq!(&save.name, b"saveObj\0");
    assert_eq!(save.id, 0xFC00 | 9);
    save.set_save_obj_subtype(1);
    assert_eq!(save.params1, 1 << 8);
    save.set_save_obj_exit(2);
    assert_eq!(save.params1, (1 << 8) | (2 << 16));
}

/// Builder-style setters on the records.
#[test]
fn record_setters() {
    let mut o = obj_with_id(0x0155);
    o.set_pos(1, 2, 3);
    o.set_angle(4, 5, 6);
    o.set_params1(7);
    o.set_params2(8);
    o.set_name(*b"saveObj\0");
    o.set_id(0xFC00);
    assert_eq!((o.posx, o.posy, o.posz), (1, 2, 3));
    assert_eq!((o.anglex, o.angley, o.anglez), (4, 5, 6));
    assert_eq!((o.params1, o.params2), (7, 8));
    assert_eq!(&o.name, b"saveObj\0");
    // only the high type bits change; the local id stays
    assert_eq!(o.id, 0xFC00 | 0x0155);

    let mut s = sobj_with_id(0);
    s.set_size(9, 10, 11);
    assert_eq!((s.sizex, s.sizey, s.sizez), (9, 10, 11));
}
