//! The relocatable-module format: header, sections and relocation runs.

use sstools::rel::kind_byte;
use sstools::rel::kind_of_byte;
use sstools::rel::try_read_data;
use sstools::rel::Rel;
use sstools::rel::RelocationKind;
use sstools::rel::Section;

fn push_u32(v: &mut Vec<u8>, x: u32) {
    v.extend_from_slice(&x.to_be_bytes());
}

/// Every relocation kind survives the byte round trip, and stray bytes are
/// refused.
#[test]
fn relocation_kind_bytes() {
    let kinds = [
        RelocationKind::R_PPC_NONE,
        RelocationKind::R_PPC_ADDR32,
        RelocationKind::R_PPC_ADDR24,
        RelocationKind::R_PPC_ADDR16,
        RelocationKind::R_PPC_ADDR16_LO,
        RelocationKind::R_PPC_ADDR16_HI,
        RelocationKind::R_PPC_ADDR16_HA,
        RelocationKind::R_PPC_ADDR14,
        RelocationKind::R_PPC_ADDR14_BRTAKEN,
        RelocationKind::R_PPC_ADDR14_BRNTAKEN,
        RelocationKind::R_PPC_REL24,
        RelocationKind::R_PPC_REL14,
        RelocationKind::R_PPC_REL14_BRTAKEN,
        RelocationKind::R_PPC_REL14_BRNTAKEN,
        RelocationKind::R_DOLPHIN_NOP,
        RelocationKind::R_DOLPHIN_SECTION,
        RelocationKind::R_DOLPHIN_END,
        RelocationKind::R_DOLPHIN_MRKREF,
    ];
    for k in kinds {
        assert_eq!(kind_of_byte(kind_byte(k)), Some(k));
    }
    assert_eq!(kind_of_byte(0x42), None);
    assert_eq!(kind_byte(RelocationKind::R_DOLPHIN_END), 0xCB);
}

/// Bounded slicing of the backing buffer.
#[test]
fn window_reads() {
    let bytes = [1u8, 2, 3, 4, 5];
    assert_eq!(try_read_data(&bytes, "w", 1, 3).unwrap(), &[2, 3, 4]);
    assert!(try_read_data(&bytes, "w", 3, 3).is_err());
}

/// A minimal module: a header, one data section, and one relocation run
/// against the base executable; it survives a write/read round trip.
#[test]
fn module_roundtrip() {
    let mut b = Vec::new();
    // header
    push_u32(&mut b, 5); // id
    push_u32(&mut b, 0); // next
    push_u32(&mut b, 0); // prev
    push_u32(&mut b, 1); // one section
    push_u32(&mut b, 0x4C); // section table right after the header
    push_u32(&mut b, 0); // name offset
    push_u32(&mut b, 0); // name size
    push_u32(&mut b, 3); // version
    push_u32(&mut b, 0); // bss size
    push_u32(&mut b, 0x60); // rel offset
    push_u32(&mut b, 0x58); // imp offset
    push_u32(&mut b, 8); // imp size: one entry
    b.extend_from_slice(&[1, 1, 1, 0]);
    push_u32(&mut b, 0); // prolog offset
    push_u32(&mut b, 0); // epilog offset
    push_u32(&mut b, 0); // unresolved offset
    push_u32(&mut b, 8); // align
    push_u32(&mut b, 8); // bss align
    push_u32(&mut b, 0); // fix size
    assert_eq!(b.len(), 0x4C);
    // section table: one executable section at 0x78, 4 bytes
    push_u32(&mut b, 0x78 | 1);
    push_u32(&mut b, 4);
    b.extend_from_slice(&[0; 4]); // padding up to the imp table at 0x58
    // imp table: module 0, relocations at 0x60
    push_u32(&mut b, 0);
    push_u32(&mut b, 0x60);
    // relocation run at 0x60: section switch, one ADDR32, end
    b.extend_from_slice(&[0, 0, 0xCA, 1, 0, 0, 0, 0]);
    b.extend_from_slice(&[0, 4, 0x01, 1, 0, 0, 0, 0x10]);
    b.extend_from_slice(&[0, 0, 0xCB, 0, 0, 0, 0, 0]);
    // section data at 0x78
    b.extend_from_slice(&[0xAA, 0xBB, 0xCC, 0xDD]);

    let rel = Rel::from_bytes(&b).expect("parse");
    assert_eq!(rel.get_header().id, 5);
    assert_eq!(rel.get_sections().len(), 1);
    match &rel.get_sections()[0] {
        Section::Data {
            data,
            offset,
            is_executable,
        } => {
            assert_eq!(data, &vec![0xAA, 0xBB, 0xCC, 0xDD]);
            assert_eq!(*offset, 0x78);
            assert!(*is_executable);
        }
        other => panic!("expected a data section, got {other:?}"),
    }
    let relocs = rel.get_relocations();
    assert_eq!(relocs.len(), 1);
    assert_eq!(relocs[0].0, 0);
    assert_eq!(relocs[0].1.len(), 1);
    assert_eq!(relocs[0].1[0].0, 1); // the switched-to section
    let r = &relocs[0].1[0].1[0];
    assert_eq!(r.offset, 4);
    assert_eq!(r.typ, RelocationKind::R_PPC_ADDR32);
    assert_eq!(r.symbol_section, 1);
    assert_eq!(r.symbol_offset, 0x10);

    assert_eq!(rel.get_section_data(1), None);
    assert_eq!(rel.get_section_data(0).unwrap(), &[0xAA, 0xBB, 0xCC, 0xDD]);
    assert_eq!(rel.offset_in_rel_to_section_offset(0x79), Some((0, 1)));
    // an offset past every section maps to nothing
    assert_eq!(rel.offset_in_rel_to_section_offset(0x7C), None);
    assert_eq!(rel.get_section_data_for_rel_offset(0x7C), None);
    assert_eq!(rel.get_section_data_for_rel_offset(0x7A).unwrap(), &[0xCC, 0xDD]);

    // write it out and read it back: the structure survives
    let rewritten = rel.write().expect("write");
    let reread = Rel::from_bytes(&rewritten).expect("reparse");
    assert_eq!(reread.get_header().id, 5);
    assert_eq!(reread.get_sections(), rel.get_sections());
    assert_eq!(reread.get_relocations(), rel.get_relocations());
}

/// Replacing a data section's bytes keeps its offset and flag, and refuses
/// non-data sections.
#[test]
fn replace_section_data() {
    let mut b = Vec::new();
    push_u32(&mut b, 5);
    push_u32(&mut b, 0);
    push_u32(&mut b, 0);
    push_u32(&mut b, 1);
    push_u32(&mut b, 0x4C);
    for _ in 0..7 {
        push_u32(&mut b, 0);
    }
    b.extend_from_slice(&[1, 1, 1, 0]);
    for _ in 0..6 {
        push_u32(&mut b, 0);
    }
    // one plain data section at 0x54, 2 bytes
    push_u32(&mut b, 0x54);
    push_u32(&mut b, 2);
    b.extend_from_slice(&[0xAA, 0xBB]);
    let mut rel = Rel::from_bytes(&b).expect("parse");
    assert!(rel.set_section_data(0, vec![1, 2, 3]));
    match &rel.get_sections()[0] {
        Section::Data {
            data,
            offset,
            is_executable,
        } => {
            assert_eq!(data, &vec![1, 2, 3]);
            assert_eq!(*offset, 0x54);
            assert!(!*is_executable);
        }
        other => panic!("expected a data section, got {other:?}"),
    }
    assert!(!rel.set_section_data(1, vec![9])); // out of range
}

/// Section decoding distinguishes empty, uninitialized and data sections.
#[test]
fn section_kinds() {
    let data = [9u8; 16];
    let empty = Section::read(&[0, 0, 0, 0, 0, 0, 0, 0], &data).unwrap();
    assert_eq!(empty, Section::Empty);
    let bss = Section::read(&[0, 0, 0, 0, 0, 0, 0, 7], &data).unwrap();
    assert_eq!(bss, Section::Bss { size: 7 });
    let d = Section::read(&[0, 0, 0, 4, 0, 0, 0, 2], &data).unwrap();
    assert_eq!(
        d,
        Section::Data {
            data: vec![9, 9],
            offset: 4,
            is_executable: false
        }
    );
    assert_eq!(d.clone().into_owned(), d);
    // an out-of-bounds window is refused
    assert!(Section::read(&[0, 0, 0, 14, 0, 0, 0, 4], &data).is_err());
}
