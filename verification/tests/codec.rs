//! Round-trip and rejection behaviour of the scene container codec.

use sstools::codec::parse_bzs_file;
use sstools::codec::write_bzs;
use sstools::codec::BzsEntries;
use sstools::codec::BzsError;
use sstools::codec::parse_bzs_entries;
use sstools::codec::BzsEntry;
use sstools::records::OBJ;
use sstools::records::SCEN;
use sstools::records::FILE;

fn sample_obj(id: u16) -> OBJ {
    OBJ {
        params1: 0xDEADBEEF,
        params2: 0x01020304,
        posx: 0x42C80000, // 100.0 as raw float bits
        posy: 0,
        posz: 0x3F800000, // 1.0
        anglex: 0x1234,
        angley: 0x5678,
        anglez: 0x9ABC,
        id,
        name: *b"Tubo\0\0\0\0",
    }
}

fn sample_scen() -> SCEN {
    SCEN {
        name: [0x41; 32],
        room: 1,
        layer: 2,
        entrance: 3,
        night: 0,
        byte5: 4,
        flag6: 5,
        zero: 0,
        saveprompt: 6,
    }
}

/// A whole-file round trip: encode a model, decode it, re-encode it, and the
/// two byte streams must match exactly.
#[test]
fn roundtrip_simple_model() {
    let mut model = BzsEntries::new();
    model.obj.push(sample_obj(1));
    model.obj.push(sample_obj(2));
    model.scen.push(sample_scen());
    model.file = Some(FILE { unk: -3, dummy: 7 });
    let encoded = write_bzs(&model).expect("encode");
    assert_eq!(encoded.len() % 32, 0);
    assert_eq!(&encoded[0..4], b"V001");

    let decoded = parse_bzs_file(&encoded).expect("decode");
    assert_eq!(decoded.obj.len(), 2);
    assert_eq!(decoded.obj[0], sample_obj(1));
    assert_eq!(decoded.obj[1], sample_obj(2));
    assert_eq!(decoded.scen.len(), 1);
    assert_eq!(decoded.scen[0], sample_scen());
    assert_eq!(decoded.file, Some(FILE { unk: -3, dummy: 7 }));

    let reencoded = write_bzs(&decoded).expect("re-encode");
    assert_eq!(encoded, reencoded);
}

/// A no-op edit: decoding, changing nothing and re-encoding matches the
/// plain round trip byte for byte.
#[test]
fn noop_edit_is_identity() {
    let mut model = BzsEntries::new();
    model.obj.push(sample_obj(9));
    let first = write_bzs(&model).expect("encode");
    let decoded = parse_bzs_file(&first).expect("decode");
    // perform zero mutations
    let second = write_bzs(&decoded).expect("re-encode");
    assert_eq!(first, second);
}

/// The empty model: a bare header padded to the 32-byte boundary with 0xFF.
#[test]
fn empty_model_layout() {
    let encoded = write_bzs(&BzsEntries::new()).expect("encode");
    assert_eq!(encoded.len(), 32);
    assert_eq!(&encoded[0..4], b"V001");
    assert_eq!(&encoded[4..6], &[0, 0]); // zero section headers
    assert_eq!(&encoded[6..8], &[0xFF, 0xFF]);
    assert_eq!(&encoded[8..12], &[0, 0, 0, 12]);
    assert!(encoded[12..].iter().all(|b| *b == 0xFF));
    let decoded = parse_bzs_file(&encoded).expect("decode");
    assert!(decoded.file.is_none());
    assert_eq!(decoded.obj.len(), 0);
    assert_eq!(decoded.lay.len(), 0);
}

/// A model with all 29 layers round-trips, including a populated layer.
#[test]
fn layers_roundtrip() {
    let mut model = BzsEntries::new();
    for i in 0..29 {
        let mut layer = BzsEntries::new();
        if i == 3 {
            layer.obj.push(sample_obj(40));
        }
        model.lay.push(layer);
    }
    model.obj.push(sample_obj(1));
    let encoded = write_bzs(&model).expect("encode");
    let decoded = parse_bzs_file(&encoded).expect("decode");
    assert_eq!(decoded.lay.len(), 29);
    assert_eq!(decoded.lay[3].obj.len(), 1);
    assert_eq!(decoded.lay[3].obj[0], sample_obj(40));
    assert_eq!(decoded.lay[0].obj.len(), 0);
    let reencoded = write_bzs(&decoded).expect("re-encode");
    assert_eq!(encoded, reencoded);
}

fn push_u16(v: &mut Vec<u8>, x: u16) {
    v.extend_from_slice(&x.to_be_bytes());
}

fn push_u32(v: &mut Vec<u8>, x: u32) {
    v.extend_from_slice(&x.to_be_bytes());
}

/// A hand-built blob with one section header.
fn blob_with_header(tag: &[u8; 4], count: u16) -> Vec<u8> {
    let mut b = Vec::new();
    b.extend_from_slice(b"V001");
    push_u16(&mut b, 1); // one section header
    push_u16(&mut b, 0xFFFF);
    push_u32(&mut b, 12);
    // the header entry at offset 12
    b.extend_from_slice(tag);
    push_u16(&mut b, count);
    push_u16(&mut b, 0xFFFF);
    push_u32(&mut b, 12); // data right after this header
    // generous zero payload region
    b.extend(std::iter::repeat(0u8).take(1024));
    b
}

/// A layer section must declare exactly 29 entries.
#[test]
fn layer_arity_enforced() {
    let bad = blob_with_header(b"LAY ", 28);
    match parse_bzs_file(&bad) {
        Err(BzsError::WrongEntryCount { count, .. }) => assert_eq!(count, 28),
        other => panic!("expected a wrong-entry-count error, got {other:?}"),
    }
    let also_bad = blob_with_header(b"LAY ", 30);
    assert!(matches!(
        parse_bzs_file(&also_bad),
        Err(BzsError::WrongEntryCount { .. })
    ));
}

/// The file-metadata singleton must declare exactly one element.
#[test]
fn file_arity_enforced() {
    let bad = blob_with_header(b"FILE", 2);
    assert!(matches!(
        parse_bzs_file(&bad),
        Err(BzsError::WrongEntryCount { .. })
    ));
}

/// Two file-metadata headers are rejected even when each declares one
/// element.
#[test]
fn duplicate_file_header_rejected() {
    let mut b = Vec::new();
    b.extend_from_slice(b"V001");
    push_u16(&mut b, 2);
    push_u16(&mut b, 0xFFFF);
    push_u32(&mut b, 12);
    for _ in 0..2u32 {
        b.extend_from_slice(b"FILE");
        push_u16(&mut b, 1);
        push_u16(&mut b, 0xFFFF);
        push_u32(&mut b, 24); // both point into the payload region
    }
    b.extend(std::iter::repeat(0u8).take(64));
    assert!(matches!(
        parse_bzs_file(&b),
        Err(BzsError::DuplicateTag { .. })
    ));
}

/// Any tag repeated across two headers is rejected: the model holds one
/// section per tag.
#[test]
fn duplicate_section_tag_rejected() {
    let mut b = Vec::new();
    b.extend_from_slice(b"V001");
    push_u16(&mut b, 2);
    push_u16(&mut b, 0xFFFF);
    push_u32(&mut b, 12);
    for _ in 0..2u32 {
        b.extend_from_slice(b"SCEN");
        push_u16(&mut b, 1);
        push_u16(&mut b, 0xFFFF);
        push_u32(&mut b, 24);
    }
    b.extend(std::iter::repeat(0u8).take(128));
    assert!(matches!(
        parse_bzs_file(&b),
        Err(BzsError::DuplicateTag { .. })
    ));
}

/// A tag outside the dispatch table is a fatal error, not a silent skip.
#[test]
fn unknown_tag_rejected() {
    let bad = blob_with_header(b"XXXX", 1);
    match parse_bzs_file(&bad) {
        Err(BzsError::UnknownTag { tag, .. }) => {
            assert_eq!(tag, u32::from_be_bytes(*b"XXXX"));
        }
        other => panic!("expected an unknown-tag error, got {other:?}"),
    }
}

/// Truncated input is reported as such.
#[test]
fn truncated_input_rejected() {
    assert!(matches!(
        parse_bzs_file(&[0x56, 0x30]),
        Err(BzsError::Truncated { .. })
    ));
    // a header table that runs past the end of the buffer
    let mut b = Vec::new();
    b.extend_from_slice(b"V001");
    push_u16(&mut b, 4);
    push_u16(&mut b, 0xFFFF);
    push_u32(&mut b, 12);
    assert!(matches!(
        parse_bzs_file(&b),
        Err(BzsError::Truncated { .. })
    ));
}

/// Both readers accept exactly the same tables: the list reader rejects a
/// duplicated tag just as the aggregate reader does.
#[test]
fn entry_list_rejects_duplicates() {
    let mut b = Vec::new();
    b.extend_from_slice(b"V001");
    push_u16(&mut b, 2);
    push_u16(&mut b, 0xFFFF);
    push_u32(&mut b, 12);
    for _ in 0..2u32 {
        b.extend_from_slice(b"SCEN");
        push_u16(&mut b, 1);
        push_u16(&mut b, 0xFFFF);
        push_u32(&mut b, 24);
    }
    b.extend(std::iter::repeat(0u8).take(128));
    assert!(matches!(
        parse_bzs_entries(&b, 2, 12),
        Err(BzsError::DuplicateTag { .. })
    ));
    assert!(matches!(
        parse_bzs_file(&b),
        Err(BzsError::DuplicateTag { .. })
    ));
}

#[test]
fn entry_list_preserves_order() {
    let mut model = BzsEntries::new();
    model.obj.push(sample_obj(1));
    model.scen.push(sample_scen());
    let encoded = write_bzs(&model).expect("encode");
    let count = u16::from_be_bytes([encoded[4], encoded[5]]) as u64;
    let entries = parse_bzs_entries(&encoded, count, 12).expect("list parse");
    assert_eq!(entries.len(), 2);
    // the canonical emission order puts SCEN before OBJ
    match &entries[0] {
        BzsEntry::SCEN(v) => assert_eq!(v.len(), 1),
        other => panic!("expected the scene section first, got {other:?}"),
    }
    match &entries[1] {
        BzsEntry::OBJ(v) => assert_eq!(v[0], sample_obj(1)),
        other => panic!("expected the object section second, got {other:?}"),
    }
}

/// Inserting one fixed-width record shifts every later section's data offset
/// by exactly the record's width: the header tables of the two encodings
/// differ only in those offsets.
#[test]
fn insertion_cascades_offsets() {
    let mut model = BzsEntries::new();
    model.scen.push(sample_scen());
    model.obj.push(sample_obj(1));
    model.obj.push(sample_obj(2));
    let before = write_bzs(&model).expect("encode");

    // insert one more scene header record (width 40) in front
    model.scen.insert(0, sample_scen());
    let after = write_bzs(&model).expect("encode");

    let headers = |bytes: &[u8]| -> Vec<(u32, u16, u32)> {
        let count = u16::from_be_bytes([bytes[4], bytes[5]]) as usize;
        (0..count)
            .map(|i| {
                let p = 12 + 12 * i;
                (
                    u32::from_be_bytes([bytes[p], bytes[p + 1], bytes[p + 2], bytes[p + 3]]),
                    u16::from_be_bytes([bytes[p + 4], bytes[p + 5]]),
                    u32::from_be_bytes([bytes[p + 8], bytes[p + 9], bytes[p + 10], bytes[p + 11]]),
                )
            })
            .collect()
    };
    let hb = headers(&before);
    let ha = headers(&after);
    assert_eq!(hb.len(), 2);
    assert_eq!(ha.len(), 2);
    // same tags in the same order: SCEN then OBJ
    assert_eq!(hb[0].0, u32::from_be_bytes(*b"SCEN"));
    assert_eq!(hb[1].0, u32::from_be_bytes(*b"OBJ "));
    assert_eq!(ha[0].0, hb[0].0);
    assert_eq!(ha[1].0, hb[1].0);
    // the SCEN payload comes first: its own offset is unchanged, its count grew
    assert_eq!(ha[0].2, hb[0].2);
    assert_eq!(hb[0].1 + 1, ha[0].1);
    // every later section's offset grew by exactly one SCEN width (40 bytes)
    assert_eq!(ha[1].2, hb[1].2 + 40);
}
