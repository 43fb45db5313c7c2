//! The text-flow formats and the flow patcher.

use sstools::msb::entrypoint_hash;
use sstools::msb::parse_msbf;
use sstools::msb::parse_msbt;
use sstools::msb::FlowEntry;
use sstools::msb::Msbf;
use sstools::msb::MsbError;
use sstools::msb::RawFlw3;
use sstools::msb_edit::flow;
use sstools::msb_edit::EventPatcher;
use sstools::msb_edit::Flowref;
use sstools::msb_edit::RefFlowEntry;
use sstools::msb_edit::RefFlowEntryNonDiverging;

fn push_u16(v: &mut Vec<u8>, x: u16) {
    v.extend_from_slice(&x.to_be_bytes());
}

fn push_u32(v: &mut Vec<u8>, x: u32) {
    v.extend_from_slice(&x.to_be_bytes());
}

/// The raw flow node encodes to 16 bytes with two zero padding bytes.
#[test]
fn raw_flow_node_layout() {
    let raw = RawFlw3 {
        typ: 3,
        sub_type: 0xFF,
        param1: 0x1122,
        param2: 0x3344,
        next: -1,
        param3: 10,
        param4: 0,
        param5: 0,
    };
    let mut out = Vec::new();
    raw.encode_into(&mut out);
    assert_eq!(
        out,
        vec![3, 0xFF, 0, 0, 0x11, 0x22, 0x33, 0x44, 0xFF, 0xFF, 0, 10, 0, 0, 0, 0]
    );
    let back = RawFlw3::decode(&out, 0);
    assert_eq!(back, raw);
}

/// A handcrafted flow file with one start node parses into one entry.
#[test]
fn parse_flow_file() {
    let mut b = Vec::new();
    b.extend_from_slice(b"MsgFlwBn\xFE\xFF\0\0\0\x03\0\x02");
    b.extend_from_slice(&[0; 16]);
    // FLW3 segment: 16-byte segment header, then counts and one node
    b.extend_from_slice(b"FLW3");
    push_u32(&mut b, 16 + 16); // counts block plus one node
    b.extend_from_slice(&[0; 8]);
    push_u16(&mut b, 1); // one flow
    push_u16(&mut b, 0); // no branches
    b.extend_from_slice(&[0; 12]);
    let raw = RawFlw3 {
        typ: 4,
        sub_type: 0xFF,
        param1: 0,
        param2: 0,
        next: 2,
        param3: 0,
        param4: 0,
        param5: 0,
    };
    raw.encode_into(&mut b);
    let parsed = parse_msbf(&b).expect("parse");
    assert_eq!(parsed.flows, vec![FlowEntry::Start { next: 2 }]);
    assert!(parsed.entrypoints.is_empty());
}

/// An unknown segment id is a fatal error.
#[test]
fn unknown_segment_rejected() {
    let mut b = Vec::new();
    b.extend_from_slice(b"MsgFlwBn\xFE\xFF\0\0\0\x03\0\x02");
    b.extend_from_slice(&[0; 16]);
    b.extend_from_slice(b"ZZZZ");
    push_u32(&mut b, 0);
    b.extend_from_slice(&[0; 8]);
    assert!(matches!(
        parse_msbf(&b),
        Err(MsbError::UnknownSegment { .. })
    ));
    assert!(matches!(parse_msbt(&b), Err(MsbError::UnknownSegment { .. })));
}

/// Writing a flow file and parsing it back preserves the flow graph.
#[test]
fn flow_file_roundtrip() {
    let msbf = Msbf {
        flows: vec![
            FlowEntry::Start { next: 1 },
            FlowEntry::Flow {
                subtype: 0,
                param1: 0,
                param2: 899,
                next: 2,
                param3: 0,
            },
            FlowEntry::Switch {
                subtype: 6,
                param1: 0,
                param2: 0,
                param3: 0,
                branches: vec![0, -1],
            },
            FlowEntry::Text {
                file: 0,
                line: 3,
                next: -1,
            },
        ],
        entrypoints: vec![("117_99".to_string(), 0)],
    };
    let bytes = msbf.write_msbf();
    assert_eq!(&bytes[0..8], b"MsgFlwBn");
    let parsed = parse_msbf(&bytes).expect("parse");
    assert_eq!(parsed.flows, msbf.flows);
    assert_eq!(parsed.entrypoints, msbf.entrypoints);
}

/// The bucket hash matches the documented rolling formula.
#[test]
fn entrypoint_hash_formula() {
    let mut expected: u32 = 0;
    for b in b"117_99" {
        expected = expected.wrapping_mul(0x492).wrapping_add(*b as u32);
    }
    assert_eq!(entrypoint_hash(b"117_99", 19), (expected as usize) % 19);
    assert_eq!(entrypoint_hash(b"", 19), 0);
}

/// The patcher lifts flows to references, resolves labels, and grows the
/// graph.
#[test]
fn event_patcher_operations() {
    let msbf = Msbf {
        flows: vec![FlowEntry::Start { next: -1 }],
        entrypoints: Vec::new(),
    };
    let msbt = sstools::msb::Msbt {
        lbl: Vec::new(),
        text: Vec::new(),
    };
    let mut p = EventPatcher::new(msbf, msbt);
    assert_eq!(p.ref_flows.len(), 1);

    let idx = p.add_flow(
        RefFlowEntry::NonDiverging(flow::set_storyflag(899)),
        Some("set flag".to_string()),
    );
    assert_eq!(idx, 1);
    assert_eq!(p.resolve(&Flowref::Name("set flag".to_string())), Ok(1));
    assert!(p.resolve(&Flowref::Name("missing".to_string())).is_err());
    assert!(p.resolve(&Flowref::Index(-1)).is_err());

    p.set_next(&Flowref::Index(0), Flowref::Name("set flag".to_string()))
        .expect("redirect");
    match p.get_flow(&Flowref::Index(0)).unwrap() {
        RefFlowEntry::NonDiverging(nd) => {
            assert_eq!(
                nd.get_next(),
                &Flowref::Name("set flag".to_string())
            );
        }
        other => panic!("expected a non-diverging entry, got {other:?}"),
    }
    // a switch is required for set_branches
    assert!(p
        .set_branches(&Flowref::Index(0), vec![Flowref::Index(-1)])
        .is_err());

    let line = p.add_show_text("hello", Flowref::Index(-1));
    assert_eq!(line, 2);
    assert_eq!(p.text.text.len(), 1);
}

/// The ready-made flow steps carry the documented parameters.
#[test]
fn flow_builders() {
    assert_eq!(
        flow::give_item(0xBA),
        RefFlowEntryNonDiverging::Flow {
            subtype: 0,
            param1: 0,
            param2: 0xBA,
            next: Flowref::Index(-1),
            param3: 9,
        }
    );
    assert_eq!(
        flow::unset_storyflag(7),
        RefFlowEntryNonDiverging::Flow {
            subtype: 0,
            param1: 0,
            param2: 7,
            next: Flowref::Index(-1),
            param3: 1,
        }
    );
    assert_eq!(
        flow::add_rupees(-5),
        RefFlowEntryNonDiverging::Flow {
            subtype: 0,
            param1: 0,
            param2: (-5i16) as u16,
            next: Flowref::Index(-1),
            param3: 8,
        }
    );
    match flow::give_gratitude_crystals() {
        RefFlowEntryNonDiverging::Flow { param3, .. } => assert_eq!(param3, 43),
        other => panic!("expected a flow action, got {other:?}"),
    }
    assert_eq!(
        flow::start(),
        RefFlowEntryNonDiverging::Start {
            next: Flowref::Index(-1)
        }
    );
    assert_eq!(flow::decimal_string(0), "0");
    assert_eq!(flow::decimal_string(12345), "12345");
}
