//! The string-table sections: offsets, terminators and alignment.

use sstools::codec::parse_bzs_file;
use sstools::codec::write_bzs;
use sstools::codec::BzsEntries;
use sstools::encoding::decode;
use sstools::encoding::encode;
use sstools::encoding::encode_into;
use sstools::encoding::EncodingError;

/// Encoding and decoding a table of names reproduces the same strings in the
/// same order, and the stored offsets are the running sums of the encoded
/// lengths plus their terminators.
#[test]
fn string_table_offsets() {
    let mut model = BzsEntries::new();
    model.objn.push(String::from("Tubo"));
    model.objn.push(String::from("saveObj"));
    let encoded = write_bzs(&model).expect("encode");

    // one OBJN header at 12; its payload starts at the stored offset
    assert_eq!(&encoded[12..16], b"OBJN");
    let count = u16::from_be_bytes([encoded[16], encoded[17]]);
    assert_eq!(count, 2);
    let rel = u32::from_be_bytes([encoded[20], encoded[21], encoded[22], encoded[23]]) as usize;
    let data = 12 + rel;
    // the offset array: 2 entries of 2 bytes, then the blobs
    let off0 = u16::from_be_bytes([encoded[data], encoded[data + 1]]) as usize;
    let off1 = u16::from_be_bytes([encoded[data + 2], encoded[data + 3]]) as usize;
    assert_eq!(off0, 4); // right after the offset array
    assert_eq!(off1, 4 + "Tubo".len() + 1); // previous string plus its nul
    assert_eq!(&encoded[data + off0..data + off0 + 5], b"Tubo\0");
    assert_eq!(&encoded[data + off1..data + off1 + 8], b"saveObj\0");

    let decoded = parse_bzs_file(&encoded).expect("decode");
    assert_eq!(decoded.objn, vec!["Tubo".to_string(), "saveObj".to_string()]);

    let reencoded = write_bzs(&decoded).expect("re-encode");
    assert_eq!(encoded, reencoded);
}

/// ASCII text passes through the legacy encoding unchanged.
#[test]
fn ascii_passthrough() {
    let bytes = encode("saveObj").expect("encode");
    assert_eq!(bytes, b"saveObj");
    let text = decode(b"Tubo\0trailing").expect("decode");
    assert_eq!(text, "Tubo");
    let whole = decode(b"Tubo").expect("decode");
    assert_eq!(whole, "Tubo");
}

/// Encoding into a fixed-width buffer pads with zeros and rejects text that
/// does not fit.
#[test]
fn encode_into_fixed_width() {
    let mut buf = vec![0xAAu8; 8];
    encode_into("Tubo", &mut buf).expect("fits");
    assert_eq!(buf, b"Tubo\0\0\0\0");
    let mut small = vec![0u8; 3];
    assert_eq!(encode_into("Tubo", &mut small), Err(EncodingError::TooLong));
    assert_eq!(small, vec![0u8; 3]);
}

/// The error message helpers say which failure happened.
#[test]
fn encoding_error_messages() {
    assert_eq!(EncodingError::InvalidShiftJis.message(), "Invalid Shift-Jis");
    assert_eq!(EncodingError::TooLong.message(), "Input too long");
}
