//! The hierarchical archive container: parsing, lookup, replacement and
//! serialization.

use sstools::u8file::Entry;
use sstools::u8file::U8File;
use sstools::u8file::U8ParseError;
use sstools::u8file::MAGIC_HEADER;

fn push_u24(v: &mut Vec<u8>, x: u32) {
    v.extend_from_slice(&x.to_be_bytes()[1..4]);
}

fn push_u32(v: &mut Vec<u8>, x: u32) {
    v.extend_from_slice(&x.to_be_bytes());
}

/// A small handcrafted archive: `dir/inner.bin` with four data bytes.
fn sample_archive() -> Vec<u8> {
    let mut b = Vec::new();
    push_u32(&mut b, MAGIC_HEADER);
    push_u32(&mut b, 0x20); // first node offset
    push_u32(&mut b, 0); // node+string size (unused by the reader)
    push_u32(&mut b, 0x60); // data offset (unused by the reader)
    b.extend_from_slice(&[0; 16]);
    // node 0: root directory, spans all 3 nodes
    b.push(1);
    push_u24(&mut b, 0);
    push_u32(&mut b, 0);
    push_u32(&mut b, 3);
    // node 1: directory "dir", children end at node 3
    b.push(1);
    push_u24(&mut b, 1);
    push_u32(&mut b, 0);
    push_u32(&mut b, 3);
    // node 2: file "inner.bin" at 0x60, 4 bytes
    b.push(0);
    push_u24(&mut b, 5);
    push_u32(&mut b, 0x60);
    push_u32(&mut b, 4);
    // string pool at 0x20 + 3*12 = 0x44
    b.extend_from_slice(b"\0dir\0inner.bin\0");
    while b.len() < 0x60 {
        b.push(0);
    }
    b.extend_from_slice(&[0xDE, 0xAD, 0xBE, 0xEF]);
    b
}

/// Parsing the sample archive exposes its tree and file bytes.
#[test]
fn parse_and_lookup() {
    let file = U8File::from_vec(sample_archive()).expect("parse");
    let root = file.get_root_entry();
    assert_eq!(root.len(), 1);
    assert_eq!(root[0].get_name(), "dir");
    assert!(root[0].is_dir());

    let entry = file.get_entry("dir/inner.bin").expect("entry");
    assert!(entry.is_ref());
    assert_eq!(entry.get_name(), "inner.bin");
    // a leading slash is accepted too
    assert!(file.get_entry("/dir/inner.bin").is_some());
    assert!(file.get_entry("dir/missing").is_none());
    assert!(file.get_entry("inner.bin").is_none());

    let data = file.get_entry_data("dir/inner.bin").expect("data");
    assert_eq!(data, &[0xDE, 0xAD, 0xBE, 0xEF]);

    assert_eq!(file.get_all_paths(), vec!["/dir/inner.bin".to_string()]);
}

/// Replacing a file's bytes takes effect for later reads; directories and
/// missing paths refuse the replacement.
#[test]
fn replace_file_bytes() {
    let mut file = U8File::from_vec(sample_archive()).expect("parse");
    assert!(file.set_entry_data("dir/inner.bin", vec![1, 2, 3]));
    assert_eq!(file.get_entry_data("dir/inner.bin").unwrap(), &[1, 2, 3]);
    assert!(file.get_entry("dir/inner.bin").unwrap().is_data());
    assert!(!file.set_entry_data("dir", vec![9]));
    assert!(!file.set_entry_data("missing", vec![9]));
}

/// Writing an archive and reading it back preserves the tree and the data.
#[test]
fn write_rereads() {
    let mut file = U8File::from_vec(sample_archive()).expect("parse");
    assert!(file.set_entry_data("dir/inner.bin", vec![7, 8, 9, 10, 11]));
    let bytes = file.write();
    assert_eq!(&bytes[0..4], &MAGIC_HEADER.to_be_bytes());
    assert_eq!(&bytes[4..8], &[0, 0, 0, 0x20]);
    let reread = U8File::from_vec(bytes).expect("reparse");
    assert_eq!(
        reread.get_entry_data("dir/inner.bin").unwrap(),
        &[7, 8, 9, 10, 11]
    );
    assert_eq!(reread.get_all_paths(), vec!["/dir/inner.bin".to_string()]);
}

/// Bad magic and truncation are reported as such.
#[test]
fn archive_errors() {
    assert_eq!(
        U8File::from_vec(vec![0, 1, 2]).unwrap_err(),
        U8ParseError::UnexpectedEoF
    );
    let mut bad = sample_archive();
    bad[0] = 0;
    assert_eq!(
        U8File::from_vec(bad).unwrap_err(),
        U8ParseError::InvalidMagic
    );
}

/// Entry classification helpers.
#[test]
fn entry_kinds() {
    let dir = Entry::DirEntry {
        name: "d".to_string(),
        files: Vec::new(),
    };
    assert!(dir.is_dir() && !dir.is_ref() && !dir.is_data());
    assert_eq!(dir.get_name(), "d");
}
