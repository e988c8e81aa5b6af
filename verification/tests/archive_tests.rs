use layerpack::archive::build;
use layerpack::names::{decimal_string, entry_name};
use std::io::Read;

fn extract(bytes: &[u8]) -> Vec<(String, Vec<u8>)> {
    let reader = std::io::Cursor::new(bytes.to_vec());
    let mut za = zip::ZipArchive::new(reader).expect("container must be readable");
    let mut out = Vec::new();
    for i in 0..za.len() {
        let mut file = za.by_index(i).unwrap();
        let mut data = Vec::new();
        file.read_to_end(&mut data).unwrap();
        out.push((file.name().to_string(), data));
    }
    out
}

#[test]
fn decimal_rendering_exact() {
    assert_eq!(decimal_string(0), "0");
    assert_eq!(decimal_string(7), "7");
    assert_eq!(decimal_string(10), "10");
    assert_eq!(decimal_string(12), "12");
    assert_eq!(decimal_string(105), "105");
    assert_eq!(decimal_string(usize::MAX), usize::MAX.to_string());
}

#[test]
fn entry_names_exact() {
    assert_eq!(entry_name(0), "image_0.png");
    assert_eq!(entry_name(1), "image_1.png");
    assert_eq!(entry_name(12), "image_12.png");
}

#[test]
fn three_entries_round_trip_in_order() {
    let b0: Vec<u8> = (0u8..10).collect();
    let b1: Vec<u8> = Vec::new();
    let b2: Vec<u8> = vec![200, 201, 202, 203, 204];
    assert_eq!(b0.len(), 10);
    assert_eq!(b1.len(), 0);
    assert_eq!(b2.len(), 5);
    let entries = vec![
        ("image_0.png".to_string(), b0.clone()),
        ("image_1.png".to_string(), b1.clone()),
        ("image_2.png".to_string(), b2.clone()),
    ];
    let bytes = build(&entries).expect("in-memory build must succeed");
    let got = extract(&bytes);
    assert_eq!(got.len(), 3);
    assert_eq!(got[0], ("image_0.png".to_string(), b0));
    assert_eq!(got[1], ("image_1.png".to_string(), b1));
    assert_eq!(got[2], ("image_2.png".to_string(), b2));
}

#[test]
fn build_is_deterministic() {
    let entries = vec![
        ("image_0.png".to_string(), vec![1u8, 2, 3]),
        ("image_1.png".to_string(), vec![4u8; 1000]),
    ];
    let first = build(&entries).unwrap();
    let second = build(&entries).unwrap();
    assert_eq!(first, second);
}

#[test]
fn build_compresses_and_frames_rather_than_copying() {
    let entries = vec![("image_0.png".to_string(), vec![0u8; 4096])];
    let bytes = build(&entries).unwrap();
    // A zip container is framed and deflated: it cannot equal the raw input.
    assert_ne!(bytes, vec![0u8; 4096]);
    assert!(bytes.len() < 4096);
    let got = extract(&bytes);
    assert_eq!(got.len(), 1);
    assert_eq!(got[0].1, vec![0u8; 4096]);
}

#[test]
fn empty_entry_list_builds_empty_container() {
    let entries: Vec<(String, Vec<u8>)> = Vec::new();
    let bytes = build(&entries).unwrap();
    let got = extract(&bytes);
    assert_eq!(got.len(), 0);
}

#[test]
fn overlong_entry_name_fails_cleanly() {
    // The container format stores the name length in 16 bits; a longer
    // name must be refused, not written truncated.
    let entries = vec![("x".repeat(70000), vec![1u8, 2, 3])];
    assert!(build(&entries).is_err());
}
