use std::io::{Cursor, Read};

use bootloader::fat::{create_fat_filesystem, FatImage, FatKind};
use bootloader::{create_boot_partition, BuildError, FileEntry};

fn pattern(n: usize, seed: u8) -> Vec<u8> {
    let mut v = Vec::with_capacity(n);
    for i in 0..n {
        v.push(((i as u32).wrapping_mul(31).wrapping_add(seed as u32) % 251) as u8);
    }
    v
}

fn entry(path: &str, data: Vec<u8>) -> FileEntry {
    FileEntry { path: path.as_bytes().to_vec(), data }
}

fn open_fs(bytes: Vec<u8>) -> fatfs::FileSystem<Cursor<Vec<u8>>> {
    fatfs::FileSystem::new(Cursor::new(bytes), fatfs::FsOptions::new()).unwrap()
}

fn read_back(fs: &fatfs::FileSystem<Cursor<Vec<u8>>>, path: &str) -> Vec<u8> {
    let mut f = fs.root_dir().open_file(path).unwrap();
    let mut buf = Vec::new();
    f.read_to_end(&mut buf).unwrap();
    buf
}

/// Scenario: the standard boot partition with a 50000-byte bootloader and
/// a 200000-byte kernel contains both entries with correct contents and is
/// a whole number of 512-byte sectors.
#[test]
fn boot_partition_scenario() {
    let bootloader_blob = pattern(50000, 7);
    let kernel_blob = pattern(200000, 13);
    let fi: FatImage = create_boot_partition(&bootloader_blob, &kernel_blob).unwrap();
    assert_eq!(fi.bytes.len() % 512, 0);
    assert_eq!(fi.bytes[510], 0x55);
    assert_eq!(fi.bytes[511], 0xaa);
    // the recorded placements hold the blobs verbatim
    let o0 = fi.file_offsets[0];
    assert_eq!(&fi.bytes[o0..o0 + 50000], &bootloader_blob[..]);
    let o1 = fi.file_offsets[1];
    assert_eq!(&fi.bytes[o1..o1 + 200000], &kernel_blob[..]);
    // a reference FAT reader finds both files by path
    let fs = open_fs(fi.bytes);
    assert_eq!(read_back(&fs, "efi/boot/bootx64.efi"), bootloader_blob);
    assert_eq!(read_back(&fs, "kernel-x86_64"), kernel_blob);
}

/// Nested destination paths create the intermediate directories: `a` and
/// `a/b` exist as directories before `c.bin` is reachable.
#[test]
fn nested_directories_created() {
    let data = pattern(1234, 3);
    let files = vec![entry("a/b/c.bin", data.clone())];
    let fi = create_fat_filesystem(&files).unwrap();
    let fs = open_fs(fi.bytes);
    let names: Vec<String> = fs.root_dir().iter().map(|e| e.unwrap().file_name()).collect();
    assert!(names.contains(&"a".to_string()));
    let a = fs.root_dir().open_dir("a").unwrap();
    let a_names: Vec<String> = a.iter().map(|e| e.unwrap().file_name()).collect();
    assert!(a_names.contains(&"b".to_string()));
    assert_eq!(read_back(&fs, "a/b/c.bin"), data);
}

/// An empty input set still yields a well-formed, parseable volume.
#[test]
fn empty_input_builds_empty_volume() {
    let files: Vec<FileEntry> = vec![];
    let fi = create_fat_filesystem(&files).unwrap();
    assert_eq!(fi.bytes.len() % 512, 0);
    let fs = open_fs(fi.bytes);
    assert_eq!(fs.root_dir().iter().count(), 0);
}

/// A zero-length file is stored and read back empty.
#[test]
fn empty_file_round_trip() {
    let files = vec![entry("empty.bin", Vec::new()), entry("full.bin", pattern(600, 9))];
    let fi = create_fat_filesystem(&files).unwrap();
    let fs = open_fs(fi.bytes);
    assert_eq!(read_back(&fs, "empty.bin"), Vec::<u8>::new());
    assert_eq!(read_back(&fs, "full.bin"), pattern(600, 9));
}

/// Ill-formed destination paths are rejected with a format error.
#[test]
fn malformed_paths_rejected() {
    for bad in ["", "/abs", "a//b", "trailing/", "/"] {
        let files = vec![entry(bad, vec![1, 2, 3])];
        assert_eq!(create_fat_filesystem(&files).unwrap_err(), BuildError::Format);
    }
    let long = "x".repeat(300);
    let files = vec![entry(&long, vec![1])];
    assert_eq!(create_fat_filesystem(&files).unwrap_err(), BuildError::Format);
}

/// Colliding destination paths are rejected: a duplicate path, and a path
/// that would have to be both a file and a directory.
#[test]
fn colliding_paths_rejected() {
    let files = vec![entry("x", vec![1]), entry("x", vec![2])];
    assert_eq!(create_fat_filesystem(&files).unwrap_err(), BuildError::Collision);
    let files = vec![entry("x", vec![1]), entry("x/y", vec![2])];
    assert_eq!(create_fat_filesystem(&files).unwrap_err(), BuildError::Collision);
}

/// A small payload selects the smallest variant, FAT12.
#[test]
fn small_payload_selects_fat12() {
    let files = vec![entry("tiny.bin", pattern(4000, 1))];
    let fi = create_fat_filesystem(&files).unwrap();
    assert!(matches!(fi.fat_type, FatKind::Fat12));
    assert!(fi.cluster_count <= 4084);
    let fs = open_fs(fi.bytes);
    assert_eq!(fs.fat_type(), fatfs::FatType::Fat12);
    assert_eq!(read_back(&fs, "tiny.bin"), pattern(4000, 1));
}

/// A payload past the FAT12 cluster-count window selects FAT16.
#[test]
fn medium_payload_selects_fat16() {
    let data = pattern(2_200_000, 5);
    let files = vec![entry("mid.bin", data.clone())];
    let fi = create_fat_filesystem(&files).unwrap();
    assert_eq!(fi.bytes.len() % 512, 0);
    assert!(matches!(fi.fat_type, FatKind::Fat16));
    assert!((4085..=65524).contains(&fi.cluster_count));
    let fs = open_fs(fi.bytes);
    assert_eq!(fs.fat_type(), fatfs::FatType::Fat16);
    assert_eq!(read_back(&fs, "mid.bin"), data);
}

/// A payload past the FAT16 cluster-count window selects FAT32.
#[test]
fn large_payload_selects_fat32() {
    let n: usize = 34_000_000;
    let mut data = vec![0u8; n];
    for i in 0..8192 {
        data[i] = (i % 251) as u8;
    }
    data[n - 1] = 0xab;
    let files = vec![entry("big.bin", data)];
    let fi = create_fat_filesystem(&files).unwrap();
    assert_eq!(fi.bytes.len() % 512, 0);
    let off = fi.file_offsets[0];
    assert_eq!(fi.bytes[off], 0);
    assert_eq!(fi.bytes[off + 1], 1);
    assert_eq!(fi.bytes[off + n - 1], 0xab);
    assert!(matches!(fi.fat_type, FatKind::Fat32));
    assert!(fi.cluster_count >= 65525);
    let fs = open_fs(fi.bytes);
    assert_eq!(fs.fat_type(), fatfs::FatType::Fat32);
    let mut f = fs.root_dir().open_file("big.bin").unwrap();
    let mut head = vec![0u8; 8192];
    f.read_exact(&mut head).unwrap();
    for i in 0..8192 {
        assert_eq!(head[i], (i % 251) as u8);
    }
}

/// Long names that do not fit 8.3 survive the round trip through the
/// long-name entries, case included.
#[test]
fn long_and_mixed_case_names_round_trip() {
    let files = vec![
        entry("SomeVeryLongFileName.firmware", pattern(100, 2)),
        entry("MixedCase.Bin", pattern(50, 4)),
        entry("UPPER.TXT", pattern(10, 6)),
    ];
    let fi = create_fat_filesystem(&files).unwrap();
    let fs = open_fs(fi.bytes);
    assert_eq!(read_back(&fs, "SomeVeryLongFileName.firmware"), pattern(100, 2));
    assert_eq!(read_back(&fs, "MixedCase.Bin"), pattern(50, 4));
    assert_eq!(read_back(&fs, "UPPER.TXT"), pattern(10, 6));
    let names: Vec<String> = fs.root_dir().iter().map(|e| e.unwrap().file_name()).collect();
    assert!(names.contains(&"SomeVeryLongFileName.firmware".to_string()));
}

/// A name that looks like a generated alias coexists with a long name in
/// the same directory: generated short names never collide with stored
/// ones.
#[test]
fn tilde_name_coexists_with_long_name() {
    let files = vec![
        entry("KERNEL~1", pattern(64, 8)),
        entry("kernel-x86_64", pattern(128, 9)),
    ];
    let fi = create_fat_filesystem(&files).unwrap();
    let fs = open_fs(fi.bytes);
    assert_eq!(read_back(&fs, "KERNEL~1"), pattern(64, 8));
    assert_eq!(read_back(&fs, "kernel-x86_64"), pattern(128, 9));
}

/// Deeply nested paths and shared prefixes: each directory is created
/// once and every file is reachable.
#[test]
fn deep_and_shared_prefixes() {
    let files = vec![
        entry("a/b/c/d/e/one.bin", pattern(700, 10)),
        entry("a/b/c/two.bin", pattern(800, 11)),
        entry("a/three.bin", pattern(900, 12)),
    ];
    let fi = create_fat_filesystem(&files).unwrap();
    let fs = open_fs(fi.bytes);
    assert_eq!(read_back(&fs, "a/b/c/d/e/one.bin"), pattern(700, 10));
    assert_eq!(read_back(&fs, "a/b/c/two.bin"), pattern(800, 11));
    assert_eq!(read_back(&fs, "a/three.bin"), pattern(900, 12));
    // "a" was created once: the root holds exactly one entry
    assert_eq!(fs.root_dir().iter().count(), 1);
}

/// Idempotence: building the FAT partition twice from identical inputs
/// gives byte-identical images.
#[test]
fn fat_build_is_deterministic() {
    let bootloader_blob = pattern(50000, 7);
    let kernel_blob = pattern(200000, 13);
    let a = create_boot_partition(&bootloader_blob, &kernel_blob).unwrap();
    let b = create_boot_partition(&bootloader_blob, &kernel_blob).unwrap();
    assert_eq!(a.bytes, b.bytes);
    assert_eq!(a.file_offsets, b.file_offsets);
}
