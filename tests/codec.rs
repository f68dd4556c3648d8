use zstd_tool::codec::{compress_file_bytes, compress_tree, extract_file_bytes, extract_tree};
use zstd_tool::container::{is_safe_path, pack_entries, root_relative, unpack_entries, Entry};
use zstd_tool::error::ArchiveError;

fn file(path: &str, data: &[u8]) -> Entry {
    Entry { path: path.as_bytes().to_vec(), is_dir: false, data: data.to_vec() }
}

fn dir(path: &str) -> Entry {
    Entry { path: path.as_bytes().to_vec(), is_dir: true, data: Vec::new() }
}

fn sample_tree() -> Vec<Entry> {
    vec![
        dir("root"),
        file("root/a.txt", b"hello"),
        dir("root/sub"),
        file("root/sub/b.bin", &[0, 1, 2, 255, 254]),
        file("root/sub/empty", b""),
    ]
}

#[test]
fn single_file_round_trip() {
    let data: Vec<u8> = (0..10_000u32).map(|i| (i % 251) as u8).collect();
    let frame = compress_file_bytes(&data, 3, 0).unwrap();
    assert_ne!(frame, data);
    assert_eq!(extract_file_bytes(&frame).unwrap(), data);
}

#[test]
fn single_file_round_trip_threads_and_extremes() {
    let data = b"abcabcabcabcabcabcabc".repeat(100);
    for (level, workers) in [(1, 2), (19, 2), (22, 0)] {
        let frame = compress_file_bytes(&data, level, workers).unwrap();
        assert!(frame.len() < data.len());
        assert_eq!(extract_file_bytes(&frame).unwrap(), data);
    }
}

#[test]
fn empty_file_round_trip() {
    let frame = compress_file_bytes(&[], 3, 0).unwrap();
    assert!(!frame.is_empty());
    assert_eq!(extract_file_bytes(&frame).unwrap(), Vec::<u8>::new());
}

#[test]
fn level_zero_and_twenty_three_refused() {
    assert_eq!(compress_file_bytes(b"x", 0, 0), Err(ArchiveError::LevelOutOfRange));
    assert_eq!(compress_file_bytes(b"x", 23, 0), Err(ArchiveError::LevelOutOfRange));
    assert_eq!(compress_tree(&sample_tree(), 0, 0), Err(ArchiveError::LevelOutOfRange));
    assert_eq!(compress_tree(&sample_tree(), 23, 0), Err(ArchiveError::LevelOutOfRange));
}

#[test]
fn tree_round_trip() {
    let tree = sample_tree();
    let frame = compress_tree(&tree, 19, 0).unwrap();
    assert_eq!(extract_tree(&frame).unwrap(), tree);
}

#[test]
fn empty_tree_round_trip() {
    let frame = compress_tree(&Vec::new(), 3, 0).unwrap();
    assert_eq!(extract_tree(&frame).unwrap(), Vec::<Entry>::new());
}

#[test]
fn corrupt_frame_is_reported() {
    assert_eq!(extract_file_bytes(b"not a zstd frame"), Err(ArchiveError::CorruptArchive));
    assert_eq!(extract_tree(b"not a zstd frame"), Err(ArchiveError::CorruptArchive));
    let frame = compress_file_bytes(&[7u8; 4096], 3, 0).unwrap();
    assert_eq!(extract_file_bytes(&frame[..frame.len() / 2]), Err(ArchiveError::CorruptArchive));
}

#[test]
fn container_layout() {
    let bytes = pack_entries(&vec![file("ab", b"xyz")]).unwrap();
    let mut expected = vec![0u8];
    expected.extend_from_slice(&2u64.to_le_bytes());
    expected.extend_from_slice(b"ab");
    expected.extend_from_slice(&3u64.to_le_bytes());
    expected.extend_from_slice(b"xyz");
    assert_eq!(bytes, expected);
    assert_eq!(unpack_entries(&bytes).unwrap(), vec![file("ab", b"xyz")]);
}

#[test]
fn truncated_container_is_corrupt() {
    let bytes = pack_entries(&sample_tree()).unwrap();
    assert_eq!(unpack_entries(&bytes[..bytes.len() - 1]), Err(ArchiveError::CorruptArchive));
    assert_eq!(unpack_entries(&[2u8; 20]), Err(ArchiveError::CorruptArchive));
}

#[test]
fn traversal_record_is_rejected() {
    let mut raw = vec![0u8];
    raw.extend_from_slice(&9u64.to_le_bytes());
    raw.extend_from_slice(b"../escape");
    raw.extend_from_slice(&1u64.to_le_bytes());
    raw.push(b'!');
    assert_eq!(unpack_entries(&raw), Err(ArchiveError::UnsafePath));
    let frame = compress_file_bytes(&raw, 3, 0).unwrap();
    assert_eq!(extract_tree(&frame), Err(ArchiveError::UnsafePath));
}

#[test]
fn unsafe_paths_refused_when_packing() {
    for bad in ["../x", "a/../../x", "/etc/passwd", "\\x", "C:\\x", "a/..", "..", "", "root//x", "root/", "a\\\\b"] {
        assert!(!is_safe_path(bad.as_bytes()), "{bad}");
        let tree = vec![file(bad, b"1")];
        assert_eq!(compress_tree(&tree, 3, 0), Err(ArchiveError::UnsafePath));
    }
    for good in ["a", "a/b", "..a", "a..", "a/...", "x/.hidden"] {
        assert!(is_safe_path(good.as_bytes()), "{good}");
    }
}

#[test]
fn root_relative_paths() {
    assert_eq!(root_relative(b"root"), Vec::<u8>::new());
    assert_eq!(root_relative(b"root/a.txt"), b"a.txt".to_vec());
    assert_eq!(root_relative(b"root/sub/b.bin"), b"sub/b.bin".to_vec());
    assert_eq!(root_relative(b"root\\sub\\c"), b"sub\\c".to_vec());
    // Unsafe record paths never reach this point: extraction refuses them.
    assert_eq!(root_relative(b"root//etc/passwd"), b"/etc/passwd".to_vec());
}

#[test]
fn empty_segment_record_is_rejected() {
    let mut raw = vec![0u8];
    raw.extend_from_slice(&16u64.to_le_bytes());
    raw.extend_from_slice(b"root//etc/passwd");
    raw.extend_from_slice(&1u64.to_le_bytes());
    raw.push(b'!');
    assert_eq!(unpack_entries(&raw), Err(ArchiveError::UnsafePath));
    let frame = compress_file_bytes(&raw, 3, 0).unwrap();
    assert_eq!(extract_tree(&frame), Err(ArchiveError::UnsafePath));
    assert_eq!(compress_tree(&vec![file("root//x", b"1")], 3, 0), Err(ArchiveError::UnsafePath));
}

#[test]
fn extracted_paths_stay_below_output() {
    let frame = compress_tree(&sample_tree(), 3, 0).unwrap();
    for e in extract_tree(&frame).unwrap() {
        let rel = root_relative(&e.path);
        assert!(rel.is_empty() || is_safe_path(&rel));
    }
}
