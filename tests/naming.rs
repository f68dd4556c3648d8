use zstd_tool::backend::{resolve_compress_target, resolve_decompress_target, Backend};
use zstd_tool::error::ArchiveError;
use zstd_tool::task::{ArchiveKind, ArchiveTask};

#[test]
fn directory_gets_tar_zst() {
    assert_eq!(resolve_compress_target("foo", true), "foo.tar.zst");
}

#[test]
fn file_gets_zst() {
    assert_eq!(resolve_compress_target("foo.txt", false), "foo.txt.zst");
}

#[test]
fn tar_zst_restores_tree() {
    assert_eq!(resolve_decompress_target("foo.tar.zst"), Ok(("foo".to_string(), true)));
}

#[test]
fn zst_restores_file() {
    assert_eq!(resolve_decompress_target("bar.zst"), Ok(("bar".to_string(), false)));
}

#[test]
fn longest_suffix_wins() {
    let r = resolve_decompress_target("a.tar.zst");
    assert_ne!(r, Ok(("a.tar".to_string(), false)));
    assert_eq!(r, Ok(("a".to_string(), true)));
}

#[test]
fn unknown_suffix_is_refused() {
    assert_eq!(resolve_decompress_target("notes.txt"), Err(ArchiveError::ExtensionMismatch));
    assert_eq!(resolve_decompress_target(""), Err(ArchiveError::ExtensionMismatch));
}

#[test]
fn bare_suffix_leaves_empty_name() {
    assert_eq!(resolve_decompress_target(".zst"), Ok((String::new(), false)));
}

#[test]
fn stripping_once_only() {
    assert_eq!(resolve_decompress_target("x.zst.zst"), Ok(("x.zst".to_string(), false)));
}

#[test]
fn dwarfs_names() {
    assert_eq!(Backend::Dwarfs.compress_target("photos", true), "photos.dwarfs");
    assert_eq!(Backend::Dwarfs.compress_target("a.txt", false), "a.txt.dwarfs");
    assert_eq!(Backend::Dwarfs.decompress_target("photos.dwarfs"), Ok(("photos".to_string(), true)));
    assert_eq!(Backend::Dwarfs.decompress_target("photos.zst"), Err(ArchiveError::ExtensionMismatch));
}

#[test]
fn zstd_level_domain() {
    assert_eq!(Backend::TarZstd.validate_level(0), Err(ArchiveError::LevelOutOfRange));
    assert_eq!(Backend::TarZstd.validate_level(23), Err(ArchiveError::LevelOutOfRange));
    assert_eq!(Backend::TarZstd.validate_level(1), Ok(1));
    assert_eq!(Backend::TarZstd.validate_level(22), Ok(22));
}

#[test]
fn dwarfs_level_domain() {
    assert_eq!(Backend::Dwarfs.validate_level(0), Ok(0));
    assert_eq!(Backend::Dwarfs.validate_level(9), Ok(9));
    assert_eq!(Backend::Dwarfs.validate_level(10), Err(ArchiveError::LevelOutOfRange));
    assert_eq!(Backend::Dwarfs.validate_level(-1), Err(ArchiveError::LevelOutOfRange));
}

#[test]
fn task_refuses_bad_level_before_io() {
    let r = ArchiveTask::new("in".to_string(), "in.zst".to_string(), ArchiveKind::SingleFile, 0, None);
    assert_eq!(r.unwrap_err(), ArchiveError::LevelOutOfRange);
    let r = ArchiveTask::new("in".to_string(), "in.zst".to_string(), ArchiveKind::SingleFile, 23, None);
    assert_eq!(r.unwrap_err(), ArchiveError::LevelOutOfRange);
}

#[test]
fn task_keeps_its_fields() {
    let t = ArchiveTask::new("dir".to_string(), "dir.tar.zst".to_string(), ArchiveKind::Tree, 19, Some(4))
        .unwrap();
    assert_eq!(t.input_path(), "dir");
    assert_eq!(t.output_path(), "dir.tar.zst");
    assert_eq!(t.kind(), ArchiveKind::Tree);
    assert_eq!(t.compression_level(), 19);
    assert_eq!(t.worker_threads(), Some(4));
    assert_eq!(t.effective_workers(16), 4);
    let u = ArchiveTask::new("f".to_string(), "f.zst".to_string(), ArchiveKind::SingleFile, 3, None).unwrap();
    assert_eq!(u.effective_workers(16), 16);
}
