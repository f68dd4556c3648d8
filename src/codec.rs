use crate::backend::{level_in_domain, Backend};
use crate::container::{
    container_bytes, entries_view, fits_u64, law_parsed_paths_are_safe, safe_path, law_container_round_trip, pack_entries, parse_container, unpack_entries, Entry,
    Record,
};
use crate::error::ArchiveError;
use vstd::prelude::*;

verus! {

/// What `zstd::stream::decode_all` returns for a byte sequence: the decoded
/// bytes, or nothing where the input is not a frame sequence it accepts.
pub uninterp spec fn zstd_decoded(frame: Seq<u8>) -> Option<Seq<u8>>;

/// Relies on zstd's streaming `Encoder` (`new`, `multithread`, `write_all`,
/// `finish`, one encoder session): zstd is lossless, so a finished frame
/// decodes to the bytes written into it.
#[verifier::external_body]
fn zstd_encode(data: &[u8], level: i32, workers: u32) -> (r: Option<Vec<u8>>)
    ensures
        r matches Some(frame) ==> zstd_decoded(frame@) == Some(data@),
{
    let mut encoder = zstd::stream::write::Encoder::new(Vec::new(), level).ok()?;
    encoder.multithread(workers).ok()?;
    std::io::Write::write_all(&mut encoder, data).ok()?;
    encoder.finish().ok()
}

/// Relies on `zstd::stream::decode_all`: on a byte slice its outcome depends
/// on the bytes alone.
#[verifier::external_body]
fn zstd_decode(frame: &[u8]) -> (r: Option<Vec<u8>>)
    ensures
        r matches Some(d) ==> zstd_decoded(frame@) == Some(d@),
        r is None <==> zstd_decoded(frame@) is None,
{
    zstd::stream::decode_all(frame).ok()
}

/// What extracting a single-file archive yields.
pub open spec fn file_extract_spec(frame: Seq<u8>) -> Result<Seq<u8>, ArchiveError> {
    match zstd_decoded(frame) {
        Some(d) => Ok(d),
        None => Err(ArchiveError::CorruptArchive),
    }
}

/// What extracting a tree archive yields.
pub open spec fn tree_extract_spec(frame: Seq<u8>) -> Result<Seq<Record>, ArchiveError> {
    match zstd_decoded(frame) {
        Some(b) => parse_container(b),
        None => Err(ArchiveError::CorruptArchive),
    }
}

/// Extracting a tree archive whose frame holds the container of `rs` gives
/// back exactly `rs`: the same paths, kinds and contents, in order.
pub proof fn law_tree_round_trip(rs: Seq<Record>, frame: Seq<u8>)
    requires
        forall|i: int| 0 <= i < rs.len() ==> safe_path(#[trigger] rs[i].path) && fits_u64(rs[i]),
        zstd_decoded(frame) == Some(container_bytes(rs)),
    ensures
        tree_extract_spec(frame) == Ok::<Seq<Record>, ArchiveError>(rs),
{
    law_container_round_trip(rs);
}

/// Compresses one file's bytes into a zstd frame with no container framing.
/// A level outside 1..=22 is refused before anything is encoded; what
/// comes out extracts to exactly `data`.
pub fn compress_file_bytes(data: &[u8], level: i32, workers: u32) -> (r: Result<Vec<u8>, ArchiveError>)
    ensures
        !level_in_domain(Backend::TarZstd, level as int) ==> r == Err::<Vec<u8>, ArchiveError>(ArchiveError::LevelOutOfRange),
        level_in_domain(Backend::TarZstd, level as int) ==> (r matches Err(e) ==> e == ArchiveError::EncoderFailed),
        r matches Ok(frame) ==> file_extract_spec(frame@) == Ok::<Seq<u8>, ArchiveError>(data@),
{
    let level = Backend::TarZstd.validate_level(level)?;
    match zstd_encode(data, level, workers) {
        Some(frame) => Ok(frame),
        None => Err(ArchiveError::EncoderFailed),
    }
}

/// Decompresses a single-file archive.
pub fn extract_file_bytes(frame: &[u8]) -> (r: Result<Vec<u8>, ArchiveError>)
    ensures
        match (r, file_extract_spec(frame@)) {
            (Ok(d), Ok(s)) => d@ == s,
            (Err(e), Err(f)) => e == f,
            _ => false,
        },
{
    match zstd_decode(frame) {
        Some(d) => Ok(d),
        None => Err(ArchiveError::CorruptArchive),
    }
}

/// Serialises a tree's records into one container and compresses it. The
/// level is checked first, then every path; what comes out extracts to
/// exactly `entries`.
pub fn compress_tree(entries: &Vec<Entry>, level: i32, workers: u32) -> (r: Result<Vec<u8>, ArchiveError>)
    ensures
        !level_in_domain(Backend::TarZstd, level as int) ==> r == Err::<Vec<u8>, ArchiveError>(ArchiveError::LevelOutOfRange),
        level_in_domain(Backend::TarZstd, level as int) && !(forall|i: int|
            0 <= i < entries@.len() ==> safe_path(#[trigger] entries@[i].path@))
            ==> r == Err::<Vec<u8>, ArchiveError>(ArchiveError::UnsafePath),
        r == Err::<Vec<u8>, ArchiveError>(ArchiveError::UnsafePath) ==> level_in_domain(Backend::TarZstd, level as int)
            && exists|i: int| 0 <= i < entries@.len() && !safe_path(#[trigger] entries@[i].path@),
        r == Err::<Vec<u8>, ArchiveError>(ArchiveError::EncoderFailed) ==> level_in_domain(Backend::TarZstd, level as int)
            && forall|i: int| 0 <= i < entries@.len() ==> safe_path(#[trigger] entries@[i].path@),
        r matches Err(e) ==> (e == ArchiveError::LevelOutOfRange || e == ArchiveError::UnsafePath
            || e == ArchiveError::EncoderFailed),
        r matches Ok(frame) ==> tree_extract_spec(frame@) == Ok::<Seq<Record>, ArchiveError>(entries_view(entries@)),
{
    let level = Backend::TarZstd.validate_level(level)?;
    let packed = pack_entries(entries)?;
    proof {
        let rs = entries_view(entries@);
        assert forall|i: int| 0 <= i < rs.len() implies safe_path(#[trigger] rs[i].path)
            && fits_u64(rs[i]) by {
            assert(rs[i] == entries@[i]@);
        }
        law_container_round_trip(rs);
    }
    match zstd_encode(packed.as_slice(), level, workers) {
        Some(frame) => Ok(frame),
        None => Err(ArchiveError::EncoderFailed),
    }
}

/// Decompresses a tree archive and reads its records; a record whose path
/// could leave the output directory is refused.
pub fn extract_tree(frame: &[u8]) -> (r: Result<Vec<Entry>, ArchiveError>)
    ensures
        match (r, tree_extract_spec(frame@)) {
            (Ok(es), Ok(rs)) => entries_view(es@) == rs,
            (Err(e), Err(f)) => e == f,
            _ => false,
        },
        r matches Ok(es) ==> forall|i: int| 0 <= i < es@.len() ==> safe_path(#[trigger] es@[i].path@),
{
    match zstd_decode(frame) {
        Some(b) => {
            let r = unpack_entries(b.as_slice());
            proof {
                law_parsed_paths_are_safe(b@);
                if let Ok(es) = &r {
                    let rs = entries_view(es@);
                    assert(parse_container(b@) == Ok::<Seq<Record>, ArchiveError>(rs));
                    assert forall|i: int| 0 <= i < es@.len() implies safe_path(#[trigger] es@[i].path@) by {
                        assert(rs[i] == es@[i]@);
                        assert(safe_path(rs[i].path));
                    }
                }
            }
            r
        },
        None => Err(ArchiveError::CorruptArchive),
    }
}

} // verus!
