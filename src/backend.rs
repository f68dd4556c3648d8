use crate::error::ArchiveError;
use vstd::prelude::*;
use vstd::string::*;

verus! {

/// The two archive back ends: a zstd frame (holding a tar-like container for
/// trees), and a dwarfs image built by the bundled external tool.
#[derive(Debug, Clone, Copy, PartialEq, Eq, Structural)]
pub enum Backend {
    TarZstd,
    Dwarfs,
}

pub open spec fn tar_zst_suffix() -> Seq<char> {
    seq!['.', 't', 'a', 'r', '.', 'z', 's', 't']
}

pub open spec fn zst_suffix() -> Seq<char> {
    seq!['.', 'z', 's', 't']
}

pub open spec fn dwarfs_suffix() -> Seq<char> {
    seq!['.', 'd', 'w', 'a', 'r', 'f', 's']
}

pub open spec fn has_suffix(s: Seq<char>, suffix: Seq<char>) -> bool {
    suffix.len() <= s.len() && s.subrange(s.len() - suffix.len(), s.len() as int) == suffix
}

pub open spec fn without_suffix(s: Seq<char>, suffix: Seq<char>) -> Seq<char> {
    s.subrange(0, s.len() - suffix.len())
}

/// The archive name for `input`: a directory gets `.tar.zst` (or `.dwarfs`),
/// anything else `.zst` (or `.dwarfs`).
pub open spec fn compress_target_spec(backend: Backend, input: Seq<char>, is_dir: bool) -> Seq<char> {
    match backend {
        Backend::TarZstd => if is_dir {
            input + tar_zst_suffix()
        } else {
            input + zst_suffix()
        },
        Backend::Dwarfs => input + dwarfs_suffix(),
    }
}

/// The restored name and whether the archive holds a tree; the longest known
/// suffix is matched first.
pub open spec fn decompress_target_spec(backend: Backend, input: Seq<char>) -> Result<(Seq<char>, bool), ArchiveError> {
    match backend {
        Backend::TarZstd => if has_suffix(input, tar_zst_suffix()) {
            Ok((without_suffix(input, tar_zst_suffix()), true))
        } else if has_suffix(input, zst_suffix()) {
            Ok((without_suffix(input, zst_suffix()), false))
        } else {
            Err(ArchiveError::ExtensionMismatch)
        },
        Backend::Dwarfs => if has_suffix(input, dwarfs_suffix()) {
            Ok((without_suffix(input, dwarfs_suffix()), true))
        } else {
            Err(ArchiveError::ExtensionMismatch)
        },
    }
}

fn ends_with(s: &str, suffix: &str) -> (r: bool)
    ensures
        r == has_suffix(s@, suffix@),
{
    let n = s.unicode_len();
    let m = suffix.unicode_len();
    if m > n {
        return false;
    }
    let start = n - m;
    let mut i: usize = 0;
    while i < m
        invariant
            n == s@.len(),
            m == suffix@.len(),
            start == n - m,
            i <= m,
            forall|j: int| 0 <= j < i ==> s@[start + j] == suffix@[j],
        decreases m - i,
    {
        if s.get_char(start + i) != suffix.get_char(i) {
            assert(s@.subrange(start as int, n as int)[i as int] != suffix@[i as int]);
            return false;
        }
        i = i + 1;
    }
    assert(s@.subrange(start as int, n as int) =~= suffix@);
    true
}

fn strip(s: &str, suffix: &str) -> (r: Option<String>)
    ensures
        has_suffix(s@, suffix@) ==> (r matches Some(t) && t@ == without_suffix(s@, suffix@)),
        !has_suffix(s@, suffix@) ==> r is None,
{
    if ends_with(s, suffix) {
        let t = s.substring_char(0, s.unicode_len() - suffix.unicode_len());
        Some(String::from_str(t))
    } else {
        None
    }
}

/// The compression levels each codec accepts: 1 to 22 for zstd, 0 to 9 for
/// dwarfs images. The two ranges are not interchangeable.
pub open spec fn level_in_domain(backend: Backend, level: int) -> bool {
    match backend {
        Backend::TarZstd => 1 <= level <= 22,
        Backend::Dwarfs => 0 <= level <= 9,
    }
}

impl Backend {
    /// Accepts `level` exactly when it lies in this codec's domain.
    pub fn validate_level(&self, level: i32) -> (r: Result<i32, ArchiveError>)
        ensures
            level_in_domain(*self, level as int) ==> r == Ok::<i32, ArchiveError>(level),
            !level_in_domain(*self, level as int) ==> r == Err::<i32, ArchiveError>(ArchiveError::LevelOutOfRange),
    {
        let ok = match self {
            Backend::TarZstd => 1 <= level && level <= 22,
            Backend::Dwarfs => 0 <= level && level <= 9,
        };
        if ok {
            Ok(level)
        } else {
            Err(ArchiveError::LevelOutOfRange)
        }
    }

    /// The archive name that compressing `input` produces.
    pub fn compress_target(&self, input: &str, is_dir: bool) -> (r: String)
        ensures
            r@ == compress_target_spec(*self, input@, is_dir),
    {
        let out = String::from_str(input);
        match self {
            Backend::TarZstd => {
                if is_dir {
                    let suffix = ".tar.zst";
                    proof { reveal_strlit(".tar.zst"); }
                    assert(suffix@ =~= tar_zst_suffix());
                    out.concat(suffix)
                } else {
                    let suffix = ".zst";
                    proof { reveal_strlit(".zst"); }
                    assert(suffix@ =~= zst_suffix());
                    out.concat(suffix)
                }
            },
            Backend::Dwarfs => {
                let suffix = ".dwarfs";
                proof { reveal_strlit(".dwarfs"); }
                assert(suffix@ =~= dwarfs_suffix());
                out.concat(suffix)
            },
        }
    }

    /// The name that decompressing `input` restores, and whether it is a tree.
    pub fn decompress_target(&self, input: &str) -> (r: Result<(String, bool), ArchiveError>)
        ensures
            match (r, decompress_target_spec(*self, input@)) {
                (Ok((name, tree)), Ok((n, t))) => name@ == n && tree == t,
                (Err(e), Err(f)) => e == f,
                _ => false,
            },
    {
        match self {
            Backend::TarZstd => {
                let long = ".tar.zst";
                let short = ".zst";
                proof {
                    reveal_strlit(".tar.zst");
                    reveal_strlit(".zst");
                }
                assert(long@ =~= tar_zst_suffix());
                assert(short@ =~= zst_suffix());
                match strip(input, long) {
                    Some(t) => Ok((t, true)),
                    None => match strip(input, short) {
                        Some(t) => Ok((t, false)),
                        None => Err(ArchiveError::ExtensionMismatch),
                    },
                }
            },
            Backend::Dwarfs => {
                let suffix = ".dwarfs";
                proof { reveal_strlit(".dwarfs"); }
                assert(suffix@ =~= dwarfs_suffix());
                match strip(input, suffix) {
                    Some(t) => Ok((t, true)),
                    None => Err(ArchiveError::ExtensionMismatch),
                }
            },
        }
    }
}

/// Output name for compressing `input` into a zstd archive.
pub fn resolve_compress_target(input: &str, is_dir: bool) -> (r: String)
    ensures
        r@ == compress_target_spec(Backend::TarZstd, input@, is_dir),
{
    Backend::TarZstd.compress_target(input, is_dir)
}

/// Output name and tree flag for decompressing a zstd archive named `input`.
pub fn resolve_decompress_target(input: &str) -> (r: Result<(String, bool), ArchiveError>)
    ensures
        match (r, decompress_target_spec(Backend::TarZstd, input@)) {
            (Ok((name, tree)), Ok((n, t))) => name@ == n && tree == t,
            (Err(e), Err(f)) => e == f,
            _ => false,
        },
{
    Backend::TarZstd.decompress_target(input)
}

} // verus!
