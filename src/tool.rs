use crate::backend::{level_in_domain, Backend};
use crate::error::ArchiveError;
use vstd::prelude::*;
use vstd::string::*;

verus! {

/// The text of a dwarfs level, one decimal digit.
pub open spec fn level_text(level: int) -> Seq<char> {
    if level == 0 {
        "0"@
    } else if level == 1 {
        "1"@
    } else if level == 2 {
        "2"@
    } else if level == 3 {
        "3"@
    } else if level == 4 {
        "4"@
    } else if level == 5 {
        "5"@
    } else if level == 6 {
        "6"@
    } else if level == 7 {
        "7"@
    } else if level == 8 {
        "8"@
    } else {
        "9"@
    }
}

pub open spec fn texts(v: Seq<String>) -> Seq<Seq<char>> {
    v.map_values(|s: String| s@)
}

/// `mkdwarfs -i <input> -o <output>`, with `-l <level>` when a level is given.
pub open spec fn mkdwarfs_args_spec(input: Seq<char>, output: Seq<char>, level: Option<i32>) -> Seq<Seq<char>> {
    let base = seq!["-i"@, input, "-o"@, output];
    match level {
        Some(l) => base + seq!["-l"@, level_text(l as int)],
        None => base,
    }
}

fn level_string(level: i32) -> (r: String)
    requires
        0 <= level <= 9,
    ensures
        r@ == level_text(level as int),
{
    let t = if level == 0 {
        "0"
    } else if level == 1 {
        "1"
    } else if level == 2 {
        "2"
    } else if level == 3 {
        "3"
    } else if level == 4 {
        "4"
    } else if level == 5 {
        "5"
    } else if level == 6 {
        "6"
    } else if level == 7 {
        "7"
    } else if level == 8 {
        "8"
    } else {
        "9"
    };
    String::from_str(t)
}

/// Arguments for building a dwarfs image; a level outside 0..=9 is refused.
pub fn mkdwarfs_args(input: &str, output: &str, level: Option<i32>) -> (r: Result<Vec<String>, ArchiveError>)
    ensures
        (level matches Some(l) && !level_in_domain(Backend::Dwarfs, l as int)) ==> r == Err::<Vec<String>, ArchiveError>(ArchiveError::LevelOutOfRange),
        !(level matches Some(l) && !level_in_domain(Backend::Dwarfs, l as int)) ==> (r matches Ok(v)
            && texts(v@) == mkdwarfs_args_spec(input@, output@, level)),
{
    let mut v: Vec<String> = Vec::new();
    v.push(String::from_str("-i"));
    v.push(String::from_str(input));
    v.push(String::from_str("-o"));
    v.push(String::from_str(output));
    match level {
        Some(l) => {
            let l = Backend::Dwarfs.validate_level(l)?;
            v.push(String::from_str("-l"));
            v.push(level_string(l));
        },
        None => {},
    }
    assert(texts(v@) =~= mkdwarfs_args_spec(input@, output@, level));
    Ok(v)
}

/// Arguments for unpacking a dwarfs image: `-i <input> -o <output>`.
pub fn dwarfsextract_args(input: &str, output: &str) -> (r: Vec<String>)
    ensures
        texts(r@) == seq!["-i"@, input@, "-o"@, output@],
{
    let mut v: Vec<String> = Vec::new();
    v.push(String::from_str("-i"));
    v.push(String::from_str(input));
    v.push(String::from_str("-o"));
    v.push(String::from_str(output));
    assert(texts(v@) =~= seq!["-i"@, input@, "-o"@, output@]);
    v
}

/// Arguments for mounting a dwarfs image: `<input> <dest>`.
pub fn mount_args(input: &str, dest: &str) -> (r: Vec<String>)
    ensures
        texts(r@) == seq![input@, dest@],
{
    let mut v: Vec<String> = Vec::new();
    v.push(String::from_str(input));
    v.push(String::from_str(dest));
    assert(texts(v@) =~= seq![input@, dest@]);
    v
}

pub open spec fn occurs_at(hay: Seq<char>, needle: Seq<char>, i: int) -> bool {
    0 <= i && i + needle.len() <= hay.len() && hay.subrange(i, i + needle.len()) == needle
}

pub open spec fn contains_spec(hay: Seq<char>, needle: Seq<char>) -> bool {
    exists|i: int| occurs_at(hay, needle, i)
}

fn occurs_here(hay: &str, needle: &str, i: usize) -> (r: bool)
    requires
        i + needle@.len() <= hay@.len(),
    ensures
        r == occurs_at(hay@, needle@, i as int),
{
    let n = hay.unicode_len();
    let m = needle.unicode_len();
    let mut j: usize = 0;
    while j < m
        invariant
            n == hay@.len(),
            m == needle@.len(),
            i + m <= hay@.len(),
            j <= m,
            forall|k: int| 0 <= k < j ==> hay@[i + k] == needle@[k],
        decreases m - j,
    {
        if hay.get_char(i + j) != needle.get_char(j) {
            assert(hay@.subrange(i as int, i + m)[j as int] != needle@[j as int]);
            return false;
        }
        j = j + 1;
    }
    assert(hay@.subrange(i as int, i + m) =~= needle@);
    true
}

fn contains(hay: &str, needle: &str) -> (r: bool)
    ensures
        r == contains_spec(hay@, needle@),
{
    let n = hay.unicode_len();
    let m = needle.unicode_len();
    if m > n {
        return false;
    }
    let last = n - m;
    let mut i: usize = 0;
    while i < last
        invariant
            n == hay@.len(),
            m == needle@.len(),
            last == n - m,
            i <= last,
            forall|k: int| 0 <= k < i ==> !occurs_at(hay@, needle@, k),
        decreases last - i,
    {
        if occurs_here(hay, needle, i) {
            return true;
        }
        i = i + 1;
    }
    if occurs_here(hay, needle, last) {
        return true;
    }
    assert forall|k: int| !occurs_at(hay@, needle@, k) by {
        if k > last {
            assert(k + m > n);
        }
    }
    false
}

/// Whether a failed mount's error output shows that the WinFsp driver is
/// missing (the text `FSD not found`), so that an install hint is due.
pub fn mount_needs_winfsp(stderr: &str) -> (r: bool)
    ensures
        r == contains_spec(stderr@, "FSD not found"@),
{
    contains(stderr, "FSD not found")
}

/// How a mount attempt ended.
#[derive(Debug, Clone, Copy, PartialEq, Eq, Structural)]
pub enum MountOutcome {
    Mounted,
    /// The tool failed; its error output is to be shown as it is.
    Failed,
    /// The tool failed because the WinFsp driver is missing: show its error
    /// output and an install hint.
    DriverMissing,
}

/// Classifies a finished mount run by its exit status and error output.
pub fn classify_mount(exit_success: bool, stderr: &str) -> (r: MountOutcome)
    ensures
        exit_success ==> r == MountOutcome::Mounted,
        !exit_success && contains_spec(stderr@, "FSD not found"@) ==> r == MountOutcome::DriverMissing,
        !exit_success && !contains_spec(stderr@, "FSD not found"@) ==> r == MountOutcome::Failed,
{
    if exit_success {
        MountOutcome::Mounted
    } else if mount_needs_winfsp(stderr) {
        MountOutcome::DriverMissing
    } else {
        MountOutcome::Failed
    }
}

/// Drive `k` (0 for A, 25 for Z) is in use in a logical-drive bit mask.
pub open spec fn drive_used(mask: u32, k: u32) -> bool {
    mask & (1u32 << k) != 0
}

pub open spec fn drive_letter(k: u32) -> char {
    (65 + k) as char
}

/// The last unused drive letter from Z down to A in a logical-drive bit mask
/// (bit 0 for A), or none when all 26 are in use.
pub fn get_first_unused_drive_letter(drives_mask: u32) -> (r: Option<char>)
    ensures
        r matches Some(c) ==> exists|k: u32| k < 26 && c == drive_letter(k) && !drive_used(drives_mask, k)
            && forall|j: u32| k < j < 26 ==> drive_used(drives_mask, j),
        r is None ==> forall|k: u32| k < 26 ==> drive_used(drives_mask, k),
{
    let mut k: u32 = 26;
    while k > 0
        invariant
            k <= 26,
            forall|j: u32| k <= j < 26 ==> drive_used(drives_mask, j),
        decreases k,
    {
        let i = k - 1;
        if drives_mask & (1u32 << i) == 0 {
            let c = (65u8 + i as u8) as char;
            assert(c == drive_letter(i));
            return Some(c);
        }
        k = i;
    }
    None
}

} // verus!
