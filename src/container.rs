use crate::error::ArchiveError;
use vstd::bytes::*;
use vstd::prelude::*;
use vstd::slice::*;

verus! {

/// One record of a tree container: a root-relative path, whether it names a
/// directory, and the file's bytes (empty for a directory).
#[derive(Debug, Clone, PartialEq, Eq)]
pub struct Entry {
    pub path: Vec<u8>,
    pub is_dir: bool,
    pub data: Vec<u8>,
}

/// The mathematical value of an [`Entry`].
pub struct Record {
    pub path: Seq<u8>,
    pub is_dir: bool,
    pub data: Seq<u8>,
}

impl View for Entry {
    type V = Record;

    open spec fn view(&self) -> Record {
        Record { path: self.path@, is_dir: self.is_dir, data: self.data@ }
    }
}

pub open spec fn entries_view(es: Seq<Entry>) -> Seq<Record> {
    es.map_values(|e: Entry| e@)
}

pub open spec fn is_separator(c: u8) -> bool {
    c == 47 || c == 92
}

/// `p` holds a `..` segment starting at index `i`.
pub open spec fn parent_segment_at(p: Seq<u8>, i: int) -> bool {
    &&& 0 <= i
    &&& i + 1 < p.len()
    &&& p[i] == 46
    &&& p[i + 1] == 46
    &&& (i == 0 || is_separator(p[i - 1]))
    &&& (i + 2 == p.len() || is_separator(p[i + 2]))
}

/// Byte `i` of `p` is a drive or stream marker (`:`), a NUL, or a separator
/// that ends the path or is followed by another (an empty segment).
pub open spec fn bad_byte_at(p: Seq<u8>, i: int) -> bool {
    p[i] == 58 || p[i] == 0 || (is_separator(p[i]) && (i + 1 == p.len() || is_separator(p[i + 1])))
}

/// A path that stays below the directory it is joined to: not empty, not
/// rooted, with no `:`, no NUL, no empty segment and no `..` segment.
pub open spec fn safe_path(p: Seq<u8>) -> bool {
    &&& p.len() > 0
    &&& !is_separator(p[0])
    &&& forall|i: int| 0 <= i < p.len() ==> !bad_byte_at(p, i)
    &&& forall|i: int| !parent_segment_at(p, i)
}

/// What follows the first separator of `p` (the part below the archived
/// root), or nothing where `p` names the root itself.
pub open spec fn below_root(p: Seq<u8>) -> Seq<u8>
    decreases p.len(),
{
    if p.len() == 0 {
        seq![]
    } else if is_separator(p[0]) {
        p.drop_first()
    } else {
        below_root(p.drop_first())
    }
}

proof fn lemma_below_root_from(p: Seq<u8>, i: int)
    requires
        0 <= i <= p.len(),
        forall|j: int| 0 <= j < i ==> !is_separator(p[j]),
    ensures
        below_root(p) == below_root(p.subrange(i, p.len() as int)),
    decreases i,
{
    if i > 0 {
        assert(p.drop_first().subrange(i - 1, p.len() - 1) =~= p.subrange(i, p.len() as int));
        lemma_below_root_from(p.drop_first(), i - 1);
    } else {
        assert(p.subrange(0, p.len() as int) =~= p);
    }
}

proof fn lemma_below_root_safe(p: Seq<u8>, k: int)
    requires
        safe_path(p),
        0 <= k < p.len(),
        is_separator(p[k]),
        forall|j: int| 0 <= j < k ==> !is_separator(p[j]),
    ensures
        safe_path(p.subrange(k + 1, p.len() as int)),
{
    let q = p.subrange(k + 1, p.len() as int);
    assert(!bad_byte_at(p, k));
    assert(q.len() > 0);
    assert(q[0] == p[k + 1]);
    assert forall|i: int| 0 <= i < q.len() implies !bad_byte_at(q, i) by {
        assert(!bad_byte_at(p, k + 1 + i));
        assert(q[i] == p[k + 1 + i]);
        if i + 1 < q.len() {
            assert(q[i + 1] == p[k + 2 + i]);
        }
    }
    assert forall|j: int| !parent_segment_at(q, j) by {
        if parent_segment_at(q, j) {
            assert(q[j] == p[k + 1 + j] && q[j + 1] == p[k + 2 + j]);
            if j > 0 {
                assert(q[j - 1] == p[k + j]);
            }
            if j + 2 < q.len() {
                assert(q[j + 2] == p[k + 3 + j]);
            }
            assert(parent_segment_at(p, k + 1 + j));
        }
    }
}

/// The output-relative path of a record: its path with the archived root's
/// segment taken off; empty for the root itself. For a safe record path it
/// is empty or again safe: relative, with no empty and no `..` segment.
pub fn root_relative(path: &[u8]) -> (r: Vec<u8>)
    ensures
        r@ == below_root(path@),
        safe_path(path@) ==> (r@.len() == 0 || safe_path(r@)),
{
    let n = path.len();
    let mut i: usize = 0;
    while i < n
        invariant
            n == path@.len(),
            i <= n,
            forall|j: int| 0 <= j < i ==> !is_separator(path@[j]),
        decreases n - i,
    {
        if path[i] == 47 || path[i] == 92 {
            let r = slice_to_vec(slice_subrange(path, i + 1, n));
            proof {
                lemma_below_root_from(path@, i as int);
                let rest = path@.subrange(i as int, n as int);
                assert(rest.drop_first() =~= r@);
                if safe_path(path@) {
                    lemma_below_root_safe(path@, i as int);
                }
            }
            return r;
        }
        i = i + 1;
    }
    proof {
        lemma_below_root_from(path@, n as int);
        assert(path@.subrange(n as int, n as int).len() == 0);
    }
    Vec::new()
}

pub open spec fn kind_byte(is_dir: bool) -> u8 {
    if is_dir {
        1
    } else {
        0
    }
}

/// Kind byte, path length (8 bytes, little endian), path, data length, data.
pub open spec fn record_bytes(r: Record) -> Seq<u8> {
    seq![kind_byte(r.is_dir)] + spec_u64_to_le_bytes(r.path.len() as u64) + r.path
        + spec_u64_to_le_bytes(r.data.len() as u64) + r.data
}

/// The container: the records' encodings one after another.
pub open spec fn container_bytes(rs: Seq<Record>) -> Seq<u8>
    decreases rs.len(),
{
    if rs.len() == 0 {
        seq![]
    } else {
        container_bytes(rs.drop_last()) + record_bytes(rs.last())
    }
}

pub open spec fn fits_u64(r: Record) -> bool {
    r.path.len() <= u64::MAX && r.data.len() <= u64::MAX
}

/// The first record of `b` and the number of bytes it takes.
pub open spec fn parse_record(b: Seq<u8>) -> Result<(Record, int), ArchiveError> {
    if b.len() < 9 || b[0] > 1 {
        Err(ArchiveError::CorruptArchive)
    } else {
        let plen = spec_u64_from_le_bytes(b.subrange(1, 9)) as int;
        if b.len() < 17 + plen {
            Err(ArchiveError::CorruptArchive)
        } else {
            let dlen = spec_u64_from_le_bytes(b.subrange(9 + plen, 17 + plen)) as int;
            if b.len() < 17 + plen + dlen {
                Err(ArchiveError::CorruptArchive)
            } else if !safe_path(b.subrange(9, 9 + plen)) {
                Err(ArchiveError::UnsafePath)
            } else {
                Ok(
                    (
                        Record {
                            path: b.subrange(9, 9 + plen),
                            is_dir: b[0] == 1,
                            data: b.subrange(17 + plen, 17 + plen + dlen),
                        },
                        17 + plen + dlen,
                    ),
                )
            }
        }
    }
}

/// The records that `b` holds, or the first error met reading it from the front.
pub open spec fn parse_container(b: Seq<u8>) -> Result<Seq<Record>, ArchiveError>
    decreases b.len(),
{
    if b.len() == 0 {
        Ok(seq![])
    } else {
        match parse_record(b) {
            Err(e) => Err(e),
            Ok((r, n)) => if n <= 0 || n > b.len() {
                Err(ArchiveError::CorruptArchive)
            } else {
                prepend(seq![r], parse_container(b.subrange(n, b.len() as int)))
            },
        }
    }
}

pub open spec fn prepend(front: Seq<Record>, rest: Result<Seq<Record>, ArchiveError>) -> Result<Seq<Record>, ArchiveError> {
    match rest {
        Ok(rs) => Ok(front + rs),
        Err(e) => Err(e),
    }
}

proof fn lemma_parse_record_length(b: Seq<u8>)
    ensures
        parse_record(b) matches Ok((r, n)) ==> 17 <= n <= b.len(),
{
}

proof fn lemma_parse_record_of(r: Record, rest: Seq<u8>)
    requires
        safe_path(r.path),
        fits_u64(r),
    ensures
        parse_record(record_bytes(r) + rest) == Ok::<(Record, int), ArchiveError>((r, record_bytes(r).len() as int)),
{
    lemma_auto_spec_u64_to_from_le_bytes();
    let b = record_bytes(r) + rest;
    let pl = spec_u64_to_le_bytes(r.path.len() as u64);
    let dl = spec_u64_to_le_bytes(r.data.len() as u64);
    let plen = r.path.len() as int;
    let dlen = r.data.len() as int;
    assert(pl.len() == 8 && dl.len() == 8);
    assert(b.subrange(1, 9) =~= pl);
    assert(b.subrange(9, 9 + plen) =~= r.path);
    assert(b.subrange(9 + plen, 17 + plen) =~= dl);
    assert(b.subrange(17 + plen, 17 + plen + dlen) =~= r.data);
    let (q, n) = parse_record(b).unwrap();
    assert(q.path == r.path && q.data == r.data && q.is_dir == r.is_dir);
}

proof fn lemma_container_front(rs: Seq<Record>)
    requires
        rs.len() > 0,
    ensures
        container_bytes(rs) == record_bytes(rs[0]) + container_bytes(rs.drop_first()),
    decreases rs.len(),
{
    if rs.len() == 1 {
        assert(rs.drop_last() =~= seq![]);
        assert(rs.drop_first() =~= seq![]);
        assert(container_bytes(rs) =~= record_bytes(rs[0]) + container_bytes(rs.drop_first()));
    } else {
        lemma_container_front(rs.drop_last());
        assert(rs.drop_last().drop_first() =~= rs.drop_first().drop_last());
        assert(rs.drop_first().last() == rs.last());
        assert(rs.drop_last()[0] == rs[0]);
        assert(container_bytes(rs) =~= record_bytes(rs[0]) + container_bytes(rs.drop_first()));
    }
}

/// Reading a container back gives the records it was written from, provided
/// every path is safe.
pub proof fn law_container_round_trip(rs: Seq<Record>)
    requires
        forall|i: int| 0 <= i < rs.len() ==> safe_path(#[trigger] rs[i].path) && fits_u64(rs[i]),
    ensures
        parse_container(container_bytes(rs)) == Ok::<Seq<Record>, ArchiveError>(rs),
    decreases rs.len(),
{
    if rs.len() == 0 {
        assert(rs =~= seq![]);
    } else {
        lemma_container_front(rs);
        let rest = container_bytes(rs.drop_first());
        let b = container_bytes(rs);
        lemma_parse_record_of(rs[0], rest);
        let n = record_bytes(rs[0]).len() as int;
        assert(b.subrange(n, b.len() as int) =~= rest);
        law_container_round_trip(rs.drop_first());
        assert(b.len() >= n && n >= 17);
        assert(parse_record(b) == Ok::<(Record, int), ArchiveError>((rs[0], n)));
        assert(seq![rs[0]] + rs.drop_first() =~= rs);
    }
}

/// Every record that a container yields has a safe path.
pub proof fn law_parsed_paths_are_safe(b: Seq<u8>)
    ensures
        parse_container(b) matches Ok(rs) ==> forall|i: int| 0 <= i < rs.len() ==> safe_path(#[trigger] rs[i].path),
    decreases b.len(),
{
    if b.len() > 0 {
        match parse_record(b) {
            Err(_) => {},
            Ok((r, n)) => {
                if 0 < n <= b.len() {
                    law_parsed_paths_are_safe(b.subrange(n, b.len() as int));
                    if let Ok(rest) = parse_container(b.subrange(n, b.len() as int)) {
                        let rs = seq![r] + rest;
                        assert forall|i: int| 0 <= i < rs.len() implies safe_path(#[trigger] rs[i].path) by {
                            if i > 0 {
                                assert(rs[i] == rest[i - 1]);
                            }
                        }
                    }
                }
            },
        }
    }
}

/// Whether `path` is safe to join below an output directory.
pub fn is_safe_path(path: &[u8]) -> (r: bool)
    ensures
        r == safe_path(path@),
{
    let n = path.len();
    if n == 0 || path[0] == 47 || path[0] == 92 {
        return false;
    }
    let mut i: usize = 0;
    while i < n
        invariant
            n == path@.len(),
            i <= n,
            forall|j: int| 0 <= j < i ==> !bad_byte_at(path@, j),
            forall|j: int| j < i ==> !parent_segment_at(path@, j),
        decreases n - i,
    {
        let c = path[i];
        let sep = c == 47 || c == 92;
        if c == 58 || c == 0 || (sep && (i + 1 == n || path[i + 1] == 47 || path[i + 1] == 92)) {
            assert(bad_byte_at(path@, i as int));
            return false;
        }
        if c == 46 && i + 1 < n && path[i + 1] == 46 && (i == 0 || path[i - 1] == 47
            || path[i - 1] == 92) && (i + 2 == n || path[i + 2] == 47 || path[i + 2] == 92) {
            assert(parent_segment_at(path@, i as int));
            return false;
        }
        i = i + 1;
    }
    assert forall|j: int| !parent_segment_at(path@, j) by {
        if j >= n {
            assert(!(j + 1 < n));
        }
    }
    true
}

fn push_u64(out: &mut Vec<u8>, x: u64)
    ensures
        final(out)@ == old(out)@ + spec_u64_to_le_bytes(x),
{
    let bytes = u64_to_le_bytes(x);
    let mut i: usize = 0;
    let ghost start = out@;
    proof { lemma_auto_spec_u64_to_from_le_bytes(); }
    while i < 8
        invariant
            bytes@ == spec_u64_to_le_bytes(x),
            bytes@.len() == 8,
            i <= 8,
            out@ == start + bytes@.subrange(0, i as int),
        decreases 8 - i,
    {
        out.push(bytes[i]);
        i = i + 1;
        assert(out@ =~= start + bytes@.subrange(0, i as int));
    }
    assert(bytes@.subrange(0, 8) =~= bytes@);
}

fn push_bytes(out: &mut Vec<u8>, b: &[u8])
    ensures
        final(out)@ == old(out)@ + b@,
{
    let mut i: usize = 0;
    let ghost start = out@;
    while i < b.len()
        invariant
            i <= b@.len(),
            out@ == start + b@.subrange(0, i as int),
        decreases b@.len() - i,
    {
        out.push(b[i]);
        i = i + 1;
        assert(out@ =~= start + b@.subrange(0, i as int));
    }
    assert(b@.subrange(0, b@.len() as int) =~= b@);
}

/// Serialises `entries` into one container. Every path must be safe.
pub fn pack_entries(entries: &Vec<Entry>) -> (r: Result<Vec<u8>, ArchiveError>)
    ensures
        (forall|i: int| 0 <= i < entries@.len() ==> safe_path(#[trigger] entries@[i].path@))
            ==> (r matches Ok(b) && b@ == container_bytes(entries_view(entries@))),
        !(forall|i: int| 0 <= i < entries@.len() ==> safe_path(#[trigger] entries@[i].path@))
            ==> r == Err::<Vec<u8>, ArchiveError>(ArchiveError::UnsafePath),
        r is Ok ==> forall|i: int| 0 <= i < entries@.len() ==> fits_u64(#[trigger] entries@[i]@),
{
    let mut out: Vec<u8> = Vec::new();
    let mut i: usize = 0;
    while i < entries.len()
        invariant
            i <= entries@.len(),
            forall|j: int| 0 <= j < i ==> safe_path(#[trigger] entries@[j].path@),
            forall|j: int| 0 <= j < i ==> fits_u64(#[trigger] entries@[j]@),
            out@ == container_bytes(entries_view(entries@.subrange(0, i as int))),
        decreases entries@.len() - i,
    {
        let e = &entries[i];
        if !is_safe_path(e.path.as_slice()) {
            return Err(ArchiveError::UnsafePath);
        }
        out.push(if e.is_dir { 1u8 } else { 0u8 });
        push_u64(&mut out, e.path.len() as u64);
        push_bytes(&mut out, e.path.as_slice());
        push_u64(&mut out, e.data.len() as u64);
        push_bytes(&mut out, e.data.as_slice());
        proof {
            let vs = entries_view(entries@.subrange(0, i + 1));
            assert(vs.drop_last() =~= entries_view(entries@.subrange(0, i as int)));
            assert(vs.last() == e@);
            assert(out@ =~= container_bytes(vs.drop_last()) + record_bytes(vs.last()));
        }
        i = i + 1;
    }
    assert(entries@.subrange(0, i as int) =~= entries@);
    Ok(out)
}

/// Reads every record of a container, stopping at the first malformed or
/// unsafe one.
pub fn unpack_entries(b: &[u8]) -> (r: Result<Vec<Entry>, ArchiveError>)
    ensures
        match (r, parse_container(b@)) {
            (Ok(es), Ok(rs)) => entries_view(es@) == rs,
            (Err(e), Err(f)) => e == f,
            _ => false,
        },
{
    let n = b.len();
    let mut out: Vec<Entry> = Vec::new();
    let mut pos: usize = 0;
    proof {
        assert(b@.subrange(0, n as int) =~= b@);
        assert(entries_view(out@) =~= seq![]);
        assert(prepend(seq![], parse_container(b@)) == parse_container(b@)) by {
            if let Ok(rs) = parse_container(b@) {
                assert(seq![] + rs =~= rs);
            }
        }
    }
    while pos < n
        invariant
            n == b@.len(),
            pos <= n,
            parse_container(b@) == prepend(entries_view(out@), parse_container(b@.subrange(pos as int, n as int))),
        decreases n - pos,
    {
        let ghost rest = b@.subrange(pos as int, n as int);
        let rem = n - pos;
        if rem < 9 || b[pos] > 1 {
            return Err(ArchiveError::CorruptArchive);
        }
        proof {
            lemma_parse_record_length(rest);
            assert(rest.subrange(1, 9) =~= b@.subrange(pos + 1, pos + 9));
        }
        let plen = u64_from_le_bytes(slice_subrange(b, pos + 1, pos + 9));
        if rem < 17 || ((rem - 17) as u64) < plen {
            return Err(ArchiveError::CorruptArchive);
        }
        let pl = plen as usize;
        let path_start = pos + 9;
        proof {
            assert(rest.subrange(9 + pl, 17 + pl) =~= b@.subrange(path_start + pl, path_start + pl + 8));
        }
        let dlen = u64_from_le_bytes(slice_subrange(b, path_start + pl, path_start + pl + 8));
        if ((rem - 17 - pl) as u64) < dlen {
            return Err(ArchiveError::CorruptArchive);
        }
        let dl = dlen as usize;
        let path = slice_to_vec(slice_subrange(b, path_start, path_start + pl));
        proof {
            assert(rest.subrange(9, 9 + pl) =~= path@);
        }
        if !is_safe_path(path.as_slice()) {
            return Err(ArchiveError::UnsafePath);
        }
        let d0 = path_start + pl + 8;
        let data = slice_to_vec(slice_subrange(b, d0, d0 + dl));
        let e = Entry { path, is_dir: b[pos] == 1, data };
        let next = d0 + dl;
        proof {
            assert(rest.subrange(17 + pl, 17 + pl + dl) =~= e.data@);
            let used = 17 + pl + dl;
            assert(parse_record(rest) == Ok::<(Record, int), ArchiveError>((e@, used)));
            assert(rest.subrange(used, rest.len() as int) =~= b@.subrange(next as int, n as int));
            let old_view = entries_view(out@);
            assert(entries_view(out@.push(e)) =~= old_view.push(e@));
            if let Ok(tail) = parse_container(b@.subrange(next as int, n as int)) {
                assert(old_view + (seq![e@] + tail) =~= old_view.push(e@) + tail);
            }
        }
        out.push(e);
        pos = next;
    }
    proof {
        assert(b@.subrange(pos as int, n as int) =~= seq![]);
        assert(entries_view(out@) + seq![] =~= entries_view(out@));
    }
    Ok(out)
}

} // verus!
