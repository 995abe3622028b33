//! Snapshot files: how they are named, which names are snapshots, the order
//! in which they are tried, and when a loaded snapshot is consistent.

use vstd::prelude::*;
use vstd::string::*;
use crate::text::{decimal, decimal_value, is_digit, lemma_decimal_digits, parse_u64, push_decimal, is_u64_text};

verus! {

broadcast use vstd::seq_lib::to_multiset_insert, vstd::seq_lib::to_multiset_build;

/// A file path, carried through unopened.
#[verifier::external_type_specification]
#[verifier::external_body]
pub struct ExPathBuf(std::path::PathBuf);

/// An I/O failure, carried through unopened.
#[verifier::external_type_specification]
#[verifier::external_body]
pub struct ExIoError(std::io::Error);

/// A snapshot file found on disk, with what its name says.
#[derive(Debug, Clone)]
pub struct SnapshotMetadata {
    pub path: std::path::PathBuf,
    pub tick_count: u64,
    pub timestamp: u64,
    pub file_size: u64,
}

/// Why a snapshot could not be saved or loaded.
#[derive(Debug)]
pub enum SnapshotError {
    Io(std::io::Error),
    Serialize(String),
    Deserialize(String),
    Corrupt(std::path::PathBuf),
    NoValidSnapshots,
}

impl From<std::io::Error> for SnapshotError {
    fn from(e: std::io::Error) -> (r: SnapshotError)
        ensures
            r == SnapshotError::Io(e),
    {
        SnapshotError::Io(e)
    }
}

impl vstd::std_specs::convert::FromSpecImpl<std::io::Error> for SnapshotError {
    open spec fn obeys_from_spec() -> bool {
        true
    }

    open spec fn from_spec(e: std::io::Error) -> SnapshotError {
        SnapshotError::Io(e)
    }
}

/// Relies on `PathBuf::clone`: the copy is the same path.
pub assume_specification[ <std::path::PathBuf as Clone>::clone ](p: &std::path::PathBuf) -> (r: std::path::PathBuf)
    ensures
        r == *p,
;

/// Relies on `std::io::Error`'s `Display`.
#[verifier::external_body]
fn io_error_text(e: &std::io::Error) -> String {
    e.to_string()
}

/// Relies on `Path::display`.
#[verifier::external_body]
fn path_text(p: &std::path::PathBuf) -> String {
    p.display().to_string()
}

impl SnapshotError {
    /// Human-readable description of the error.
    pub fn message(&self) -> (r: String)
        ensures
            self is Io ==> exists|t: Seq<char>| r@ == "I/O error: "@ + t,
            self is Corrupt ==> exists|t: Seq<char>| r@ == "Corrupt snapshot: "@ + t,
            self matches SnapshotError::Serialize(e) ==> r@ == "Serialization error: "@ + e@,
            self matches SnapshotError::Deserialize(e) ==> r@ == "Deserialization error: "@ + e@,
            self matches SnapshotError::NoValidSnapshots ==> r@
                == "No valid snapshots found. Generate a new world with: worldground generate"@,
    {
        match self {
            SnapshotError::Io(e) => {
                let mut s = String::from_str("I/O error: ");
                let t = io_error_text(e);
                s.append(t.as_str());
                assert(s@ == "I/O error: "@ + t@);
                s
            },
            SnapshotError::Serialize(e) => {
                let mut s = String::from_str("Serialization error: ");
                s.append(e.as_str());
                s
            },
            SnapshotError::Deserialize(e) => {
                let mut s = String::from_str("Deserialization error: ");
                s.append(e.as_str());
                s
            },
            SnapshotError::Corrupt(p) => {
                let mut s = String::from_str("Corrupt snapshot: ");
                let t = path_text(p);
                s.append(t.as_str());
                assert(s@ == "Corrupt snapshot: "@ + t@);
                s
            },
            SnapshotError::NoValidSnapshots => String::from_str(
                "No valid snapshots found. Generate a new world with: worldground generate",
            ),
        }
    }
}

/// `world-tick{tick}-{timestamp}.bin`.
pub open spec fn snapshot_name(tick: u64, timestamp: u64) -> Seq<char> {
    "world-tick"@ + decimal(tick as nat) + "-"@ + decimal(timestamp as nat) + ".bin"@
}

/// Index of the first `-` in `s`, if any.
pub open spec fn first_dash(s: Seq<char>) -> Option<int> {
    if exists|i: int| 0 <= i < s.len() && s[i] == '-' {
        Some(choose|i: int| 0 <= i < s.len() && s[i] == '-' && forall|j: int| 0 <= j < i ==> s[j] != '-')
    } else {
        None
    }
}

/// Text that reads as a `u64`: an optional `+` and then digits.
pub open spec fn u64_field(s: Seq<char>) -> Option<u64> {
    if s.len() > 0 && s[0] == '+' && is_u64_text(s.drop_first()) {
        Some(decimal_value(s.drop_first()) as u64)
    } else if is_u64_text(s) {
        Some(decimal_value(s) as u64)
    } else {
        None
    }
}

/// What a file name says of a snapshot: `world-tick{N}-{T}.bin` with both
/// numbers read as `u64`, split at the first `-` after the prefix.
pub open spec fn parsed_name(s: Seq<char>) -> Option<(u64, u64)> {
    if s.len() >= 14 && s.take(10) == "world-tick"@ && s.skip(s.len() - 4) == ".bin"@ {
        let rest = s.subrange(10, s.len() - 4);
        match first_dash(rest) {
            None => None,
            Some(d) => match (u64_field(rest.take(d)), u64_field(rest.skip(d + 1))) {
                (Some(tick), Some(ts)) => Some((tick, ts)),
                _ => None,
            },
        }
    } else {
        None
    }
}

/// File name of the snapshot of tick `tick_count` written at `timestamp`.
pub fn snapshot_filename(tick_count: u64, timestamp: u64) -> (r: String)
    ensures
        r@ == snapshot_name(tick_count, timestamp),
{
    let mut s = String::from_str("world-tick");
    push_decimal(&mut s, tick_count);
    s.append("-");
    push_decimal(&mut s, timestamp);
    s.append(".bin");
    s
}

fn parse_u64_field(s: &str) -> (r: Option<u64>)
    ensures
        r == u64_field(s@),
{
    let n = s.unicode_len();
    if n > 0 && s.get_char(0) == '+' {
        let tail = s.substring_char(1, n);
        assert(tail@ =~= s@.drop_first());
        match parse_u64(tail) {
            Some(v) => return Some(v),
            None => {},
        }
    }
    let r = parse_u64(s);
    proof {
        if s@.len() > 0 && s@[0] == '+' {
            assert(!is_digit(s@[0]));
            assert(!is_u64_text(s@));
        }
    }
    r
}

/// Reads tick count and timestamp from a snapshot file name; `None` for any
/// other name.
pub fn parse_snapshot_filename(filename: &str) -> (r: Option<(u64, u64)>)
    ensures
        r == parsed_name(filename@),
{
    proof {
        reveal_strlit("world-tick");
        reveal_strlit(".bin");
    }
    let n = filename.unicode_len();
    if n < 14 {
        return None;
    }
    let prefix = filename.substring_char(0, 10);
    let suffix = filename.substring_char(n - 4, n);
    assert(prefix@ =~= filename@.take(10));
    assert(suffix@ =~= filename@.skip(n - 4));
    if !crate::text::text_eq(prefix, "world-tick") || !crate::text::text_eq(suffix, ".bin") {
        return None;
    }
    let rest = filename.substring_char(10, n - 4);
    let m = rest.unicode_len();
    let mut d: usize = 0;
    while d < m && rest.get_char(d) != '-'
        invariant
            m == rest@.len(),
            d <= m,
            forall|j: int| 0 <= j < d ==> rest@[j] != '-',
        decreases m - d,
    {
        d += 1;
    }
    if d == m {
        assert(!(exists|i: int| 0 <= i < rest@.len() && rest@[i] == '-'));
        return None;
    }
    proof {
        assert(rest@[d as int] == '-');
        let c = choose|i: int| 0 <= i < rest@.len() && rest@[i] == '-' && forall|j: int| 0 <= j < i ==> rest@[j] != '-';
        assert(c == d);
    }
    let tick_text = rest.substring_char(0, d);
    let ts_text = rest.substring_char(d + 1, m);
    assert(tick_text@ =~= rest@.take(d as int));
    assert(ts_text@ =~= rest@.skip(d + 1));
    match (parse_u64_field(tick_text), parse_u64_field(ts_text)) {
        (Some(tick), Some(ts)) => Some((tick, ts)),
        _ => None,
    }
}

/// Every name that `snapshot_filename` writes reads back as the same tick
/// count and timestamp.
pub proof fn lemma_snapshot_name_round_trip(tick: u64, timestamp: u64)
    ensures
        parsed_name(snapshot_name(tick, timestamp)) == Some((tick, timestamp)),
{
    reveal_strlit("world-tick");
    reveal_strlit("-");
    reveal_strlit(".bin");
    lemma_decimal_digits(tick as nat);
    lemma_decimal_digits(timestamp as nat);
    let dt = decimal(tick as nat);
    let ds = decimal(timestamp as nat);
    let s = snapshot_name(tick, timestamp);
    assert(s.take(10) =~= "world-tick"@);
    assert(s.skip(s.len() - 4) =~= ".bin"@);
    let rest = s.subrange(10, s.len() - 4);
    assert(rest =~= dt + "-"@ + ds);
    let d = dt.len() as int;
    assert(rest[d] == '-');
    assert forall|j: int| 0 <= j < d implies rest[j] != '-' by {
        assert(rest[j] == dt[j]);
        assert(is_digit(dt[j]));
    }
    let c = choose|i: int| 0 <= i < rest.len() && rest[i] == '-' && forall|j: int| 0 <= j < i ==> rest[j] != '-';
    assert(c == d);
    assert(first_dash(rest) == Some(d));
    assert(rest.take(d) =~= dt);
    assert(rest.skip(d + 1) =~= ds);
    assert(!(dt[0] == '+'));
    assert(!(ds[0] == '+'));
}

/// Whether `a` comes no later than `b` in newest-first order: later
/// timestamp first, then higher tick count.
pub open spec fn newer_or_same(a: SnapshotMetadata, b: SnapshotMetadata) -> bool {
    a.timestamp > b.timestamp || (a.timestamp == b.timestamp && a.tick_count >= b.tick_count)
}

pub open spec fn newest_first(s: Seq<SnapshotMetadata>) -> bool {
    forall|i: int, j: int| 0 <= i < j < s.len() ==> newer_or_same(#[trigger] s[i], #[trigger] s[j])
}

fn is_strictly_newer(a: &SnapshotMetadata, b: &SnapshotMetadata) -> (r: bool)
    ensures
        r == !newer_or_same(*b, *a),
{
    a.timestamp > b.timestamp || (a.timestamp == b.timestamp && a.tick_count > b.tick_count)
}

/// Orders snapshots newest first: by timestamp, then by tick count, both
/// descending. Snapshots that tie keep their relative order.
pub fn sort_newest_first(snapshots: Vec<SnapshotMetadata>) -> (r: Vec<SnapshotMetadata>)
    ensures
        newest_first(r@),
        r@.to_multiset() == snapshots@.to_multiset(),
{
    let ghost all = snapshots@;
    let n = snapshots.len();
    let mut rest = snapshots;
    let mut out: Vec<SnapshotMetadata> = Vec::new();
    let mut i: usize = 0;
    assert(out@ =~= all.take(0));
    while i < n
        invariant
            n == all.len(),
            i <= n,
            rest@ == all.subrange(i as int, n as int),
            newest_first(out@),
            out@.to_multiset() == all.take(i as int).to_multiset(),
        decreases n - i,
    {
        let e = rest.remove(0);
        let mut j: usize = 0;
        while j < out.len() && !is_strictly_newer(&e, &out[j])
            invariant
                j <= out.len(),
                forall|k: int| 0 <= k < j ==> newer_or_same(#[trigger] out@[k], e),
            decreases out.len() - j,
        {
            j += 1;
        }
        let ghost before = out@;
        out.insert(j, e);
        proof {
            assert(all.take(i + 1) =~= all.take(i as int).push(e));
            assert forall|a: int, b: int| 0 <= a < b < out@.len() implies
                newer_or_same(#[trigger] out@[a], #[trigger] out@[b]) by {
                if a < j && b == j {
                } else if a == j && b > j {
                    assert(out@[b] == before[b - 1]);
                    if j < before.len() {
                        assert(newer_or_same(before[j as int], before[b - 1]) || b - 1 == j);
                    }
                } else if a < j && b > j {
                    assert(out@[b] == before[b - 1]);
                } else if a > j {
                    assert(out@[a] == before[a - 1]);
                    assert(out@[b] == before[b - 1]);
                }
            }
        }
        i += 1;
        assert(rest@ =~= all.subrange(i as int, n as int));
    }
    assert(all.take(n as int) =~= all);
    out
}

/// The snapshots that pruning removes: all but the first `max_snapshots` of
/// a newest-first list.
pub fn prune_candidates(snapshots: &Vec<SnapshotMetadata>, max_snapshots: usize) -> (r: Vec<std::path::PathBuf>)
    ensures
        snapshots@.len() <= max_snapshots ==> r@.len() == 0,
        snapshots@.len() > max_snapshots ==> r@.len() == snapshots@.len() - max_snapshots
            && forall|k: int| 0 <= k < r@.len() ==> r@[k] == #[trigger] snapshots@[max_snapshots + k].path,
{
    let mut out: Vec<std::path::PathBuf> = Vec::new();
    let mut i: usize = max_snapshots;
    while i < snapshots.len()
        invariant
            max_snapshots <= i,
            i <= snapshots.len() || snapshots.len() <= max_snapshots,
            snapshots.len() <= max_snapshots ==> i == max_snapshots,
            out@.len() == i - max_snapshots,
            forall|k: int| 0 <= k < out@.len() ==> out@[k] == #[trigger] snapshots@[max_snapshots + k].path,
        decreases snapshots.len() - i,
    {
        out.push(snapshots[i].path.clone());
        i += 1;
    }
    out
}


/// A loaded snapshot is consistent when its cell list has the length its
/// header records (compared as `u32`, as the header stores it).
pub fn check_tile_count(path: &std::path::PathBuf, cell_count: usize, tile_count: u32) -> (r: Result<(), SnapshotError>)
    ensures
        r is Ok <==> (cell_count as u32) == tile_count,
        r matches Err(e) ==> e == SnapshotError::Corrupt(*path),
{
    if cell_count as u32 != tile_count {
        Err(SnapshotError::Corrupt(path.clone()))
    } else {
        Ok(())
    }
}

} // verus!
