use std::path::PathBuf;

use worldground::snapshot::{
    check_tile_count, parse_snapshot_filename, prune_candidates, snapshot_filename,
    sort_newest_first, SnapshotError, SnapshotMetadata,
};

fn meta(name: &str, tick_count: u64, timestamp: u64) -> SnapshotMetadata {
    SnapshotMetadata { path: PathBuf::from(name), tick_count, timestamp, file_size: 0 }
}

#[test]
fn snapshot_filename_parse_round_trip() {
    let filename = snapshot_filename(500, 1708300000);
    assert_eq!(filename, "world-tick500-1708300000.bin");

    let (tick, ts) = parse_snapshot_filename(&filename).unwrap();
    assert_eq!(tick, 500);
    assert_eq!(ts, 1708300000);
}

#[test]
fn parse_invalid_filename_returns_none() {
    assert!(parse_snapshot_filename("random.bin").is_none());
    assert!(parse_snapshot_filename("world-tick.bin").is_none());
    assert!(parse_snapshot_filename("world-tickabc-123.bin").is_none());
    assert!(parse_snapshot_filename("world-tick100-abc.bin").is_none());
    assert!(parse_snapshot_filename("not-a-snapshot.txt").is_none());
}

#[test]
fn filename_extremes_round_trip() {
    for &(t, s) in &[(0u64, 0u64), (u64::MAX, u64::MAX), (7, 10), (1234567890, 9)] {
        let name = snapshot_filename(t, s);
        assert_eq!(parse_snapshot_filename(&name), Some((t, s)));
    }
    assert_eq!(snapshot_filename(0, 0), "world-tick0-0.bin");
}

#[test]
fn parse_edge_cases() {
    assert_eq!(parse_snapshot_filename("world-tick+5-7.bin"), Some((5, 7)));
    assert_eq!(parse_snapshot_filename("world-tick007-010.bin"), Some((7, 10)));
    assert_eq!(parse_snapshot_filename("world-tick1-2-3.bin"), None);
    assert_eq!(parse_snapshot_filename("world-tick18446744073709551616-1.bin"), None);
    assert_eq!(parse_snapshot_filename("world-tick-1.bin"), None);
    assert_eq!(parse_snapshot_filename(".world-tick1-2.bin.tmp"), None);
    assert_eq!(parse_snapshot_filename("world-tick1-2.bin.tmp"), None);
    assert_eq!(parse_snapshot_filename("world-tick+-2.bin"), None);
}

#[test]
fn sort_orders_newest_first_with_tick_tiebreak() {
    let sorted = sort_newest_first(vec![
        meta("a", 100, 1000),
        meta("b", 300, 3000),
        meta("c", 200, 2000),
        meta("d", 250, 2000),
    ]);
    let names: Vec<String> =
        sorted.iter().map(|m| m.path.to_string_lossy().into_owned()).collect();
    assert_eq!(names, vec!["b", "d", "c", "a"]);
}

#[test]
fn sort_empty_and_single() {
    assert!(sort_newest_first(Vec::new()).is_empty());
    let one = sort_newest_first(vec![meta("x", 1, 1)]);
    assert_eq!(one.len(), 1);
    assert_eq!(one[0].tick_count, 1);
}

#[test]
fn prune_keeps_the_newest() {
    let list = vec![meta("n1", 5, 50), meta("n2", 4, 40), meta("n3", 3, 30), meta("n4", 2, 20)];
    let gone = prune_candidates(&list, 2);
    assert_eq!(gone, vec![PathBuf::from("n3"), PathBuf::from("n4")]);
    assert!(prune_candidates(&list, 4).is_empty());
    assert!(prune_candidates(&list, 10).is_empty());
}

#[test]
fn tile_count_check_reports_corrupt_path() {
    let p = PathBuf::from("snap.bin");
    assert!(check_tile_count(&p, 200, 200).is_ok());
    match check_tile_count(&p, 199, 200) {
        Err(SnapshotError::Corrupt(path)) => assert_eq!(path, p),
        other => panic!("unexpected {:?}", other),
    }
}

#[test]
fn error_messages() {
    assert_eq!(
        SnapshotError::NoValidSnapshots.message(),
        "No valid snapshots found. Generate a new world with: worldground generate"
    );
    assert_eq!(SnapshotError::Serialize("x".to_string()).message(), "Serialization error: x");
    assert_eq!(SnapshotError::Deserialize("y".to_string()).message(), "Deserialization error: y");
    assert_eq!(
        SnapshotError::Corrupt(PathBuf::from("a.bin")).message(),
        "Corrupt snapshot: a.bin"
    );
    let io = std::io::Error::new(std::io::ErrorKind::Other, "boom");
    assert_eq!(SnapshotError::from(io).message(), "I/O error: boom");
}
