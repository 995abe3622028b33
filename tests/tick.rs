use worldground::config::{
    default_log_level, default_max_snapshots, default_season_length, default_snapshot_interval,
    default_websocket_port, setting_errors, TopologyConfig,
};
use worldground::spatial::{bin_index, search_bins};
use worldground::tick::{advance_tick, is_cascade, max_pressure_systems, may_spawn_system, next_biome_age};
use worldground::tile::Season;

#[test]
fn season_full_cycle_twenty_ticks() {
    let mut tick = 0u64;
    let mut season = Season::Spring;
    for _ in 0..20 {
        let (t, s) = advance_tick(tick, season, 5);
        tick = t;
        season = s;
    }
    assert_eq!(season, Season::Spring);
    assert_eq!(tick, 20);
}

#[test]
fn season_advances_at_interval() {
    assert_eq!(advance_tick(3, Season::Spring, 5), (4, Season::Spring));
    assert_eq!(advance_tick(4, Season::Spring, 5), (5, Season::Summer));
    assert_eq!(advance_tick(9, Season::Winter, 10), (10, Season::Spring));
}

#[test]
fn cascade_threshold() {
    assert!(!is_cascade(10, 100));
    assert!(is_cascade(11, 100));
    assert!(!is_cascade(5, 0));
    assert!(is_cascade(1, 9));
}

#[test]
fn system_cap_clamps() {
    assert_eq!(max_pressure_systems(0), 5);
    assert_eq!(max_pressure_systems(200), 5);
    assert_eq!(max_pressure_systems(2562), 25);
    assert_eq!(max_pressure_systems(10_000), 80);
    assert_eq!(max_pressure_systems(163_842), 80);
    assert!(may_spawn_system(4, 200));
    assert!(!may_spawn_system(5, 200));
}

#[test]
fn biome_age_saturates() {
    assert_eq!(next_biome_age(0), 1);
    assert_eq!(next_biome_age(u32::MAX), u32::MAX);
}

#[test]
fn spatial_bins() {
    assert_eq!(bin_index(0, 0), 0);
    assert_eq!(bin_index(18, 36), 17 * 36 + 35);
    // middle of the grid: full 3 x 3 block
    assert_eq!(search_bins(9, 18), vec![8 * 36 + 17, 8 * 36 + 18, 8 * 36 + 19, 9 * 36 + 17, 9 * 36 + 18, 9 * 36 + 19, 10 * 36 + 17, 10 * 36 + 18, 10 * 36 + 19]);
    // south pole row drops the row below, longitude wraps at the dateline
    assert_eq!(search_bins(0, 0), vec![35, 0, 1, 36 + 35, 36, 37]);
    assert_eq!(search_bins(17, 35), vec![16 * 36 + 34, 16 * 36 + 35, 16 * 36, 17 * 36 + 34, 17 * 36 + 35, 17 * 36]);
    assert_eq!(search_bins(18, 36).len(), 3);
}

#[test]
fn defaults() {
    assert_eq!(default_snapshot_interval(), 100);
    assert_eq!(default_max_snapshots(), 10);
    assert_eq!(default_websocket_port(), 8118);
    assert_eq!(default_season_length(), 90);
    assert_eq!(default_log_level(), "info");
    let t = TopologyConfig::default();
    assert_eq!(t.mode, "flat");
    assert_eq!(t.subdivision_level, 4);
    assert!(!t.is_geodesic());
}

#[test]
fn topology_validation() {
    let ok = TopologyConfig { mode: "geodesic".to_string(), subdivision_level: 7 };
    assert!(ok.validate().is_ok());
    let bad_level = TopologyConfig { mode: "geodesic".to_string(), subdivision_level: 8 };
    assert_eq!(bad_level.validate(), Err("subdivision_level must be 1-7, got 8".to_string()));
    let flat_any = TopologyConfig { mode: "flat".to_string(), subdivision_level: 0 };
    assert!(flat_any.validate().is_ok());
    let bad_mode = TopologyConfig { mode: "cube".to_string(), subdivision_level: 4 };
    assert_eq!(
        bad_mode.validate(),
        Err("topology.mode must be 'flat' or 'geodesic', got 'cube'".to_string())
    );
}

#[test]
fn setting_checks() {
    assert!(setting_errors(100, 10, 8118, 90, 10, "info").is_empty());
    let errs = setting_errors(0, 10, 80, 0, 10, "verbose");
    assert_eq!(errs.len(), 4);
    assert_eq!(errs[0], "snapshot_interval must be > 0, got 0. Example: snapshot_interval = 100");
    assert_eq!(errs[1], "websocket_port must be 1024-65535, got 80. Example: websocket_port = 8118");
    assert_eq!(errs[2], "season_length must be > 0, got 0. Example: season_length = 90");
    assert_eq!(
        errs[3],
        "log_level must be one of [\"error\", \"warn\", \"info\", \"debug\", \"trace\"], got 'verbose'. Example: log_level = \"info\""
    );
}
