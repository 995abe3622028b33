use rhai::Dynamic;

use worldground::engine::{writable_field, CellField, Phase, RuleError, TileMutations};
use worldground::phase::{
    collect_phase_results, compute_rng_seed, filter_invalid_biome_transitions_by_biome,
    retain_valid_transitions, transition_allowed, valid_transitions,
};
use worldground::rng::{xorshift64, Rng};
use worldground::tile::BiomeType;

const ALL_BIOMES: [BiomeType; 11] = [
    BiomeType::Ocean,
    BiomeType::Ice,
    BiomeType::Tundra,
    BiomeType::BorealForest,
    BiomeType::TemperateForest,
    BiomeType::Grassland,
    BiomeType::Savanna,
    BiomeType::Desert,
    BiomeType::TropicalForest,
    BiomeType::Wetland,
    BiomeType::Barren,
];

#[test]
fn xorshift64_deterministic() {
    let a1 = xorshift64(42);
    let a2 = xorshift64(42);
    assert_eq!(a1, a2);

    let b = xorshift64(a1);
    assert_ne!(a1, b);
}

#[test]
fn xorshift64_known_values() {
    // zero state behaves as 1
    assert_eq!(xorshift64(0), xorshift64(1));
    let mut s: u64 = 1;
    s ^= s << 13;
    s ^= s >> 7;
    s ^= s << 17;
    assert_eq!(xorshift64(1), s);
    assert_eq!(xorshift64(1), 1082269761);
}

#[test]
fn rng_stream_follows_xorshift() {
    let mut r = Rng::new(7);
    let a = r.next_u64();
    let b = r.next_u64();
    assert_eq!(a, xorshift64(7));
    assert_eq!(b, xorshift64(a));
    assert_eq!(r.state, b);
}

#[test]
fn rng_seed_formula() {
    assert_eq!(compute_rng_seed(0, 0, Phase::Weather), 0);
    assert_eq!(compute_rng_seed(0, 0, Phase::Resources), 3);
    assert_eq!(compute_rng_seed(0, 1, Phase::Weather), 1442695040888963407);
    let expected = 5u64
        .wrapping_mul(6364136223846793005)
        .wrapping_add(17)
        .wrapping_mul(1442695040888963407)
        .wrapping_add(2);
    assert_eq!(compute_rng_seed(5, 17, Phase::Terrain), expected);
    assert_ne!(compute_rng_seed(5, 17, Phase::Terrain), compute_rng_seed(5, 17, Phase::Conditions));
}

#[test]
fn phase_names_and_order() {
    let names: Vec<&str> = Phase::all().iter().map(|p| p.dir_name()).collect();
    assert_eq!(names, vec!["weather", "conditions", "terrain", "resources"]);
}

#[test]
fn rule_error_description() {
    let e = RuleError { tile_id: 42, rule_name: "r.rhai".to_string(), error: "boom".to_string() };
    assert_eq!(e.describe(), "Tile 42: rule 'r.rhai': boom");
}

#[test]
fn biome_adjacency_graph_is_bidirectional() {
    for &biome in &ALL_BIOMES {
        for target in valid_transitions(biome) {
            assert!(valid_transitions(target).contains(&biome));
        }
    }
}

#[test]
fn transitions_follow_the_graph() {
    assert!(transition_allowed(BiomeType::Grassland, BiomeType::Savanna));
    assert!(!transition_allowed(BiomeType::Tundra, BiomeType::Desert));
    assert!(transition_allowed(BiomeType::Desert, BiomeType::Desert));
    assert!(transition_allowed(BiomeType::Ocean, BiomeType::Ocean));
    for &b in &ALL_BIOMES {
        if b != BiomeType::Ocean {
            assert!(!transition_allowed(BiomeType::Ocean, b));
        }
    }
}

fn muts(items: Vec<(&str, Dynamic)>) -> TileMutations {
    TileMutations { mutations: items.into_iter().map(|(f, v)| (f.to_string(), v)).collect() }
}

fn fields(m: &TileMutations) -> Vec<String> {
    m.mutations.iter().map(|(f, _)| f.clone()).collect()
}

#[test]
fn filter_rejects_non_adjacent_and_keeps_other_fields() {
    let m = muts(vec![
        ("vegetation_health", Dynamic::from(0.8_f64)),
        ("biome_type", Dynamic::from("Desert".to_string())),
        ("transition_pressure", Dynamic::from(-0.5_f64)),
    ]);
    let out = filter_invalid_biome_transitions_by_biome(BiomeType::Tundra, m);
    assert_eq!(fields(&out), vec!["vegetation_health", "transition_pressure"]);
    assert_eq!(out.mutations[0].1.as_float().unwrap(), 0.8);
}

#[test]
fn filter_accepts_adjacent_self_and_unknown() {
    let m = muts(vec![
        ("biome_type", Dynamic::from("Savanna".to_string())),
        ("biome_type", Dynamic::from("Grassland".to_string())),
        ("biome_type", Dynamic::from("Atlantis".to_string())),
        ("biome_type", Dynamic::from(3_i64)),
    ]);
    let out = filter_invalid_biome_transitions_by_biome(BiomeType::Grassland, m);
    assert_eq!(out.mutations.len(), 4);
    let m = muts(vec![("biome_type", Dynamic::from("Grassland".to_string()))]);
    assert!(filter_invalid_biome_transitions_by_biome(BiomeType::Ocean, m).mutations.is_empty());
}

#[test]
fn retain_uses_given_texts() {
    let ms = vec![("biome_type".to_string(), 1), ("humidity".to_string(), 2), ("biome_type".to_string(), 3)];
    let texts = vec![Some("Ice".to_string()), None, Some("Savanna".to_string())];
    let out = retain_valid_transitions(BiomeType::Desert, ms, &texts);
    assert_eq!(out, vec![("humidity".to_string(), 2), ("biome_type".to_string(), 3)]);
}

#[test]
fn collect_results_isolates_errors() {
    let results = vec![
        Ok(muts(vec![("biome_type", Dynamic::from("Desert".to_string()))])),
        Err(RuleError { tile_id: 1, rule_name: "a".to_string(), error: "x".to_string() }),
        Ok(muts(vec![("biome_type", Dynamic::from("Savanna".to_string()))])),
        Err(RuleError { tile_id: 3, rule_name: "b".to_string(), error: "y".to_string() }),
    ];
    let pre = vec![BiomeType::Tundra, BiomeType::Grassland, BiomeType::Grassland, BiomeType::Ice];
    let (applied, errors) = collect_phase_results(Phase::Terrain, results, &pre);
    assert_eq!(applied.len(), 4);
    assert!(applied[0].mutations.is_empty());
    assert!(applied[1].mutations.is_empty());
    assert_eq!(applied[2].mutations.len(), 1);
    assert!(applied[3].mutations.is_empty());
    let ids: Vec<u32> = errors.iter().map(|e| e.tile_id).collect();
    assert_eq!(ids, vec![1, 3]);
}

#[test]
fn collect_results_outside_terrain_keeps_everything() {
    let results = vec![Ok(muts(vec![("biome_type", Dynamic::from("Desert".to_string()))]))];
    let (applied, errors) = collect_phase_results(Phase::Weather, results, &Vec::new());
    assert_eq!(applied[0].mutations.len(), 1);
    assert!(errors.is_empty());
}

#[test]
fn field_whitelists_per_phase() {
    assert_eq!(writable_field(Phase::Weather, "temperature"), Some(CellField::Temperature));
    assert_eq!(writable_field(Phase::Weather, "humidity"), Some(CellField::Humidity));
    assert_eq!(writable_field(Phase::Weather, "soil_moisture"), None);
    assert_eq!(writable_field(Phase::Conditions, "frost_days"), Some(CellField::FrostDays));
    assert_eq!(writable_field(Phase::Conditions, "temperature"), None);
    assert_eq!(writable_field(Phase::Terrain, "biome_type"), Some(CellField::BiomeKind));
    assert_eq!(writable_field(Phase::Terrain, "vegetation_health"), Some(CellField::VegetationHealth));
    assert_eq!(
        writable_field(Phase::Resources, "iron.quantity"),
        Some(CellField::DepositQuantity("iron".to_string()))
    );
    assert_eq!(
        writable_field(Phase::Resources, "fresh.water.renewal_rate"),
        None
    );
    assert_eq!(
        writable_field(Phase::Resources, "timber.renewal_rate"),
        Some(CellField::DepositRenewalRate("timber".to_string()))
    );
    assert_eq!(writable_field(Phase::Resources, "quantity"), None);
    assert_eq!(writable_field(Phase::Resources, "iron.purity"), None);
}
