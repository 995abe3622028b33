use worldground::tile::{parse_biome_type, parse_precipitation_type, BiomeType, PrecipitationType, Season};

#[test]
fn season_cycles_correctly() {
    assert_eq!(Season::Spring.next(), Season::Summer);
    assert_eq!(Season::Summer.next(), Season::Autumn);
    assert_eq!(Season::Autumn.next(), Season::Winter);
    assert_eq!(Season::Winter.next(), Season::Spring);
}

#[test]
fn biome_names_parse() {
    assert_eq!(parse_biome_type("BorealForest"), Some(BiomeType::BorealForest));
    assert_eq!(parse_biome_type("Barren"), Some(BiomeType::Barren));
    assert_eq!(parse_biome_type("Ocean"), Some(BiomeType::Ocean));
    assert_eq!(parse_biome_type("ocean"), None);
    assert_eq!(parse_biome_type(""), None);
}

#[test]
fn precipitation_names_parse() {
    assert_eq!(parse_precipitation_type("None"), Some(PrecipitationType::Clear));
    assert_eq!(parse_precipitation_type("Rain"), Some(PrecipitationType::Rain));
    assert_eq!(parse_precipitation_type("Sleet"), Some(PrecipitationType::Sleet));
    assert_eq!(parse_precipitation_type("Drizzle"), None);
}
