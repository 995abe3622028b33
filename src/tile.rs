//! The kinds that describe a cell: terrain, soil, climate zone, biome,
//! precipitation, season and topology.

use vstd::prelude::*;
use crate::text::text_eq;

verus! {

#[derive(Debug, Clone, Copy, PartialEq, Eq, Hash, Structural)]
pub enum TerrainType {
    Ocean,
    Coast,
    Plains,
    Hills,
    Mountains,
    Cliffs,
    Wetlands,
}

#[derive(Debug, Clone, Copy, PartialEq, Eq, Hash, Structural)]
pub enum SoilType {
    Sand,
    Clay,
    Loam,
    Rock,
    Silt,
}

#[derive(Debug, Clone, Copy, PartialEq, Eq, Hash, Structural)]
pub enum ClimateZone {
    Polar,
    Subpolar,
    Temperate,
    Subtropical,
    Tropical,
}

#[derive(Debug, Clone, Copy, PartialEq, Eq, Hash, Structural)]
pub enum BiomeType {
    Ocean,
    Ice,
    Tundra,
    BorealForest,
    TemperateForest,
    Grassland,
    Savanna,
    Desert,
    TropicalForest,
    Wetland,
    Barren,
}

#[derive(Debug, Clone, Copy, PartialEq, Eq, Hash, Structural)]
pub enum PrecipitationType {
    /// No precipitation; written "None" in rule mutations.
    Clear,
    Rain,
    Snow,
    Hail,
    Sleet,
}

#[derive(Debug, Clone, Copy, PartialEq, Eq, Hash, Structural)]
pub enum Season {
    Spring,
    Summer,
    Autumn,
    Winter,
}

#[derive(Debug, Clone, Copy, PartialEq, Eq, Hash, Structural)]
pub enum TopologyType {
    FlatHex,
    Geodesic,
}

/// Position of a season in the yearly cycle, Spring first.
pub open spec fn season_index(s: Season) -> nat {
    match s {
        Season::Spring => 0,
        Season::Summer => 1,
        Season::Autumn => 2,
        Season::Winter => 3,
    }
}

pub open spec fn season_at(i: nat) -> Season {
    if i % 4 == 0 {
        Season::Spring
    } else if i % 4 == 1 {
        Season::Summer
    } else if i % 4 == 2 {
        Season::Autumn
    } else {
        Season::Winter
    }
}

impl Season {
    /// The season that follows this one; Winter wraps round to Spring.
    pub fn next(self) -> (r: Season)
        ensures
            r == season_at(season_index(self) + 1),
    {
        match self {
            Season::Spring => Season::Summer,
            Season::Summer => Season::Autumn,
            Season::Autumn => Season::Winter,
            Season::Winter => Season::Spring,
        }
    }
}

/// The name under which a biome kind is written in rule mutations.
pub open spec fn biome_name(b: BiomeType) -> Seq<char> {
    match b {
        BiomeType::Ocean => "Ocean"@,
        BiomeType::Ice => "Ice"@,
        BiomeType::Tundra => "Tundra"@,
        BiomeType::BorealForest => "BorealForest"@,
        BiomeType::TemperateForest => "TemperateForest"@,
        BiomeType::Grassland => "Grassland"@,
        BiomeType::Savanna => "Savanna"@,
        BiomeType::Desert => "Desert"@,
        BiomeType::TropicalForest => "TropicalForest"@,
        BiomeType::Wetland => "Wetland"@,
        BiomeType::Barren => "Barren"@,
    }
}

/// The name under which a precipitation kind is written in rule mutations.
pub open spec fn precipitation_name(p: PrecipitationType) -> Seq<char> {
    match p {
        PrecipitationType::Clear => "None"@,
        PrecipitationType::Rain => "Rain"@,
        PrecipitationType::Snow => "Snow"@,
        PrecipitationType::Hail => "Hail"@,
        PrecipitationType::Sleet => "Sleet"@,
    }
}

/// The biome kind written `s`, if any.
pub open spec fn biome_named(s: Seq<char>) -> Option<BiomeType> {
    if s == "Ocean"@ {
        Some(BiomeType::Ocean)
    } else if s == "Ice"@ {
        Some(BiomeType::Ice)
    } else if s == "Tundra"@ {
        Some(BiomeType::Tundra)
    } else if s == "BorealForest"@ {
        Some(BiomeType::BorealForest)
    } else if s == "TemperateForest"@ {
        Some(BiomeType::TemperateForest)
    } else if s == "Grassland"@ {
        Some(BiomeType::Grassland)
    } else if s == "Savanna"@ {
        Some(BiomeType::Savanna)
    } else if s == "Desert"@ {
        Some(BiomeType::Desert)
    } else if s == "TropicalForest"@ {
        Some(BiomeType::TropicalForest)
    } else if s == "Wetland"@ {
        Some(BiomeType::Wetland)
    } else if s == "Barren"@ {
        Some(BiomeType::Barren)
    } else {
        None
    }
}

/// The precipitation kind written `s`, if any.
pub open spec fn precipitation_named(s: Seq<char>) -> Option<PrecipitationType> {
    if s == "None"@ {
        Some(PrecipitationType::Clear)
    } else if s == "Rain"@ {
        Some(PrecipitationType::Rain)
    } else if s == "Snow"@ {
        Some(PrecipitationType::Snow)
    } else if s == "Hail"@ {
        Some(PrecipitationType::Hail)
    } else if s == "Sleet"@ {
        Some(PrecipitationType::Sleet)
    } else {
        None
    }
}

/// Reads a biome kind from its name; any other text gives `None`.
pub fn parse_biome_type(s: &str) -> (r: Option<BiomeType>)
    ensures
        r == biome_named(s@),
{
    if text_eq(s, "Ocean") {
        Some(BiomeType::Ocean)
    } else if text_eq(s, "Ice") {
        Some(BiomeType::Ice)
    } else if text_eq(s, "Tundra") {
        Some(BiomeType::Tundra)
    } else if text_eq(s, "BorealForest") {
        Some(BiomeType::BorealForest)
    } else if text_eq(s, "TemperateForest") {
        Some(BiomeType::TemperateForest)
    } else if text_eq(s, "Grassland") {
        Some(BiomeType::Grassland)
    } else if text_eq(s, "Savanna") {
        Some(BiomeType::Savanna)
    } else if text_eq(s, "Desert") {
        Some(BiomeType::Desert)
    } else if text_eq(s, "TropicalForest") {
        Some(BiomeType::TropicalForest)
    } else if text_eq(s, "Wetland") {
        Some(BiomeType::Wetland)
    } else if text_eq(s, "Barren") {
        Some(BiomeType::Barren)
    } else {
        None
    }
}

/// Reads a precipitation kind from its name; any other text gives `None`.
pub fn parse_precipitation_type(s: &str) -> (r: Option<PrecipitationType>)
    ensures
        r == precipitation_named(s@),
{
    if text_eq(s, "None") {
        Some(PrecipitationType::Clear)
    } else if text_eq(s, "Rain") {
        Some(PrecipitationType::Rain)
    } else if text_eq(s, "Snow") {
        Some(PrecipitationType::Snow)
    } else if text_eq(s, "Hail") {
        Some(PrecipitationType::Hail)
    } else if text_eq(s, "Sleet") {
        Some(PrecipitationType::Sleet)
    } else {
        None
    }
}

} // verus!
