//! Rule phases, what a rule evaluation hands back, and which cell fields each
//! phase may write.

use vstd::prelude::*;
use vstd::string::*;
use crate::text::{push_decimal, decimal, text_eq};

verus! {

/// The four rule phases of a tick, in the order they run.
#[derive(Debug, Clone, Copy, PartialEq, Eq, Hash, Structural)]
pub enum Phase {
    Weather,
    Conditions,
    Terrain,
    Resources,
}

/// Position of a phase in the tick; also the phase term of the per-cell seed.
pub open spec fn phase_ord(p: Phase) -> nat {
    match p {
        Phase::Weather => 0,
        Phase::Conditions => 1,
        Phase::Terrain => 2,
        Phase::Resources => 3,
    }
}

pub open spec fn phase_dir(p: Phase) -> Seq<char> {
    match p {
        Phase::Weather => "weather"@,
        Phase::Conditions => "conditions"@,
        Phase::Terrain => "terrain"@,
        Phase::Resources => "resources"@,
    }
}

impl Phase {
    /// Name of the directory that holds this phase's rule scripts.
    pub fn dir_name(&self) -> (r: &'static str)
        ensures
            r@ == phase_dir(*self),
    {
        match self {
            Phase::Weather => "weather",
            Phase::Conditions => "conditions",
            Phase::Terrain => "terrain",
            Phase::Resources => "resources",
        }
    }

    /// All phases in execution order.
    pub fn all() -> (r: [Phase; 4])
        ensures
            forall|i: int| 0 <= i < 4 ==> phase_ord(#[trigger] r@[i]) == i,
    {
        [Phase::Weather, Phase::Conditions, Phase::Terrain, Phase::Resources]
    }
}

/// A failed rule evaluation on one cell.
#[derive(Debug, Clone)]
pub struct RuleError {
    pub tile_id: u32,
    pub rule_name: String,
    pub error: String,
}

impl RuleError {
    /// One-line description: `Tile <id>: rule '<name>': <error>`.
    pub fn describe(&self) -> (r: String)
        ensures
            r@ == "Tile "@ + decimal(self.tile_id as nat) + ": rule '"@ + self.rule_name@
                + "': "@ + self.error@,
    {
        let mut s = String::from_str("Tile ");
        push_decimal(&mut s, self.tile_id as u64);
        s.append(": rule '");
        s.append(self.rule_name.as_str());
        s.append("': ");
        s.append(self.error.as_str());
        s
    }
}

} // verus!

verus! {

/// rhai's dynamically typed value, carried through unopened: the value of a
/// rule mutation.
#[verifier::external_type_specification]
#[verifier::external_body]
pub struct ExDynamic(rhai::Dynamic);

/// The mutations that the rules of one phase produced for one cell: a field
/// name and the value to write, in the order the rules set them.
#[derive(Debug, Default)]
pub struct TileMutations {
    pub mutations: Vec<(String, rhai::Dynamic)>,
}

} // verus!

verus! {

/// A cell field that a rule phase may write.
#[derive(Debug, Clone, PartialEq)]
pub enum CellField {
    Temperature,
    Precipitation,
    PrecipitationKind,
    WindSpeed,
    WindDirection,
    CloudCover,
    StormIntensity,
    Humidity,
    SoilMoisture,
    SnowDepth,
    MudLevel,
    FloodLevel,
    FrostDays,
    DroughtDays,
    FireRisk,
    VegetationDensity,
    VegetationHealth,
    TransitionPressure,
    BiomeKind,
    /// `<deposit>.quantity`
    DepositQuantity(String),
    /// `<deposit>.renewal_rate`
    DepositRenewalRate(String),
}

/// The field that `name` denotes in `phase`, for the Weather, Conditions and
/// Terrain phases; `None` for a name outside the phase's whitelist.
pub open spec fn layer_field(phase: Phase, name: Seq<char>) -> Option<CellField> {
    match phase {
        Phase::Weather => if name == "temperature"@ {
            Some(CellField::Temperature)
        } else if name == "precipitation"@ {
            Some(CellField::Precipitation)
        } else if name == "precipitation_type"@ {
            Some(CellField::PrecipitationKind)
        } else if name == "wind_speed"@ {
            Some(CellField::WindSpeed)
        } else if name == "wind_direction"@ {
            Some(CellField::WindDirection)
        } else if name == "cloud_cover"@ {
            Some(CellField::CloudCover)
        } else if name == "storm_intensity"@ {
            Some(CellField::StormIntensity)
        } else if name == "humidity"@ {
            Some(CellField::Humidity)
        } else {
            None
        },
        Phase::Conditions => if name == "soil_moisture"@ {
            Some(CellField::SoilMoisture)
        } else if name == "snow_depth"@ {
            Some(CellField::SnowDepth)
        } else if name == "mud_level"@ {
            Some(CellField::MudLevel)
        } else if name == "flood_level"@ {
            Some(CellField::FloodLevel)
        } else if name == "frost_days"@ {
            Some(CellField::FrostDays)
        } else if name == "drought_days"@ {
            Some(CellField::DroughtDays)
        } else if name == "fire_risk"@ {
            Some(CellField::FireRisk)
        } else {
            None
        },
        Phase::Terrain => if name == "vegetation_density"@ {
            Some(CellField::VegetationDensity)
        } else if name == "vegetation_health"@ {
            Some(CellField::VegetationHealth)
        } else if name == "transition_pressure"@ {
            Some(CellField::TransitionPressure)
        } else if name == "biome_type"@ {
            Some(CellField::BiomeKind)
        } else {
            None
        },
        Phase::Resources => None,
    }
}

/// `name` split at its first `.`, if it has one.
pub open spec fn split_at_dot(name: Seq<char>) -> Option<(Seq<char>, Seq<char>)> {
    if exists|i: int| 0 <= i < name.len() && name[i] == '.' {
        let d = choose|i: int| 0 <= i < name.len() && name[i] == '.' && forall|j: int| 0 <= j < i ==> name[j] != '.';
        Some((name.take(d), name.skip(d + 1)))
    } else {
        None
    }
}

fn split_dot(name: &str) -> (r: Option<(&str, &str)>)
    ensures
        match split_at_dot(name@) {
            None => r is None,
            Some(p) => r matches Some(q) && q.0@ == p.0 && q.1@ == p.1,
        },
{
    let n = name.unicode_len();
    let mut d: usize = 0;
    while d < n && name.get_char(d) != '.'
        invariant
            n == name@.len(),
            d <= n,
            forall|j: int| 0 <= j < d ==> name@[j] != '.',
        decreases n - d,
    {
        d += 1;
    }
    if d == n {
        assert(!(exists|i: int| 0 <= i < name@.len() && name@[i] == '.'));
        return None;
    }
    proof {
        assert(name@[d as int] == '.');
        let c = choose|i: int| 0 <= i < name@.len() && name@[i] == '.' && forall|j: int| 0 <= j < i ==> name@[j] != '.';
        assert(c == d);
    }
    let head = name.substring_char(0, d);
    let tail = name.substring_char(d + 1, n);
    assert(head@ =~= name@.take(d as int));
    assert(tail@ =~= name@.skip(d + 1));
    Some((head, tail))
}

/// The field that a mutation of `name` writes in `phase`, or `None` when the
/// phase does not accept that name. In the Resources phase the name is
/// `<deposit>.quantity` or `<deposit>.renewal_rate`, split at its first `.`.
pub fn writable_field(phase: Phase, name: &str) -> (r: Option<CellField>)
    ensures
        phase != Phase::Resources ==> r == layer_field(phase, name@),
        phase == Phase::Resources ==> match split_at_dot(name@) {
            None => r is None,
            Some(p) => if p.1 == "quantity"@ {
                r matches Some(CellField::DepositQuantity(s)) && s@ == p.0
            } else if p.1 == "renewal_rate"@ {
                r matches Some(CellField::DepositRenewalRate(s)) && s@ == p.0
            } else {
                r is None
            },
        },
{
    match phase {
        Phase::Weather => {
            if text_eq(name, "temperature") {
                Some(CellField::Temperature)
            } else if text_eq(name, "precipitation") {
                Some(CellField::Precipitation)
            } else if text_eq(name, "precipitation_type") {
                Some(CellField::PrecipitationKind)
            } else if text_eq(name, "wind_speed") {
                Some(CellField::WindSpeed)
            } else if text_eq(name, "wind_direction") {
                Some(CellField::WindDirection)
            } else if text_eq(name, "cloud_cover") {
                Some(CellField::CloudCover)
            } else if text_eq(name, "storm_intensity") {
                Some(CellField::StormIntensity)
            } else if text_eq(name, "humidity") {
                Some(CellField::Humidity)
            } else {
                None
            }
        },
        Phase::Conditions => {
            if text_eq(name, "soil_moisture") {
                Some(CellField::SoilMoisture)
            } else if text_eq(name, "snow_depth") {
                Some(CellField::SnowDepth)
            } else if text_eq(name, "mud_level") {
                Some(CellField::MudLevel)
            } else if text_eq(name, "flood_level") {
                Some(CellField::FloodLevel)
            } else if text_eq(name, "frost_days") {
                Some(CellField::FrostDays)
            } else if text_eq(name, "drought_days") {
                Some(CellField::DroughtDays)
            } else if text_eq(name, "fire_risk") {
                Some(CellField::FireRisk)
            } else {
                None
            }
        },
        Phase::Terrain => {
            if text_eq(name, "vegetation_density") {
                Some(CellField::VegetationDensity)
            } else if text_eq(name, "vegetation_health") {
                Some(CellField::VegetationHealth)
            } else if text_eq(name, "transition_pressure") {
                Some(CellField::TransitionPressure)
            } else if text_eq(name, "biome_type") {
                Some(CellField::BiomeKind)
            } else {
                None
            }
        },
        Phase::Resources => {
            match split_dot(name) {
                None => None,
                Some((deposit, attribute)) => {
                    if text_eq(attribute, "quantity") {
                        Some(CellField::DepositQuantity(deposit.to_owned()))
                    } else if text_eq(attribute, "renewal_rate") {
                        Some(CellField::DepositRenewalRate(deposit.to_owned()))
                    } else {
                        None
                    }
                },
            }
        },
    }
}

} // verus!
