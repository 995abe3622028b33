//! Deterministic world-cell simulation: the discrete core of the tick
//! pipeline, stated and proved with Verus.
//!
//! - `tile`, `weather_systems`: the kinds that describe cells and pressure
//!   systems.
//! - `topology`: neighbor graphs of the toroidal hex grid and of the
//!   subdivided icosahedron.
//! - `rng`, `phase`: per-cell random streams and their seeds, the biome
//!   transition graph, and the split of a phase's evaluation results.
//! - `engine`, `rules`: rule phases, mutations and the fields each phase may
//!   write, and the order of rule scripts.
//! - `tick`, `spatial`: counters advanced at the end of a tick, the cascade
//!   rule, the pressure-system cap, and the bin grid for nearest-cell lookup.
//! - `snapshot`, `config`: snapshot file names and ordering, settings and
//!   their checks.
//! - `text`: decimal numbers and literal comparison on characters.

pub mod text;
pub mod tile;
pub mod weather_systems;
pub mod topology;
pub mod rng;
pub mod engine;
pub mod phase;
pub mod rules;
pub mod tick;
pub mod spatial;
pub mod snapshot;
pub mod config;
