//! Settings: defaults of the simulation settings, the topology choice, and
//! the range checks on integer and text settings.

use vstd::prelude::*;
use crate::text::{decimal, push_decimal, text_eq};

verus! {

/// How the simulation obtains its initial world.
pub enum WorldSource {
    /// Load a specific snapshot file.
    Snapshot(String),
    /// Generate a fresh world from a generation settings file.
    Generate(String),
}

pub fn default_mode() -> (r: String)
    ensures
        r@ == "flat"@,
{
    String::from_str("flat")
}

pub fn default_subdivision_level() -> (r: u32)
    ensures
        r == 4,
{
    4
}

pub fn default_snapshot_interval() -> (r: u32)
    ensures
        r == 100,
{
    100
}

pub fn default_max_snapshots() -> (r: u32)
    ensures
        r == 10,
{
    10
}

pub fn default_snapshot_directory() -> (r: String)
    ensures
        r@ == "./snapshots"@,
{
    String::from_str("./snapshots")
}

pub fn default_websocket_port() -> (r: u16)
    ensures
        r == 8118,
{
    8118
}

pub fn default_websocket_bind() -> (r: String)
    ensures
        r@ == "127.0.0.1"@,
{
    String::from_str("127.0.0.1")
}

pub fn default_rule_directory() -> (r: String)
    ensures
        r@ == "./rules"@,
{
    String::from_str("./rules")
}

pub fn default_log_level() -> (r: String)
    ensures
        r@ == "info"@,
{
    String::from_str("info")
}

pub fn default_season_length() -> (r: u32)
    ensures
        r == 90,
{
    90
}

pub fn default_rule_timeout_ms() -> (r: u32)
    ensures
        r == 10,
{
    10
}

pub fn default_native_evaluation() -> (r: bool)
    ensures
        r,
{
    true
}

/// Topology choice: `mode` is "flat" (toroidal hex grid) or "geodesic"
/// (subdivided icosahedron of level `subdivision_level`, 1 to 7).
#[derive(Debug, Clone, PartialEq)]
pub struct TopologyConfig {
    pub mode: String,
    pub subdivision_level: u32,
}

impl TopologyConfig {
    pub fn is_geodesic(&self) -> (r: bool)
        ensures
            r == (self.mode@ == "geodesic"@),
    {
        text_eq(self.mode.as_str(), "geodesic")
    }

    /// Checks the mode, then (for geodesic) the level.
    pub fn validate(&self) -> (r: Result<(), String>)
        ensures
            self.mode@ != "flat"@ && self.mode@ != "geodesic"@ ==> (r matches Err(m)
                && m@ == "topology.mode must be 'flat' or 'geodesic', got '"@ + self.mode@ + "'"@),
            (self.mode@ == "flat"@ || (self.mode@ == "geodesic"@ && 1 <= self.subdivision_level <= 7))
                ==> r is Ok,
            self.mode@ == "geodesic"@ && !(1 <= self.subdivision_level <= 7) ==> (r matches Err(m)
                && m@ == "subdivision_level must be 1-7, got "@ + decimal(self.subdivision_level as nat)),
    {
        proof {
            reveal_strlit("flat");
            reveal_strlit("geodesic");
            assert("flat"@[0] != "geodesic"@[0]);
        }
        let flat = text_eq(self.mode.as_str(), "flat");
        let geodesic = self.is_geodesic();
        if !flat && !geodesic {
            let mut m = String::from_str("topology.mode must be 'flat' or 'geodesic', got '");
            m.append(self.mode.as_str());
            m.append("'");
            return Err(m);
        }
        if geodesic && !(1 <= self.subdivision_level && self.subdivision_level <= 7) {
            let mut m = String::from_str("subdivision_level must be 1-7, got ");
            push_decimal(&mut m, self.subdivision_level as u64);
            return Err(m);
        }
        Ok(())
    }
}

impl Default for TopologyConfig {
    /// The flat grid, with level 4 kept for a later switch to geodesic.
    fn default() -> (r: TopologyConfig)
        ensures
            r.mode@ == "flat"@,
            r.subdivision_level == 4,
    {
        TopologyConfig { mode: default_mode(), subdivision_level: default_subdivision_level() }
    }
}

pub open spec fn is_log_level(s: Seq<char>) -> bool {
    s == "error"@ || s == "warn"@ || s == "info"@ || s == "debug"@ || s == "trace"@
}

/// `"<name> must be > 0, got 0. Example: <name> = <example>"`.
pub open spec fn zero_message(name: Seq<char>, example: Seq<char>) -> Seq<char> {
    name + " must be > 0, got 0. Example: "@ + name + " = "@ + example
}

pub open spec fn port_message(port: u16) -> Seq<char> {
    "websocket_port must be 1024-65535, got "@ + decimal(port as nat)
        + ". Example: websocket_port = 8118"@
}

pub open spec fn log_level_message(level: Seq<char>) -> Seq<char> {
    "log_level must be one of [\"error\", \"warn\", \"info\", \"debug\", \"trace\"], got '"@ + level
        + "'. Example: log_level = \"info\""@
}

/// The messages for the integer and text settings, in the order the checks
/// run: snapshot interval, snapshot count, port, season length, rule
/// timeout, log level. Empty when all are in range.
pub open spec fn setting_messages(
    snapshot_interval: u32,
    max_snapshots: u32,
    websocket_port: u16,
    season_length: u32,
    rule_timeout_ms: u32,
    log_level: Seq<char>,
) -> Seq<Seq<char>> {
    let a = if snapshot_interval == 0 { seq![zero_message("snapshot_interval"@, "100"@)] } else { seq![] };
    let b = if max_snapshots == 0 { seq![zero_message("max_snapshots"@, "10"@)] } else { seq![] };
    let c = if websocket_port < 1024 { seq![port_message(websocket_port)] } else { seq![] };
    let d = if season_length == 0 { seq![zero_message("season_length"@, "90"@)] } else { seq![] };
    let e = if rule_timeout_ms == 0 { seq![zero_message("rule_timeout_ms"@, "10"@)] } else { seq![] };
    let f = if !is_log_level(log_level) { seq![log_level_message(log_level)] } else { seq![] };
    a + b + c + d + e + f
}

fn zero_error(name: &str, example: &str) -> (r: String)
    ensures
        r@ == zero_message(name@, example@),
{
    let mut m = String::from_str(name);
    m.append(" must be > 0, got 0. Example: ");
    m.append(name);
    m.append(" = ");
    m.append(example);
    m
}

fn push_message(v: &mut Vec<String>, m: String)
    ensures
        texts_of(final(v)@) == texts_of(old(v)@).push(m@),
{
    let ghost m_text = m@;
    v.push(m);
    assert(texts_of(v@) =~= texts_of(old(v)@).push(m_text));
}

pub open spec fn texts_of(v: Seq<String>) -> Seq<Seq<char>> {
    v.map_values(|s: String| s@)
}

/// Range checks on the integer and text simulation settings; one message per
/// setting out of range (see `setting_messages`).
#[verifier::rlimit(50)]
pub fn setting_errors(
    snapshot_interval: u32,
    max_snapshots: u32,
    websocket_port: u16,
    season_length: u32,
    rule_timeout_ms: u32,
    log_level: &str,
) -> (r: Vec<String>)
    ensures
        texts_of(r@) == setting_messages(
            snapshot_interval,
            max_snapshots,
            websocket_port,
            season_length,
            rule_timeout_ms,
            log_level@,
        ),
{
    let mut v: Vec<String> = Vec::new();
    let ghost mut expect: Seq<Seq<char>> = seq![];
    assert(texts_of(v@) =~= expect);
    if snapshot_interval == 0 {
        push_message(&mut v, zero_error("snapshot_interval", "100"));
        proof { expect = expect.push(zero_message("snapshot_interval"@, "100"@)); }
    }
    assert(texts_of(v@) == expect);
    if max_snapshots == 0 {
        push_message(&mut v, zero_error("max_snapshots", "10"));
        proof { expect = expect.push(zero_message("max_snapshots"@, "10"@)); }
    }
    assert(texts_of(v@) == expect);
    if websocket_port < 1024 {
        let mut m = String::from_str("websocket_port must be 1024-65535, got ");
        push_decimal(&mut m, websocket_port as u64);
        m.append(". Example: websocket_port = 8118");
        push_message(&mut v, m);
        proof { expect = expect.push(port_message(websocket_port)); }
    }
    assert(texts_of(v@) == expect);
    if season_length == 0 {
        push_message(&mut v, zero_error("season_length", "90"));
        proof { expect = expect.push(zero_message("season_length"@, "90"@)); }
    }
    assert(texts_of(v@) == expect);
    if rule_timeout_ms == 0 {
        push_message(&mut v, zero_error("rule_timeout_ms", "10"));
        proof { expect = expect.push(zero_message("rule_timeout_ms"@, "10"@)); }
    }
    assert(texts_of(v@) == expect);
    let known = text_eq(log_level, "error") || text_eq(log_level, "warn") || text_eq(log_level, "info")
        || text_eq(log_level, "debug") || text_eq(log_level, "trace");
    if !known {
        let mut m = String::from_str(
            "log_level must be one of [\"error\", \"warn\", \"info\", \"debug\", \"trace\"], got '",
        );
        m.append(log_level);
        m.append("'. Example: log_level = \"info\"");
        push_message(&mut v, m);
        proof { expect = expect.push(log_level_message(log_level@)); }
    }
    assert(texts_of(v@) == expect);
    assert(expect =~= setting_messages(
        snapshot_interval,
        max_snapshots,
        websocket_port,
        season_length,
        rule_timeout_ms,
        log_level@,
    ));
    v
}

} // verus!
