//! Counters that a tick advances after its phases, the cascade rule for rule
//! errors, and the cap on pressure systems.

use vstd::prelude::*;
use crate::tile::{Season, season_at, season_index};

verus! {

/// Tick count and season after one tick from `(tick, season)`: the count
/// goes up by one and the season moves on whenever the new count is a
/// multiple of `season_length`.
pub open spec fn tick_step(tick: nat, season: Season, season_length: nat) -> (nat, Season) {
    let t = tick + 1;
    if t % season_length == 0 {
        (t, season_at(season_index(season) + 1))
    } else {
        (t, season)
    }
}

/// Tick count and season after `n` ticks.
pub open spec fn ticks_after(tick: nat, season: Season, season_length: nat, n: nat) -> (nat, Season)
    decreases n,
{
    if n == 0 {
        (tick, season)
    } else {
        let p = ticks_after(tick, season, season_length, (n - 1) as nat);
        tick_step(p.0, p.1, season_length)
    }
}

/// Advances the tick counter and, at each season boundary, the season.
pub fn advance_tick(tick_count: u64, season: Season, season_length: u32) -> (r: (u64, Season))
    requires
        season_length > 0,
        tick_count < u64::MAX,
    ensures
        (r.0 as nat, r.1) == tick_step(tick_count as nat, season, season_length as nat),
{
    let t = tick_count + 1;
    if t % (season_length as u64) == 0 {
        (t, season.next())
    } else {
        (t, season)
    }
}

proof fn lemma_season_at_mod(i: nat)
    ensures
        season_at(season_index(season_at(i)) + 1) == season_at(i + 1),
        season_at(season_index(season_at(i))) == season_at(i),
{
}

/// After `n` ticks the count has grown by `n`, and the season has advanced
/// once for every multiple of `season_length` passed: with
/// `season_length` = 5, twenty ticks from tick 0 bring Spring back to Spring.
pub proof fn lemma_season_cycle(tick: nat, season: Season, season_length: nat, n: nat)
    requires
        season_length > 0,
    ensures
        ticks_after(tick, season, season_length, n).0 == tick + n,
        ticks_after(tick, season, season_length, n).1 == season_at(
            season_index(season) + ((tick + n) / season_length - tick / season_length) as nat,
        ),
        (tick + n) / season_length >= tick / season_length,
    decreases n,
{
    if n == 0 {
        lemma_season_at_mod(season_index(season));
        assert(season_at(season_index(season)) == season) by {
            match season {
                Season::Spring => {},
                Season::Summer => {},
                Season::Autumn => {},
                Season::Winter => {},
            }
        }
    } else {
        lemma_season_cycle(tick, season, season_length, (n - 1) as nat);
        let m: int = tick + n - 1;
        let l: int = season_length as int;
        let k = (m / l - (tick as int) / l) as nat;
        vstd::arithmetic::div_mod::lemma_fundamental_div_mod(m, l);
        vstd::arithmetic::div_mod::lemma_fundamental_div_mod(m + 1, l);
        vstd::arithmetic::div_mod::lemma_mod_bound(m, l);
        vstd::arithmetic::div_mod::lemma_mod_bound(m + 1, l);
        if (m + 1) % l == 0 {
            assert((m + 1) / l == m / l + 1) by (nonlinear_arith)
                requires
                    m == l * (m / l) + m % l,
                    m + 1 == l * ((m + 1) / l),
                    0 <= m % l < l,
                    l > 0,
            ;
            lemma_season_at_mod(season_index(season) + k);
        } else {
            assert((m + 1) / l == m / l) by (nonlinear_arith)
                requires
                    m == l * (m / l) + m % l,
                    m + 1 == l * ((m + 1) / l) + (m + 1) % l,
                    0 <= m % l < l,
                    0 < (m + 1) % l < l,
                    l > 0,
            ;
        }
    }
}

/// Whether rule errors in one tick amount to a cascade: more than a tenth of
/// the cells (in whole cells) failed.
pub fn is_cascade(error_count: usize, tile_count: usize) -> (r: bool)
    ensures
        r == (tile_count > 0 && error_count > tile_count / 10),
{
    tile_count > 0 && error_count > tile_count / 10
}

/// `clamp(tile_count / 100, 5, 80)`.
pub open spec fn system_cap(tile_count: nat) -> nat {
    let q = tile_count / 100;
    if q < 5 { 5 } else if q > 80 { 80 } else { q }
}

/// Most pressure systems a world of `tile_count` cells may hold at once.
pub fn max_pressure_systems(tile_count: usize) -> (r: usize)
    ensures
        r == system_cap(tile_count as nat),
{
    let q = tile_count / 100;
    if q < 5 {
        5
    } else if q > 80 {
        80
    } else {
        q
    }
}

/// Whether a world of `tile_count` cells that holds `system_count` pressure
/// systems may spawn one more.
pub fn may_spawn_system(system_count: usize, tile_count: usize) -> (r: bool)
    ensures
        r == (system_count < system_cap(tile_count as nat)),
        r ==> system_count + 1 <= system_cap(tile_count as nat),
{
    system_count < max_pressure_systems(tile_count)
}

/// Age of a cell's biome after the end of a tick: one more tick, saturating
/// at the largest count.
pub fn next_biome_age(ticks_in_current_biome: u32) -> (r: u32)
    ensures
        ticks_in_current_biome < u32::MAX ==> r == ticks_in_current_biome + 1,
        ticks_in_current_biome == u32::MAX ==> r == u32::MAX,
{
    ticks_in_current_biome.saturating_add(1)
}

} // verus!
