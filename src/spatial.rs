//! Bin arithmetic of the 18 x 36 latitude/longitude grid that finds the cell
//! nearest to a pressure-system center.

use vstd::prelude::*;

verus! {

pub const LAT_BINS: usize = 18;

pub const LON_BINS: usize = 36;

/// Bin of a latitude row and longitude column, each clamped to the grid.
pub open spec fn clamped_bin(lat_bin: nat, lon_bin: nat) -> nat {
    let r = if lat_bin >= 18 { 17 } else { lat_bin };
    let c = if lon_bin >= 36 { 35 } else { lon_bin };
    r * 36 + c
}

/// Index of the bin at row `lat_bin` and column `lon_bin`, both clamped to
/// the last row and column.
pub fn bin_index(lat_bin: usize, lon_bin: usize) -> (r: usize)
    ensures
        r == clamped_bin(lat_bin as nat, lon_bin as nat),
        r < 648,
{
    let r = if lat_bin >= LAT_BINS { LAT_BINS - 1 } else { lat_bin };
    let c = if lon_bin >= LON_BINS { LON_BINS - 1 } else { lon_bin };
    r * LON_BINS + c
}

/// The `k`-th bin (k < 9) of the 3 x 3 block round `(lat_bin, lon_bin)`,
/// row by row: `None` beyond a pole, longitude wrapped round the dateline.
pub open spec fn block_bin(lat_bin: int, lon_bin: int, k: int) -> Option<nat> {
    let r = lat_bin - 1 + k / 3;
    let c = (lon_bin + k % 3 - 1) % 36;
    if 0 <= r < 18 {
        Some((r * 36 + c) as nat)
    } else {
        None
    }
}

/// The bins of the first `k` block positions, in order, skipping those
/// beyond a pole.
pub open spec fn block_bins(lat_bin: int, lon_bin: int, k: int) -> Seq<nat>
    decreases k,
{
    if k <= 0 {
        seq![]
    } else {
        let rest = block_bins(lat_bin, lon_bin, k - 1);
        match block_bin(lat_bin, lon_bin, k - 1) {
            Some(b) => rest.push(b),
            None => rest,
        }
    }
}

/// The bins to search round `(lat_bin, lon_bin)`: the 3 x 3 block, rows
/// beyond a pole left out, columns wrapped at the dateline.
pub fn search_bins(lat_bin: i64, lon_bin: i64) -> (r: Vec<usize>)
    requires
        i64::MIN < lat_bin < i64::MAX,
        i64::MIN < lon_bin < i64::MAX,
    ensures
        r@.len() <= 9,
        r@.map_values(|b: usize| b as nat) == block_bins(lat_bin as int, lon_bin as int, 9),
        forall|i: int| 0 <= i < r@.len() ==> (#[trigger] r@[i]) < 648,
{
    let mut out: Vec<usize> = Vec::new();
    let mut k: i64 = 0;
    while k < 9
        invariant
            0 <= k <= 9,
            i64::MIN < lat_bin < i64::MAX,
            i64::MIN < lon_bin < i64::MAX,
            out@.len() <= k,
            out@.map_values(|b: usize| b as nat) == block_bins(lat_bin as int, lon_bin as int, k as int),
            forall|i: int| 0 <= i < out@.len() ==> (#[trigger] out@[i]) < 648,
        decreases 9 - k,
    {
        let r = lat_bin - 1 + k / 3;
        let c0 = lon_bin - 1 + k % 3;
        if 0 <= r && r < 18 {
            let c = ((c0 % 36) + 36) % 36;
            proof {
                let ci = c0 as int;
                vstd::arithmetic::div_mod::lemma_mod_bound(ci, 36);
                assert(c as int == ci % 36) by {
                    // Rust's `%` keeps the sign of the dividend; adding 36 and
                    // reducing again gives the non-negative remainder
                    vstd::arithmetic::div_mod::lemma_fundamental_div_mod(ci, 36);
                }
            }
            out.push((r * 36 + c) as usize);
        }
        assert(out@.map_values(|b: usize| b as nat) =~= block_bins(lat_bin as int, lon_bin as int, k + 1));
        k += 1;
    }
    out
}

} // verus!
