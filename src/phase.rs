//! Per-phase rules that do not depend on the evaluator: the seed of each
//! cell's random stream and the biome transition graph that the Terrain
//! phase enforces.

use vstd::prelude::*;
use crate::engine::{Phase, phase_ord, RuleError, TileMutations};
use crate::text::text_eq;
use crate::tile::{BiomeType, biome_named, parse_biome_type};

verus! {

pub const SEED_TICK_FACTOR: u64 = 6364136223846793005;

pub const SEED_CELL_FACTOR: u64 = 1442695040888963407;

/// The seed of the random stream of cell `tile_id` in `phase` of tick `tick`:
/// `(tick * A + tile_id) * B + phase_ord`, all modulo 2^64.
pub open spec fn cell_seed(tick: u64, tile_id: u32, phase: Phase) -> u64 {
    (((tick as nat * SEED_TICK_FACTOR as nat + tile_id as nat) * SEED_CELL_FACTOR as nat
        + phase_ord(phase)) % 0x1_0000_0000_0000_0000) as u64
}

/// Computes `cell_seed` with wrapping arithmetic.
pub fn compute_rng_seed(tick: u64, tile_id: u32, phase: Phase) -> (r: u64)
    ensures
        r == cell_seed(tick, tile_id, phase),
{
    let phase_offset: u64 = match phase {
        Phase::Weather => 0,
        Phase::Conditions => 1,
        Phase::Terrain => 2,
        Phase::Resources => 3,
    };
    let a = tick.wrapping_mul(SEED_TICK_FACTOR);
    let b = a.wrapping_add(tile_id as u64);
    let c = b.wrapping_mul(SEED_CELL_FACTOR);
    let d = c.wrapping_add(phase_offset);
    proof {
        let m: int = 0x1_0000_0000_0000_0000;
        let x: int = tick as int * SEED_TICK_FACTOR as int;
        let id: int = tile_id as int;
        let k: int = SEED_CELL_FACTOR as int;
        let o: int = phase_offset as int;
        assert(a as int == x % m);
        assert(b as int == (x % m + id) % m);
        vstd::arithmetic::div_mod::lemma_add_mod_noop(x, id, m);
        vstd::arithmetic::div_mod::lemma_mod_twice(id, m);
        vstd::arithmetic::div_mod::lemma_mod_twice(x, m);
        assert(b as int == (x + id) % m) by {
            vstd::arithmetic::div_mod::lemma_small_mod(id as nat, m as nat);
        }
        assert(c as int == (b as int * k) % m);
        vstd::arithmetic::div_mod::lemma_mul_mod_noop_left(x + id, k, m);
        assert(c as int == ((x + id) * k) % m);
        vstd::arithmetic::div_mod::lemma_add_mod_noop((x + id) * k, o, m);
        vstd::arithmetic::div_mod::lemma_small_mod(o as nat, m as nat);
        vstd::arithmetic::div_mod::lemma_mod_twice((x + id) * k, m);
        assert(d as int == ((x + id) * k + o) % m);
    }
    d
}

/// The kinds a biome may turn into in one Terrain phase (besides staying).
pub open spec fn biome_neighbors(b: BiomeType) -> Seq<BiomeType> {
    match b {
        BiomeType::Ocean => seq![],
        BiomeType::Ice => seq![BiomeType::Tundra],
        BiomeType::Tundra => seq![BiomeType::Ice, BiomeType::BorealForest],
        BiomeType::BorealForest => seq![BiomeType::Tundra, BiomeType::TemperateForest],
        BiomeType::TemperateForest => seq![
            BiomeType::BorealForest,
            BiomeType::Grassland,
            BiomeType::TropicalForest,
        ],
        BiomeType::Grassland => seq![
            BiomeType::TemperateForest,
            BiomeType::Savanna,
            BiomeType::Wetland,
        ],
        BiomeType::Savanna => seq![
            BiomeType::Grassland,
            BiomeType::Desert,
            BiomeType::TropicalForest,
        ],
        BiomeType::Desert => seq![BiomeType::Savanna, BiomeType::Barren],
        BiomeType::TropicalForest => seq![BiomeType::TemperateForest, BiomeType::Savanna],
        BiomeType::Wetland => seq![BiomeType::Grassland],
        BiomeType::Barren => seq![BiomeType::Desert],
    }
}

pub open spec fn biome_adjacent(a: BiomeType, b: BiomeType) -> bool {
    biome_neighbors(a).contains(b)
}

/// The biome kinds adjacent to `biome` in the transition graph.
pub fn valid_transitions(biome: BiomeType) -> (r: Vec<BiomeType>)
    ensures
        r@ == biome_neighbors(biome),
{
    let r = match biome {
        BiomeType::Ocean => vec![],
        BiomeType::Ice => vec![BiomeType::Tundra],
        BiomeType::Tundra => vec![BiomeType::Ice, BiomeType::BorealForest],
        BiomeType::BorealForest => vec![BiomeType::Tundra, BiomeType::TemperateForest],
        BiomeType::TemperateForest => vec![
            BiomeType::BorealForest,
            BiomeType::Grassland,
            BiomeType::TropicalForest,
        ],
        BiomeType::Grassland => vec![
            BiomeType::TemperateForest,
            BiomeType::Savanna,
            BiomeType::Wetland,
        ],
        BiomeType::Savanna => vec![
            BiomeType::Grassland,
            BiomeType::Desert,
            BiomeType::TropicalForest,
        ],
        BiomeType::Desert => vec![BiomeType::Savanna, BiomeType::Barren],
        BiomeType::TropicalForest => vec![BiomeType::TemperateForest, BiomeType::Savanna],
        BiomeType::Wetland => vec![BiomeType::Grassland],
        BiomeType::Barren => vec![BiomeType::Desert],
    };
    assert(r@ =~= biome_neighbors(biome));
    r
}

/// Whether a Terrain-phase mutation may move a cell from `current` to
/// `target`: staying is always allowed, otherwise the kinds must be adjacent.
pub fn transition_allowed(current: BiomeType, target: BiomeType) -> (r: bool)
    ensures
        r == (target == current || biome_adjacent(current, target)),
{
    if target == current {
        return true;
    }
    let valid = valid_transitions(current);
    let mut i: usize = 0;
    while i < valid.len()
        invariant
            valid@ == biome_neighbors(current),
            i <= valid.len(),
            forall|j: int| 0 <= j < i ==> valid@[j] != target,
        decreases valid.len() - i,
    {
        if valid[i] == target {
            return true;
        }
        i += 1;
    }
    false
}

/// The transition graph is undirected, and Ocean is isolated in it.
pub proof fn lemma_transitions_symmetric(a: BiomeType, b: BiomeType)
    ensures
        biome_adjacent(a, b) == biome_adjacent(b, a),
        !biome_adjacent(BiomeType::Ocean, b),
        !biome_adjacent(a, BiomeType::Ocean),
        !biome_adjacent(a, a),
{
    lemma_neighbors_listed(a, b);
    lemma_neighbors_listed(b, a);
    lemma_neighbors_listed(a, BiomeType::Ocean);
    lemma_neighbors_listed(BiomeType::Ocean, b);
    lemma_neighbors_listed(a, a);
}

proof fn lemma_neighbors_listed(a: BiomeType, b: BiomeType)
    ensures
        biome_adjacent(a, b) <==> (exists|i: int| 0 <= i < biome_neighbors(a).len() && biome_neighbors(a)[i] == b),
        biome_neighbors(a).len() <= 3,
        biome_adjacent(a, b) <==> (
            (biome_neighbors(a).len() > 0 && biome_neighbors(a)[0] == b)
            || (biome_neighbors(a).len() > 1 && biome_neighbors(a)[1] == b)
            || (biome_neighbors(a).len() > 2 && biome_neighbors(a)[2] == b)),
{
    let s = biome_neighbors(a);
    if biome_adjacent(a, b) {
        let i = choose|i: int| 0 <= i < s.len() && s[i] == b;
        assert(0 <= i < s.len() && s[i] == b);
    }
    if s.len() > 0 && s[0] == b {
        assert(s.contains(b));
    }
    if s.len() > 1 && s[1] == b {
        assert(s.contains(b));
    }
    if s.len() > 2 && s[2] == b {
        assert(s.contains(b));
    }
}

/// Whether a mutation of `field`, whose value reads as `text` (if it is
/// text), passes the transition filter from biome `current`.
pub open spec fn mutation_passes(current: BiomeType, field: Seq<char>, text: Option<Seq<char>>) -> bool {
    if field != "biome_type"@ {
        true
    } else {
        match text {
            None => true,
            Some(t) => match biome_named(t) {
                None => true,
                Some(target) => target == current || biome_adjacent(current, target),
            },
        }
    }
}

pub open spec fn text_view(t: Option<String>) -> Option<Seq<char>> {
    match t {
        Some(s) => Some(s@),
        None => None,
    }
}

/// The mutations of `ms` that pass the filter, in order; `texts[i]` is what
/// the value of `ms[i]` reads as.
pub open spec fn passing<V>(current: BiomeType, ms: Seq<(String, V)>, texts: Seq<Option<String>>) -> Seq<(String, V)>
    decreases ms.len(),
{
    if ms.len() == 0 {
        seq![]
    } else {
        let rest = passing(current, ms.drop_last(), texts.drop_last());
        if mutation_passes(current, ms.last().0@, text_view(texts.last())) {
            rest.push(ms.last())
        } else {
            rest
        }
    }
}

/// The mutations of `ms` that do not write `biome_type`, in order.
pub open spec fn non_biome<V>(ms: Seq<(String, V)>) -> Seq<(String, V)>
    decreases ms.len(),
{
    if ms.len() == 0 {
        seq![]
    } else if ms.last().0@ == "biome_type"@ {
        non_biome(ms.drop_last())
    } else {
        non_biome(ms.drop_last()).push(ms.last())
    }
}

/// Whether the mutation of `field` from `text` passes the transition filter
/// from biome `current`.
pub fn mutation_allowed(current: BiomeType, field: &str, text: &Option<String>) -> (r: bool)
    ensures
        r == mutation_passes(current, field@, text_view(*text)),
{
    if !text_eq(field, "biome_type") {
        return true;
    }
    match text {
        None => true,
        Some(t) => match parse_biome_type(t.as_str()) {
            None => true,
            Some(target) => transition_allowed(current, target),
        },
    }
}

/// Keeps the mutations that pass the transition filter from `current`, in
/// order; `texts[i]` is what the value of `mutations[i]` reads as, if text.
pub fn retain_valid_transitions<V>(
    current: BiomeType,
    mutations: Vec<(String, V)>,
    texts: &Vec<Option<String>>,
) -> (r: Vec<(String, V)>)
    requires
        texts.len() == mutations.len(),
    ensures
        r@ == passing(current, mutations@, texts@),
{
    let ghost all = mutations@;
    let mut rest = mutations;
    let mut out: Vec<(String, V)> = Vec::new();
    let mut i: usize = 0;
    let n = texts.len();
    while i < n
        invariant
            n == texts.len() == all.len(),
            i <= n,
            rest@ == all.subrange(i as int, n as int),
            out@ == passing(current, all.take(i as int), texts@.take(i as int)),
        decreases n - i,
    {
        let m = rest.remove(0);
        assert(all.take(i + 1).drop_last() =~= all.take(i as int));
        assert(texts@.take(i + 1).drop_last() =~= texts@.take(i as int));
        if mutation_allowed(current, m.0.as_str(), &texts[i]) {
            out.push(m);
        }
        i += 1;
        assert(rest@ =~= all.subrange(i as int, n as int));
    }
    assert(all.take(n as int) =~= all);
    assert(texts@.take(n as int) =~= texts@);
    out
}

/// The transition filter keeps every mutation of another field, in order,
/// and every `biome_type` mutation it keeps names the current kind, an
/// adjacent one, or no kind at all.
pub proof fn lemma_filter_sound<V>(current: BiomeType, ms: Seq<(String, V)>, texts: Seq<Option<String>>)
    requires
        texts.len() == ms.len(),
    ensures
        non_biome(passing(current, ms, texts)) == non_biome(ms),
        forall|j: int| 0 <= j < passing(current, ms, texts).len()
            ==> exists|i: int| 0 <= i < ms.len() && ms[i] == #[trigger] passing(current, ms, texts)[j]
                && mutation_passes(current, ms[i].0@, text_view(texts[i])),
    decreases ms.len(),
{
    if ms.len() > 0 {
        let ms0 = ms.drop_last();
        let t0 = texts.drop_last();
        lemma_filter_sound(current, ms0, t0);
        let p0 = passing(current, ms0, t0);
        let p = passing(current, ms, texts);
        if mutation_passes(current, ms.last().0@, text_view(texts.last())) {
            assert(p.drop_last() =~= p0);
            assert(p.last() == ms.last());
        } else {
            assert(ms.last().0@ == "biome_type"@);
        }
        assert forall|j: int| 0 <= j < p.len()
            implies exists|i: int| 0 <= i < ms.len() && ms[i] == #[trigger] p[j]
                && mutation_passes(current, ms[i].0@, text_view(texts[i])) by {
            if j < p0.len() {
                let i = choose|i: int| 0 <= i < ms0.len() && ms0[i] == #[trigger] p0[j]
                    && mutation_passes(current, ms0[i].0@, text_view(t0[i]));
                assert(ms[i] == p[j]);
            } else {
                assert(ms[ms.len() - 1] == p[j]);
            }
        }
    }
}

/// Relies on rhai's `Dynamic::into_string`: the text a mutation value holds,
/// if it holds text. Nothing is assumed of the result.
#[verifier::external_body]
fn dynamic_text(value: &rhai::Dynamic) -> (r: Option<String>)
{
    value.clone().into_string().ok()
}

/// Drops every `biome_type` mutation that names a kind neither equal nor
/// adjacent to `current_biome`; all other mutations stay, in order.
pub fn filter_invalid_biome_transitions_by_biome(
    current_biome: BiomeType,
    mutations: TileMutations,
) -> (r: TileMutations)
    ensures
        exists|texts: Seq<Option<String>>|
            texts.len() == mutations.mutations@.len()
            && r.mutations@ == passing(current_biome, mutations.mutations@, texts),
{
    let mut texts: Vec<Option<String>> = Vec::new();
    let mut i: usize = 0;
    while i < mutations.mutations.len()
        invariant
            i <= mutations.mutations.len(),
            texts.len() == i,
        decreases mutations.mutations.len() - i,
    {
        texts.push(dynamic_text(&mutations.mutations[i].1));
        i += 1;
    }
    let kept = retain_valid_transitions(current_biome, mutations.mutations, &texts);
    TileMutations { mutations: kept }
}

} // verus!

verus! {

/// The rule errors among `results`, in cell order.
pub open spec fn errors_of(results: Seq<Result<TileMutations, RuleError>>) -> Seq<RuleError>
    decreases results.len(),
{
    if results.len() == 0 {
        seq![]
    } else {
        let rest = errors_of(results.drop_last());
        match results.last() {
            Ok(_) => rest,
            Err(e) => rest.push(e),
        }
    }
}

/// What a cell's evaluation result contributes to the apply step of `phase`:
/// a failed cell writes nothing; in the Terrain phase the mutations pass the
/// biome transition filter from the cell's pre-phase biome.
pub open spec fn applied_mutations(
    phase: Phase,
    result: Result<TileMutations, RuleError>,
    pre_phase_biome: BiomeType,
    out: TileMutations,
) -> bool {
    match result {
        Err(_) => out.mutations@.len() == 0,
        Ok(m) => if phase == Phase::Terrain {
            exists|texts: Seq<Option<String>>|
                texts.len() == m.mutations@.len()
                && out.mutations@ == passing(pre_phase_biome, m.mutations@, texts)
        } else {
            out == m
        },
    }
}

/// Splits the per-cell evaluation results of one phase into what each cell
/// will write (failed cells write nothing; Terrain mutations are filtered
/// against the pre-phase biome) and the rule errors, both in cell order.
pub fn collect_phase_results(
    phase: Phase,
    results: Vec<Result<TileMutations, RuleError>>,
    pre_phase_biomes: &Vec<BiomeType>,
) -> (r: (Vec<TileMutations>, Vec<RuleError>))
    requires
        phase == Phase::Terrain ==> pre_phase_biomes@.len() == results@.len(),
    ensures
        r.0@.len() == results@.len(),
        forall|i: int| 0 <= i < results@.len() ==> applied_mutations(
            phase,
            #[trigger] results@[i],
            pre_phase_biomes@[i],
            r.0@[i],
        ),
        r.1@ == errors_of(results@),
{
    let ghost all = results@;
    let n = results.len();
    let mut out: Vec<TileMutations> = Vec::new();
    let mut k: usize = 0;
    while k < n
        invariant
            k <= n,
            out@.len() == k,
            forall|j: int| 0 <= j < k ==> (#[trigger] out@[j]).mutations@.len() == 0,
        decreases n - k,
    {
        out.push(TileMutations { mutations: Vec::new() });
        k += 1;
    }
    let mut rest = results;
    let mut errors_rev: Vec<RuleError> = Vec::new();
    let mut i: usize = n;
    assert(all.take(n as int) =~= all);
    assert(errors_of(all.take(i as int)) + errors_rev@.reverse() =~= errors_of(all));
    while i > 0
        invariant
            i <= n == all.len(),
            out@.len() == n,
            rest@ == all.take(i as int),
            phase == Phase::Terrain ==> pre_phase_biomes@.len() == n,
            forall|j: int| i <= j < n ==> applied_mutations(phase, #[trigger] all[j], pre_phase_biomes@[j], out@[j]),
            forall|j: int| 0 <= j < i ==> (#[trigger] out@[j]).mutations@.len() == 0,
            errors_of(all.take(i as int)) + errors_rev@.reverse() == errors_of(all),
        decreases i,
    {
        let res = rest.pop().unwrap();
        i -= 1;
        assert(rest@ =~= all.take(i as int));
        assert(all.take(i + 1).drop_last() =~= all.take(i as int));
        assert(res == all[i as int]);
        let ghost prev_rev = errors_rev@;
        let ghost prev_out = out@;
        match res {
            Ok(m) => {
                if phase == Phase::Terrain {
                    out[i] = filter_invalid_biome_transitions_by_biome(pre_phase_biomes[i], m);
                } else {
                    out[i] = m;
                }
            },
            Err(e) => {
                errors_rev.push(e);
                assert(errors_rev@.reverse() =~= seq![e] + prev_rev.reverse());
            },
        }
        assert(errors_of(all.take(i as int)) + errors_rev@.reverse() =~= errors_of(all));
        assert forall|j: int| i <= j < n implies applied_mutations(phase, #[trigger] all[j], pre_phase_biomes@[j], out@[j]) by {
            if j > i {
                assert(out@[j] == prev_out[j]);
            }
        }
    }
    assert(all.take(0) =~= Seq::<Result<TileMutations, RuleError>>::empty());
    let mut errors: Vec<RuleError> = Vec::new();
    let ghost rev = errors_rev@;
    while errors_rev.len() > 0
        invariant
            errors@ + errors_rev@.reverse() == rev.reverse(),
        decreases errors_rev.len(),
    {
        let ghost before = errors_rev@;
        let e = errors_rev.pop().unwrap();
        assert(before.reverse() =~= seq![e] + errors_rev@.reverse());
        errors.push(e);
        assert(errors@ + errors_rev@.reverse() =~= rev.reverse());
    }
    assert(errors@ =~= rev.reverse());
    (out, errors)
}

} // verus!
