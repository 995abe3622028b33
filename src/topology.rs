//! Cell graphs: the toroidal hex grid and the subdivided icosahedron.

use vstd::prelude::*;

verus! {

/// The smallest `s` with `s * s >= n`.
pub open spec fn is_ceil_sqrt(n: nat, s: nat) -> bool {
    &&& s * s >= n
    &&& s == 0 || (s - 1) * (s - 1) < n
}

pub open spec fn max2(s: nat) -> nat {
    if s < 2 { 2 } else { s }
}

/// Grid dimensions for about `target_count` cells: width is the ceiling of
/// the square root (at least 2), height the same rounded up to even.
pub fn grid_dimensions(target_count: u32) -> (r: (u32, u32))
    ensures
        exists|s: nat| is_ceil_sqrt(target_count as nat, s)
            && r.0 == max2(s)
            && r.1 == (if max2(s) % 2 == 0 { max2(s) } else { max2(s) + 1 }),
        r.0 >= 2,
        r.1 >= 2,
        r.1 % 2 == 0,
        r.0 * r.1 >= target_count,
{
    let n = target_count as u64;
    // smallest s in [lo, hi] with s * s >= n
    let mut lo: u64 = 0;
    let mut hi: u64 = 65536;
    assert(hi * hi >= n) by (nonlinear_arith)
        requires
            n <= u32::MAX,
            hi == 65536,
    ;
    while lo < hi
        invariant
            lo <= hi <= 65536,
            hi * hi >= n,
            lo == 0 || (lo - 1) * (lo - 1) < n,
        decreases hi - lo,
    {
        let mid = lo + (hi - lo) / 2;
        assert(mid * mid <= 65536 * 65536) by (nonlinear_arith)
            requires
                mid <= 65536,
        ;
        if mid * mid >= n {
            hi = mid;
        } else {
            lo = mid + 1;
        }
    }
    let ghost s = lo as nat;
    assert(is_ceil_sqrt(n as nat, s));
    let side: u64 = if lo < 2 { 2 } else { lo };
    let height: u64 = if side % 2 == 0 { side } else { side + 1 };
    assert(side * side >= lo * lo) by (nonlinear_arith)
        requires
            side >= lo,
    ;
    assert(side * height >= n) by (nonlinear_arith)
        requires
            side * side >= n,
            height >= side,
    ;
    let r = (side as u32, height as u32);
    assert(is_ceil_sqrt(target_count as nat, s) && r.0 == max2(s)
        && r.1 == (if max2(s) % 2 == 0 { max2(s) } else { max2(s) + 1 }));
    r
}

/// Column and row offsets of the six neighbors in odd-r layout, for rows of
/// the given parity: East, West, North-east, North-west, South-east,
/// South-west.
pub open spec fn hex_offset(odd_row: bool, k: int) -> (int, int) {
    if !odd_row {
        if k == 0 { (1, 0) } else if k == 1 { (-1, 0) } else if k == 2 { (0, -1) }
        else if k == 3 { (-1, -1) } else if k == 4 { (0, 1) } else { (-1, 1) }
    } else {
        if k == 0 { (1, 0) } else if k == 1 { (-1, 0) } else if k == 2 { (1, -1) }
        else if k == 3 { (0, -1) } else if k == 4 { (1, 1) } else { (0, 1) }
    }
}

/// The direction opposite to direction `k`.
pub open spec fn hex_opposite(k: int) -> int {
    if k == 0 { 1 } else if k == 1 { 0 } else if k == 2 { 5 }
    else if k == 3 { 4 } else if k == 4 { 3 } else { 2 }
}

/// The cell reached from cell `id` in direction `k` on a `width` x `height`
/// torus, cells numbered row by row.
pub open spec fn hex_neighbor(width: int, height: int, id: int, k: int) -> int {
    let col = id % width;
    let row = id / width;
    let off = hex_offset(row % 2 == 1, k);
    ((row + off.1) % height) * width + (col + off.0) % width
}

pub open spec fn valid_torus(width: int, height: int) -> bool {
    &&& width >= 2
    &&& height >= 2
    &&& height % 2 == 0
    &&& width * height <= u32::MAX
}

proof fn lemma_cell_coords(width: int, height: int, row: int, col: int)
    requires
        width >= 1,
        0 <= row < height,
        0 <= col < width,
    ensures
        (row * width + col) / width == row,
        (row * width + col) % width == col,
        0 <= row * width + col < width * height,
{
    vstd::arithmetic::div_mod::lemma_fundamental_div_mod_converse(row * width + col, width, row, col);
    assert(row * width + col < width * height) by (nonlinear_arith)
        requires
            row < height,
            col < width,
            width >= 1,
    ;
    assert(row * width >= 0) by (nonlinear_arith)
        requires
            row >= 0,
            width >= 1,
    ;
}

proof fn lemma_wrap(x: int, d: int, m: int)
    requires
        m >= 2,
        0 <= x < m,
        -1 <= d <= 1,
    ensures
        0 <= (x + d) % m < m,
        (x + d) % m == (if x + d < 0 { x + d + m } else if x + d >= m { x + d - m } else { x + d }),
{
    if x + d < 0 {
        vstd::arithmetic::div_mod::lemma_fundamental_div_mod_converse(x + d, m, -1, x + d + m);
    } else if x + d >= m {
        vstd::arithmetic::div_mod::lemma_fundamental_div_mod_converse(x + d, m, 1, x + d - m);
    } else {
        vstd::arithmetic::div_mod::lemma_small_mod((x + d) as nat, m as nat);
    }
}

/// On a valid torus every neighbor is another cell of the grid, and the
/// neighbor relation is symmetric: the opposite direction leads back.
pub proof fn lemma_hex_neighbors_symmetric(width: int, height: int, id: int, k: int)
    requires
        valid_torus(width, height),
        0 <= id < width * height,
        0 <= k < 6,
    ensures
        0 <= hex_neighbor(width, height, id, k) < width * height,
        hex_neighbor(width, height, id, k) != id,
        hex_neighbor(width, height, hex_neighbor(width, height, id, k), hex_opposite(k)) == id,
{
    let col = id % width;
    let row = id / width;
    vstd::arithmetic::div_mod::lemma_fundamental_div_mod(id, width);
    assert(0 <= row < height) by (nonlinear_arith)
        requires
            id == width * row + col,
            0 <= col < width,
            0 <= id < width * height,
            width >= 2,
    ;
    let off = hex_offset(row % 2 == 1, k);
    let nrow = (row + off.1) % height;
    let ncol = (col + off.0) % width;
    lemma_wrap(row, off.1, height);
    lemma_wrap(col, off.0, width);
    let j = nrow * width + ncol;
    lemma_cell_coords(width, height, nrow, ncol);
    lemma_cell_coords(width, height, row, col);
    assert(id == row * width + col) by (nonlinear_arith)
        requires
            id == width * row + col,
    ;
    // the row parity flips exactly when the row changes, since height is even
    assert(nrow % 2 == 1 <==> (if off.1 == 0 { row % 2 == 1 } else { row % 2 == 0 }));
    let back = hex_offset(nrow % 2 == 1, hex_opposite(k));
    lemma_wrap(nrow, back.1, height);
    lemma_wrap(ncol, back.0, width);
    assert((nrow + back.1) % height == row);
    assert((ncol + back.0) % width == col);
    if j == id {
        assert(nrow == row && ncol == col);
    }
}

/// Whether cell `id` can be reached from cell 0 in at most `steps` moves
/// along the torus's neighbor relation.
pub open spec fn hex_reachable(width: int, height: int, steps: nat, id: int) -> bool
    decreases steps,
{
    if steps == 0 {
        id == 0
    } else {
        hex_reachable(width, height, (steps - 1) as nat, id) || exists|j: int, k: int|
            0 <= j < width * height && 0 <= k < 6 && hex_reachable(width, height, (steps - 1) as nat, j)
                && #[trigger] hex_neighbor(width, height, j, k) == id
    }
}

proof fn lemma_reach_cell(width: int, height: int, row: int, col: int)
    requires
        valid_torus(width, height),
        0 <= row < height,
        0 <= col < width,
    ensures
        hex_reachable(width, height, (row + col) as nat, row * width + col),
    decreases row + col,
{
    if col > 0 {
        lemma_reach_cell(width, height, row, col - 1);
        let j = row * width + col - 1;
        lemma_cell_coords(width, height, row, col - 1);
        lemma_wrap(col - 1, 1, width);
        lemma_wrap(row, 0, height);
        assert(hex_neighbor(width, height, j, 0) == row * width + col);
    } else if row > 0 {
        lemma_reach_cell(width, height, row - 1, 0);
        let j = (row - 1) * width;
        lemma_cell_coords(width, height, row - 1, 0);
        lemma_wrap(row - 1, 1, height);
        lemma_wrap(0, 0, width);
        assert((row - 1) * width + 0 == j);
        let k: int = if (row - 1) % 2 == 1 { 5 } else { 4 };
        assert(hex_neighbor(width, height, j, k) == row * width);
        assert(row * width == row * width + col);
        assert(0 <= j < width * height);
    } else {
        assert(row * width + col == 0) by (nonlinear_arith)
            requires
                row == 0,
                col == 0,
        ;
    }
}

/// Every cell of a valid torus is reachable from cell 0.
pub proof fn lemma_hex_grid_connected(width: int, height: int, id: int)
    requires
        valid_torus(width, height),
        0 <= id < width * height,
    ensures
        exists|steps: nat| hex_reachable(width, height, steps, id),
{
    let col = id % width;
    let row = id / width;
    vstd::arithmetic::div_mod::lemma_fundamental_div_mod(id, width);
    assert(0 <= row < height) by (nonlinear_arith)
        requires
            id == width * row + col,
            0 <= col < width,
            0 <= id < width * height,
            width >= 2,
    ;
    assert(id == row * width + col) by (nonlinear_arith)
        requires
            id == width * row + col,
    ;
    lemma_reach_cell(width, height, row, col);
}

/// Neighbor lists of a `width` x `height` toroidal hex grid in odd-r layout;
/// list `id` gives the six neighbors of cell `id` in the order East, West,
/// North-east, North-west, South-east, South-west.
pub fn generate_flat_hex_neighbors(width: u32, height: u32) -> (r: Vec<Vec<u32>>)
    requires
        valid_torus(width as int, height as int),
    ensures
        r@.len() == width * height,
        forall|id: int| 0 <= id < r@.len() ==> (#[trigger] r@[id])@.len() == 6,
        forall|id: int, k: int| 0 <= id < r@.len() && 0 <= k < 6
            ==> (#[trigger] r@[id]@[k]) as int == hex_neighbor(width as int, height as int, id, k),
{
    let ghost w = width as int;
    let ghost h = height as int;
    let mut tiles: Vec<Vec<u32>> = Vec::new();
    let mut row: u32 = 0;
    while row < height
        invariant
            valid_torus(w, h),
            w == width,
            h == height,
            row <= height,
            tiles@.len() == row * width,
            forall|id: int| 0 <= id < tiles@.len() ==> (#[trigger] tiles@[id])@.len() == 6,
            forall|id: int, k: int| 0 <= id < tiles@.len() && 0 <= k < 6
                ==> (#[trigger] tiles@[id]@[k]) as int == hex_neighbor(w, h, id, k),
        decreases height - row,
    {
        let mut col: u32 = 0;
        while col < width
            invariant
                valid_torus(w, h),
                w == width,
                h == height,
                row < height,
                col <= width,
                tiles@.len() == row * width + col,
                forall|id: int| 0 <= id < tiles@.len() ==> (#[trigger] tiles@[id])@.len() == 6,
                forall|id: int, k: int| 0 <= id < tiles@.len() && 0 <= k < 6
                    ==> (#[trigger] tiles@[id]@[k]) as int == hex_neighbor(w, h, id, k),
            decreases width - col,
        {
            let ghost id = row * width + col;
            proof {
                lemma_cell_coords(w, h, row as int, col as int);
            }
            let odd = row % 2 == 1;
            let up = if row == 0 { height - 1 } else { row - 1 };
            let down = if row + 1 == height { 0 } else { row + 1 };
            let left = if col == 0 { width - 1 } else { col - 1 };
            let right = if col + 1 == width { 0 } else { col + 1 };
            proof {
                lemma_wrap(row as int, -1, h);
                lemma_wrap(row as int, 1, h);
                lemma_wrap(col as int, -1, w);
                lemma_wrap(col as int, 1, w);
                lemma_wrap(col as int, 0, w);
                lemma_cell_coords(w, h, up as int, left as int);
                lemma_cell_coords(w, h, up as int, col as int);
                lemma_cell_coords(w, h, up as int, right as int);
                lemma_cell_coords(w, h, down as int, left as int);
                lemma_cell_coords(w, h, down as int, col as int);
                lemma_cell_coords(w, h, down as int, right as int);
                lemma_cell_coords(w, h, row as int, left as int);
                lemma_cell_coords(w, h, row as int, right as int);
            }
            let mut nb: Vec<u32> = Vec::new();
            nb.push(row * width + right);
            nb.push(row * width + left);
            if !odd {
                nb.push(up * width + col);
                nb.push(up * width + left);
                nb.push(down * width + col);
                nb.push(down * width + left);
            } else {
                nb.push(up * width + right);
                nb.push(up * width + col);
                nb.push(down * width + right);
                nb.push(down * width + col);
            }
            proof {
                assert forall|k: int| 0 <= k < 6 implies (#[trigger] nb@[k]) as int == hex_neighbor(w, h, id as int, k) by {
                    assert((row as int + 0) % h == row) by {
                        vstd::arithmetic::div_mod::lemma_small_mod(row as nat, h as nat);
                    }
                }
            }
            tiles.push(nb);
            col += 1;
        }
        assert(row * width + width == (row + 1) * width) by (nonlinear_arith);
        row += 1;
    }
    assert(height * width == width * height) by (nonlinear_arith);
    tiles
}

/// 4 to the power `level`.
pub open spec fn pow4(level: nat) -> nat
    decreases level,
{
    if level == 0 { 1 } else { 4 * pow4((level - 1) as nat) }
}

/// Number of cells of the geodesic grid of subdivision level `level`:
/// `10 * 4^level + 2`.
pub open spec fn geodesic_count(level: nat) -> nat {
    10 * pow4(level) + 2
}

/// Exact cell count of the geodesic grid of subdivision level `level`.
pub fn geodesic_tile_count(level: u32) -> (r: u32)
    requires
        geodesic_count(level as nat) <= u32::MAX,
    ensures
        r == geodesic_count(level as nat),
{
    let mut p: u32 = 1;
    let mut i: u32 = 0;
    while i < level
        invariant
            i <= level,
            p == pow4(i as nat),
            10 * pow4(level as nat) + 2 <= u32::MAX,
        decreases level - i,
    {
        proof { lemma_pow4_monotone(i as nat + 1, level as nat); }
        p = p * 4;
        i += 1;
    }
    10 * p + 2
}

proof fn lemma_pow4_monotone(a: nat, b: nat)
    requires
        a <= b,
    ensures
        pow4(a) <= pow4(b),
    decreases b - a,
{
    if a < b {
        lemma_pow4_monotone(a, (b - 1) as nat);
        assert(pow4(b) == 4 * pow4((b - 1) as nat));
    }
}

/// Whether `a` and `b` are two distinct corners of triangle `t` (the corners
/// of triangle `t` are `ix[3t]`, `ix[3t+1]`, `ix[3t+2]`).
pub open spec fn triangle_pair(ix: Seq<u32>, t: int, a: int, b: int) -> bool {
    let x = ix[3 * t] as int;
    let y = ix[3 * t + 1] as int;
    let z = ix[3 * t + 2] as int;
    &&& a != b
    &&& (a == x || a == y || a == z)
    &&& (b == x || b == y || b == z)
}

/// Whether some triangle among the first `count` has both `a` and `b` as
/// distinct corners.
pub open spec fn shares_triangle(ix: Seq<u32>, count: int, a: int, b: int) -> bool {
    exists|t: int| 0 <= t < count && #[trigger] triangle_pair(ix, t, a, b)
}

/// Whether `a` and `b` are joined by an edge of the triangle list `ix`.
pub open spec fn mesh_adjacent(ix: Seq<u32>, a: int, b: int) -> bool {
    shares_triangle(ix, (ix.len() / 3) as int, a, b)
}

pub open spec fn strictly_ascending(s: Seq<u32>) -> bool {
    forall|i: int, j: int| 0 <= i < j < s.len() ==> s[i] < s[j]
}

/// Adjacency is symmetric and never links a vertex to itself.
pub proof fn lemma_mesh_adjacency_symmetric(ix: Seq<u32>, a: int, b: int)
    ensures
        mesh_adjacent(ix, a, b) == mesh_adjacent(ix, b, a),
        !mesh_adjacent(ix, a, a),
{
    if mesh_adjacent(ix, a, b) {
        let t = choose|t: int| 0 <= t < ix.len() / 3 && #[trigger] triangle_pair(ix, t, a, b);
        assert(triangle_pair(ix, t, b, a));
    }
    if mesh_adjacent(ix, b, a) {
        let t = choose|t: int| 0 <= t < ix.len() / 3 && #[trigger] triangle_pair(ix, t, b, a);
        assert(triangle_pair(ix, t, a, b));
    }
}

/// Inserts `x` into an ascending list without duplicates, keeping it so.
fn insert_sorted(v: &mut Vec<u32>, x: u32)
    requires
        strictly_ascending(old(v)@),
    ensures
        strictly_ascending(final(v)@),
        forall|u: u32| #[trigger] final(v)@.contains(u) <==> (old(v)@.contains(u) || u == x),
{
    let mut i: usize = 0;
    while i < v.len() && v[i] < x
        invariant
            v@ == old(v)@,
            strictly_ascending(v@),
            i <= v.len(),
            forall|j: int| 0 <= j < i ==> v@[j] < x,
        decreases v.len() - i,
    {
        i += 1;
    }
    if i < v.len() && v[i] == x {
        assert(v@[i as int] == x);
        return;
    }
    let ghost before = v@;
    v.insert(i, x);
    assert forall|u: u32| #[trigger] v@.contains(u) <==> (before.contains(u) || u == x) by {
        if before.contains(u) {
            let j = choose|j: int| 0 <= j < before.len() && before[j] == u;
            if j < i {
                assert(v@[j] == u);
            } else {
                assert(v@[j + 1] == u);
            }
        }
        if v@.contains(u) {
            let j = choose|j: int| 0 <= j < v@.len() && v@[j] == u;
            if j < i {
                assert(before[j] == u);
            } else if j > i {
                assert(before[j - 1] == u);
            }
        }
        if u == x {
            assert(v@[i as int] == x);
        }
    }
}

/// Adds `b` to the list of `a`.
fn link(sets: &mut Vec<Vec<u32>>, a: u32, b: u32)
    requires
        (a as int) < old(sets)@.len(),
        forall|w: int| 0 <= w < old(sets)@.len() ==> strictly_ascending(#[trigger] old(sets)@[w]@),
    ensures
        final(sets)@.len() == old(sets)@.len(),
        forall|w: int| 0 <= w < final(sets)@.len() ==> strictly_ascending(#[trigger] final(sets)@[w]@),
        forall|w: int, u: u32| 0 <= w < final(sets)@.len() ==>
            (#[trigger] final(sets)@[w]@.contains(u) <==> (old(sets)@[w]@.contains(u) || (w == a && u == b))),
{
    insert_sorted(&mut sets[a as usize], b);
}

/// Neighbor lists of the vertices `0..point_count` of a triangle mesh: list
/// `v` holds, in ascending order and once each, the vertices that share a
/// triangle of `indices` with `v`.
pub fn mesh_neighbors(point_count: usize, indices: &Vec<u32>) -> (r: Vec<Vec<u32>>)
    requires
        indices@.len() % 3 == 0,
        forall|i: int| 0 <= i < indices@.len() ==> (#[trigger] indices@[i]) < point_count,
    ensures
        r@.len() == point_count,
        forall|v: int| 0 <= v < point_count ==> strictly_ascending(#[trigger] r@[v]@),
        forall|v: int, u: u32| 0 <= v < point_count ==>
            (#[trigger] r@[v]@.contains(u) <==> mesh_adjacent(indices@, v, u as int)),
{
    let ghost ix = indices@;
    let mut sets: Vec<Vec<u32>> = Vec::new();
    let mut v: usize = 0;
    while v < point_count
        invariant
            v <= point_count,
            sets@.len() == v,
            forall|w: int| 0 <= w < v ==> (#[trigger] sets@[w])@.len() == 0,
        decreases point_count - v,
    {
        sets.push(Vec::new());
        v += 1;
    }
    let tri_count = indices.len() / 3;
    let mut t: usize = 0;
    while t < tri_count
        invariant
            ix == indices@,
            tri_count == ix.len() / 3,
            ix.len() % 3 == 0,
            forall|i: int| 0 <= i < ix.len() ==> (#[trigger] ix[i]) < point_count,
            t <= tri_count,
            sets@.len() == point_count,
            forall|w: int| 0 <= w < point_count ==> strictly_ascending(#[trigger] sets@[w]@),
            forall|w: int, u: u32| 0 <= w < point_count ==>
                (#[trigger] sets@[w]@.contains(u) <==> shares_triangle(ix, t as int, w, u as int)),
        decreases tri_count - t,
    {
        let n = indices.len();
        assert(3 * t + 2 < n) by (nonlinear_arith)
            requires
                t < tri_count,
                tri_count == n / 3,
                n % 3 == 0,
        ;
        let x = indices[3 * t];
        let y = indices[3 * t + 1];
        let z = indices[3 * t + 2];
        let ghost old_sets = sets@;
        if x != y {
            link(&mut sets, x, y);
            link(&mut sets, y, x);
        }
        if x != z {
            link(&mut sets, x, z);
            link(&mut sets, z, x);
        }
        if y != z {
            link(&mut sets, y, z);
            link(&mut sets, z, y);
        }
        proof {
            assert forall|w: int, u: u32| 0 <= w < point_count implies
                (#[trigger] sets@[w]@.contains(u) <==> shares_triangle(ix, t + 1, w, u as int)) by {
                assert(old_sets[w]@.contains(u) <==> shares_triangle(ix, t as int, w, u as int));
                assert(sets@[w]@.contains(u) <==> (old_sets[w]@.contains(u)
                    || triangle_pair(ix, t as int, w, u as int)));
                if shares_triangle(ix, t + 1, w, u as int) && !triangle_pair(ix, t as int, w, u as int) {
                    let s = choose|s: int| 0 <= s < t + 1 && #[trigger] triangle_pair(ix, s, w, u as int);
                    assert(s < t);
                }
                if shares_triangle(ix, t as int, w, u as int) {
                    let s = choose|s: int| 0 <= s < t && #[trigger] triangle_pair(ix, s, w, u as int);
                    assert(triangle_pair(ix, s, w, u as int));
                }
            }
        }
        t += 1;
    }
    sets
}

/// Number of vertices of the icosphere with `subdivisions` extra points per
/// base edge.
pub uninterp spec fn icosphere_point_count(subdivisions: nat) -> nat;

/// Triangle list of the icosphere with `subdivisions` extra points per base
/// edge.
pub uninterp spec fn icosphere_indices(subdivisions: nat) -> Seq<u32>;

/// Relies on hexasphere's `IcoSphere::new`, `raw_points` and
/// `get_all_indices`: the mesh is a function of the subdivision count; the
/// index list holds triangles as consecutive triples, each entry an index
/// into the point list.
#[verifier::external_body]
fn icosphere_mesh(subdivisions: usize) -> (r: (usize, Vec<u32>))
    requires
        subdivisions < 128,
    ensures
        r.0 == icosphere_point_count(subdivisions as nat),
        r.1@ == icosphere_indices(subdivisions as nat),
        r.1@.len() % 3 == 0,
        forall|i: int| 0 <= i < r.1@.len() ==> (#[trigger] r.1@[i]) < r.0,
{
    let sphere = hexasphere::shapes::IcoSphere::<()>::new(subdivisions, |_| ());
    (sphere.raw_points().len(), sphere.get_all_indices())
}

/// Extra points per base edge that give level `level`: `2^level - 1`.
pub open spec fn level_subdivisions(level: nat) -> nat
    decreases level,
{
    if level == 0 { 0 } else { 2 * level_subdivisions((level - 1) as nat) + 1 }
}

/// Neighbor lists of the geodesic grid of subdivision level `level` (1 to
/// 7): one list per icosphere vertex, ascending, each neighbor once.
pub fn generate_geodesic_neighbors(level: u32) -> (r: Vec<Vec<u32>>)
    requires
        1 <= level <= 7,
    ensures
        r@.len() == icosphere_point_count(level_subdivisions(level as nat)),
        forall|v: int| 0 <= v < r@.len() ==> strictly_ascending(#[trigger] r@[v]@),
        forall|v: int, u: u32| 0 <= v < r@.len() ==>
            (#[trigger] r@[v]@.contains(u)
                <==> mesh_adjacent(icosphere_indices(level_subdivisions(level as nat)), v, u as int)),
{
    let mut sub: usize = 0;
    let mut i: u32 = 0;
    while i < level
        invariant
            i <= level <= 7,
            sub == level_subdivisions(i as nat),
            sub < 128,
        decreases level - i,
    {
        sub = 2 * sub + 1;
        i += 1;
        assert(sub < 128) by {
            assert(level_subdivisions(0) == 0);
            assert(level_subdivisions(1) == 1);
            assert(level_subdivisions(2) == 3);
            assert(level_subdivisions(3) == 7);
            assert(level_subdivisions(4) == 15);
            assert(level_subdivisions(5) == 31);
            assert(level_subdivisions(6) == 63);
            assert(level_subdivisions(7) == 127);
        }
    }
    let (count, indices) = icosphere_mesh(sub);
    mesh_neighbors(count, &indices)
}

} // verus!
