use std::collections::{HashSet, VecDeque};

use worldground::topology::{
    generate_flat_hex_neighbors, generate_geodesic_neighbors, geodesic_tile_count, grid_dimensions,
    mesh_neighbors,
};

fn reachable_count(neighbors: &[Vec<u32>]) -> usize {
    let total = neighbors.len();
    let mut visited = vec![false; total];
    let mut queue = VecDeque::new();
    queue.push_back(0u32);
    visited[0] = true;
    let mut count = 1;
    while let Some(id) = queue.pop_front() {
        for &n in &neighbors[id as usize] {
            if !visited[n as usize] {
                visited[n as usize] = true;
                count += 1;
                queue.push_back(n);
            }
        }
    }
    count
}

#[test]
fn flat_hex_correct_tile_count() {
    let tiles = generate_flat_hex_neighbors(32, 32);
    assert_eq!(tiles.len(), 1024);
}

#[test]
fn all_tiles_have_six_neighbors() {
    let tiles = generate_flat_hex_neighbors(10, 10);
    for (id, n) in tiles.iter().enumerate() {
        assert_eq!(n.len(), 6, "Tile {} has {} neighbors", id, n.len());
    }
}

#[test]
fn neighbors_are_bidirectional() {
    let tiles = generate_flat_hex_neighbors(10, 10);
    for (id, n) in tiles.iter().enumerate() {
        for &nid in n {
            assert!(tiles[nid as usize].contains(&(id as u32)));
        }
    }
}

#[test]
fn no_self_neighbors() {
    let tiles = generate_flat_hex_neighbors(10, 10);
    for (id, n) in tiles.iter().enumerate() {
        assert!(!n.contains(&(id as u32)));
    }
}

#[test]
fn no_duplicate_neighbors() {
    let tiles = generate_flat_hex_neighbors(10, 10);
    for n in &tiles {
        let unique: HashSet<u32> = n.iter().copied().collect();
        assert_eq!(unique.len(), n.len());
    }
}

#[test]
fn all_tiles_reachable() {
    let tiles = generate_flat_hex_neighbors(10, 10);
    assert_eq!(reachable_count(&tiles), tiles.len());
}

#[test]
fn small_grid_neighbor_verification() {
    let tiles = generate_flat_hex_neighbors(4, 4);
    assert_eq!(tiles.len(), 16);

    let t0 = &tiles[0];
    assert!(t0.contains(&1));
    assert!(t0.contains(&3));
    assert!(t0.contains(&4));
    assert!(t0.contains(&12));

    let t5 = &tiles[5];
    assert!(t5.contains(&6));
    assert!(t5.contains(&4));
    assert!(t5.contains(&2));
    assert!(t5.contains(&1));
    assert!(t5.contains(&10));
    assert!(t5.contains(&9));
}

#[test]
fn flat_hex_neighbor_order_even_and_odd_rows() {
    let tiles = generate_flat_hex_neighbors(4, 4);
    // even row 0, col 0: E, W, NE, NW, SE, SW
    assert_eq!(tiles[0], vec![1, 3, 12, 15, 4, 7]);
    // odd row 1, col 1
    assert_eq!(tiles[5], vec![6, 4, 2, 1, 10, 9]);
}

#[test]
fn grid_dimensions_returns_valid_sizes() {
    let (w, h) = grid_dimensions(1000);
    assert!(w * h >= 1000);
    assert!(h % 2 == 0);

    let (w, h) = grid_dimensions(100);
    assert!(w * h >= 100);
    assert!(h % 2 == 0);

    let (w, h) = grid_dimensions(10000);
    assert!(w * h >= 10000);
    assert!(h % 2 == 0);
}

#[test]
fn grid_dimensions_exact_values() {
    assert_eq!(grid_dimensions(1000), (32, 32));
    assert_eq!(grid_dimensions(100), (10, 10));
    assert_eq!(grid_dimensions(101), (11, 12));
    assert_eq!(grid_dimensions(0), (2, 2));
    assert_eq!(grid_dimensions(1), (2, 2));
    assert_eq!(grid_dimensions(u32::MAX), (65536, 65536));
}

#[test]
fn topology_is_deterministic() {
    let tiles1 = generate_flat_hex_neighbors(10, 10);
    let tiles2 = generate_flat_hex_neighbors(10, 10);
    assert_eq!(tiles1, tiles2);
}

#[test]
fn geodesic_tile_count_formula() {
    assert_eq!(geodesic_tile_count(1), 42);
    assert_eq!(geodesic_tile_count(2), 162);
    assert_eq!(geodesic_tile_count(3), 642);
    assert_eq!(geodesic_tile_count(4), 2562);
    assert_eq!(geodesic_tile_count(5), 10242);
    assert_eq!(geodesic_tile_count(6), 40962);
    assert_eq!(geodesic_tile_count(7), 163842);
}

#[test]
fn geodesic_correct_tile_counts() {
    for level in 1..=5 {
        let tiles = generate_geodesic_neighbors(level);
        assert_eq!(tiles.len(), geodesic_tile_count(level) as usize);
    }
}

#[test]
fn geodesic_exactly_12_pentagons() {
    let tiles = generate_geodesic_neighbors(4);
    let pentagons = tiles.iter().filter(|n| n.len() == 5).count();
    let hexagons = tiles.iter().filter(|n| n.len() == 6).count();
    let other = tiles.iter().filter(|n| n.len() != 5 && n.len() != 6).count();
    assert_eq!(pentagons, 12);
    assert_eq!(hexagons, tiles.len() - 12);
    assert_eq!(other, 0);
}

#[test]
fn geodesic_neighbors_bidirectional() {
    let tiles = generate_geodesic_neighbors(3);
    for (id, n) in tiles.iter().enumerate() {
        for &nid in n {
            assert!(tiles[nid as usize].contains(&(id as u32)));
        }
    }
}

#[test]
fn geodesic_no_self_neighbors() {
    let tiles = generate_geodesic_neighbors(3);
    for (id, n) in tiles.iter().enumerate() {
        assert!(!n.contains(&(id as u32)));
    }
}

#[test]
fn geodesic_no_duplicate_neighbors() {
    let tiles = generate_geodesic_neighbors(3);
    for n in &tiles {
        let unique: HashSet<u32> = n.iter().copied().collect();
        assert_eq!(unique.len(), n.len());
        let mut sorted = n.clone();
        sorted.sort_unstable();
        assert_eq!(&sorted, n);
    }
}

#[test]
fn geodesic_all_tiles_reachable() {
    let tiles = generate_geodesic_neighbors(3);
    assert_eq!(reachable_count(&tiles), tiles.len());
}

#[test]
fn geodesic_is_deterministic() {
    assert_eq!(generate_geodesic_neighbors(3), generate_geodesic_neighbors(3));
}

#[test]
fn mesh_neighbors_of_two_triangles() {
    // a square split along the diagonal 0-2
    let indices = vec![0, 1, 2, 0, 2, 3];
    let n = mesh_neighbors(5, &indices);
    assert_eq!(n.len(), 5);
    assert_eq!(n[0], vec![1, 2, 3]);
    assert_eq!(n[1], vec![0, 2]);
    assert_eq!(n[2], vec![0, 1, 3]);
    assert_eq!(n[3], vec![0, 2]);
    assert!(n[4].is_empty());
}

#[test]
fn mesh_neighbors_skips_repeated_corner() {
    let indices = vec![1, 1, 2];
    let n = mesh_neighbors(3, &indices);
    assert_eq!(n[1], vec![2]);
    assert_eq!(n[2], vec![1]);
    assert!(n[0].is_empty());
}
