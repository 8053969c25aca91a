use ghostly_core::collision::{generate_multi_col_grid, CollBox, MultiCollider};
use ghostly_core::fx::Vec2Fx;

fn bx(x: i64, y: i64, hx: i64, hy: i64) -> CollBox {
    CollBox { pos: Vec2Fx { x, y }, half_dim: Vec2Fx { x: hx, y: hy } }
}

fn brute(walls: &[CollBox], q: &CollBox) -> bool {
    walls.iter().any(|w| q.check_intersection(w))
}

#[test]
fn grid_query_matches_linear_scan() {
    let mut grid = generate_multi_col_grid(
        Vec2Fx { x: 0, y: 0 },
        Vec2Fx { x: 32000, y: 32000 },
        4,
        3,
    );
    let walls = vec![
        bx(8000, 8000, 8000, 8000),
        bx(40000, 8000, 8000, 8000),
        bx(32000, 48000, 8000, 8000),
        bx(100000, 80000, 8000, 8000),
    ];
    for w in &walls {
        MultiCollider::add_if_intersect_slice(&mut grid, w);
    }
    let queries = vec![
        bx(8000, 8000, 1000, 1000),
        bx(20000, 8000, 6000, 6000),
        bx(60000, 60000, 5000, 5000),
        bx(99000, 79000, 2000, 2000),
        bx(31000, 31000, 20000, 20000),
        bx(1000, 90000, 1000, 1000),
    ];
    for q in &queries {
        assert_eq!(
            MultiCollider::check_intersection_slice(&grid, q),
            brute(&walls, q),
            "grid and brute force disagree"
        );
    }
}

#[test]
fn cull_drops_only_empty_sectors_and_keeps_answers() {
    let mut grid = generate_multi_col_grid(
        Vec2Fx { x: 0, y: 0 },
        Vec2Fx { x: 32000, y: 32000 },
        3,
        3,
    );
    let w = bx(16000, 16000, 8000, 8000);
    MultiCollider::add_if_intersect_slice(&mut grid, &w);
    let q = bx(16000, 16000, 2000, 2000);
    let before = MultiCollider::check_intersection_slice(&grid, &q);
    ghostly_core::collision::cull_sectors(&mut grid);
    assert!(grid.iter().all(|s| !s.read_multi().is_empty()));
    let after = MultiCollider::check_intersection_slice(&grid, &q);
    assert_eq!(before, after);
    assert!(after);
}

#[test]
fn walls_on_sector_seams_are_duplicated() {
    let mut grid = generate_multi_col_grid(
        Vec2Fx { x: 0, y: 0 },
        Vec2Fx { x: 32000, y: 32000 },
        2,
        1,
    );
    // straddles the seam at x = 32000
    let w = bx(32000, 16000, 8000, 8000);
    MultiCollider::add_if_intersect_slice(&mut grid, &w);
    let members: usize = grid.iter().map(|s| s.read_multi().len()).sum();
    assert_eq!(members, 2);
}
