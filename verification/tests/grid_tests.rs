use deadmint::grid::{
    generate_grid, is_spawn_safe_zone, CELL_BLOCK, CELL_EMPTY, CELL_WALL, GRID_HEIGHT, GRID_WIDTH,
};

fn standard_spawns() -> Vec<(u8, u8)> {
    vec![(1, 1), (11, 1), (1, 9), (11, 9)]
}

#[test]
fn generation_is_deterministic() {
    let spawns = standard_spawns();
    let a = generate_grid(GRID_WIDTH, GRID_HEIGHT, &spawns);
    let b = generate_grid(GRID_WIDTH, GRID_HEIGHT, &spawns);
    assert_eq!(a, b);
    assert_eq!(a.len(), 143);
}

#[test]
fn standard_grid_cells() {
    // Spawn (1,1): cell (1,1) is empty (Manhattan distance 0), cell (2,2) is
    // a wall (even, even), cell (0,0) is a wall (border).
    let spawns = standard_spawns();
    let cells = generate_grid(13, 11, &spawns);
    let idx = |x: usize, y: usize| y * 13 + x;
    assert_eq!(cells[idx(1, 1)], CELL_EMPTY);
    assert_eq!(cells[idx(2, 2)], CELL_WALL);
    assert_eq!(cells[idx(0, 0)], CELL_WALL);
}

#[test]
fn border_and_pillars_are_walls() {
    let spawns = standard_spawns();
    let cells = generate_grid(13, 11, &spawns);
    for y in 0..11usize {
        for x in 0..13usize {
            let c = cells[y * 13 + x];
            if x == 0 || x == 12 || y == 0 || y == 10 {
                assert_eq!(c, CELL_WALL, "border ({x},{y})");
            } else if x % 2 == 0 && y % 2 == 0 {
                assert_eq!(c, CELL_WALL, "pillar ({x},{y})");
            }
        }
    }
}

#[test]
fn spawn_zones_are_clear() {
    // Interior, off-pillar cells within Manhattan distance 2 of a spawn are
    // empty, never walls or blocks.
    let spawns = standard_spawns();
    let cells = generate_grid(13, 11, &spawns);
    for y in 1..10usize {
        for x in 1..12usize {
            if x % 2 == 0 && y % 2 == 0 {
                continue;
            }
            let near_spawn = spawns.iter().any(|&(sx, sy)| {
                let dx = (x as i32 - sx as i32).abs();
                let dy = (y as i32 - sy as i32).abs();
                dx + dy <= 2
            });
            if near_spawn {
                assert_eq!(cells[y * 13 + x], CELL_EMPTY, "spawn zone ({x},{y})");
            } else {
                assert_eq!(cells[y * 13 + x], CELL_BLOCK, "block ({x},{y})");
            }
        }
    }
}

#[test]
fn spawn_safe_zone_matches_manhattan_distance() {
    let spawns = standard_spawns();
    assert!(is_spawn_safe_zone(&spawns, 1, 1));
    assert!(is_spawn_safe_zone(&spawns, 3, 1));
    assert!(is_spawn_safe_zone(&spawns, 2, 2));
    assert!(!is_spawn_safe_zone(&spawns, 4, 1));
    assert!(!is_spawn_safe_zone(&spawns, 6, 5));
}
