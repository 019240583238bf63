use platformer::tiles::{wall_collider, Plate, Rect, TileGrid, WallCollider};

fn cover_count(rects: &[Rect], x: usize, y: usize) -> usize {
    rects
        .iter()
        .filter(|r| r.left <= x && x <= r.right && r.bottom <= y && y <= r.top)
        .count()
}

fn assert_exact_cover(grid: &TileGrid, rects: &[Rect]) {
    for y in 0..grid.height() {
        for x in 0..grid.width() {
            let expected = if grid.is_occupied(x, y) { 1 } else { 0 };
            assert_eq!(cover_count(rects, x, y), expected, "cell ({}, {})", x, y);
        }
    }
    for r in rects {
        assert!(r.left <= r.right && r.bottom <= r.top);
        assert!(r.right < grid.width() && r.top < grid.height());
    }
}

#[test]
fn one_row_of_three_is_one_rect() {
    let grid = TileGrid::new(5, 3, 16, &vec![(0, 0), (1, 0), (2, 0)]);
    let rects = grid.wall_rects();
    assert_eq!(rects, vec![Rect { left: 0, right: 2, top: 0, bottom: 0 }]);
}

#[test]
fn one_row_of_three_in_a_grid_three_wide() {
    let grid = TileGrid::new(3, 1, 16, &vec![(0, 0), (1, 0), (2, 0)]);
    assert_eq!(grid.wall_rects(), vec![Rect { left: 0, right: 2, top: 0, bottom: 0 }]);
}

#[test]
fn empty_grid_has_no_rects() {
    let grid = TileGrid::new(4, 4, 8, &vec![]);
    assert!(grid.wall_rects().is_empty());
    let none = TileGrid::new(0, 0, 8, &vec![(0, 0)]);
    assert!(none.wall_rects().is_empty());
}

#[test]
fn solid_blocks_are_one_rect() {
    for (w, h) in [(1usize, 1usize), (1, 5), (5, 1), (3, 4), (7, 7)] {
        let mut cells = Vec::new();
        for y in 0..h {
            for x in 0..w {
                cells.push((x as i32 + 2, y as i32 + 1));
            }
        }
        let grid = TileGrid::new(12, 12, 16, &cells);
        let rects = grid.wall_rects();
        assert_eq!(rects, vec![Rect { left: 2, right: w + 1, top: h, bottom: 1 }]);
    }
}

#[test]
fn full_row_plate_ends_at_last_column() {
    let cells: Vec<(i32, i32)> = (0..6).map(|x| (x, 1)).collect();
    let grid = TileGrid::new(6, 2, 16, &cells);
    assert_eq!(grid.row_plates(1), vec![Plate { left: 0, right: 5 }]);
    assert!(grid.row_plates(0).is_empty());
}

#[test]
fn row_plates_are_maximal_runs() {
    let grid = TileGrid::new(8, 1, 16, &vec![(0, 0), (1, 0), (3, 0), (5, 0), (6, 0), (7, 0)]);
    assert_eq!(
        grid.row_plates(0),
        vec![Plate { left: 0, right: 1 }, Plate { left: 3, right: 3 }, Plate { left: 5, right: 7 }]
    );
}

#[test]
fn cells_outside_the_grid_are_ignored() {
    let grid = TileGrid::new(2, 2, 16, &vec![(-1, 0), (0, -1), (2, 0), (0, 2), (1, 1)]);
    assert!(!grid.is_occupied(0, 0));
    assert!(grid.is_occupied(1, 1));
    assert_eq!(grid.wall_rects(), vec![Rect { left: 1, right: 1, top: 1, bottom: 1 }]);
}

#[test]
fn change_of_width_ends_a_rect() {
    // rows 0 and 1: columns 0..=2; row 2: columns 0..=1
    let cells = vec![(0, 0), (1, 0), (2, 0), (0, 1), (1, 1), (2, 1), (0, 2), (1, 2)];
    let grid = TileGrid::new(4, 4, 16, &cells);
    let rects = grid.wall_rects();
    assert_eq!(
        rects,
        vec![
            Rect { left: 0, right: 2, top: 1, bottom: 0 },
            Rect { left: 0, right: 1, top: 2, bottom: 2 },
        ]
    );
    assert_exact_cover(&grid, &rects);
}

#[test]
fn stacked_plates_with_a_gap_stay_apart() {
    let cells = vec![(1, 0), (1, 2)];
    let grid = TileGrid::new(3, 3, 16, &cells);
    assert_eq!(
        grid.wall_rects(),
        vec![
            Rect { left: 1, right: 1, top: 0, bottom: 0 },
            Rect { left: 1, right: 1, top: 2, bottom: 2 },
        ]
    );
}

#[test]
fn pseudo_random_grids_are_covered_exactly() {
    let mut state: u64 = 0x2545_f491_4f6c_dd1d;
    for round in 0..40 {
        let w = 1 + (round * 7) % 64;
        let h = 1 + (round * 13) % 64;
        let mut cells = Vec::new();
        for y in 0..h {
            for x in 0..w {
                state = state.wrapping_mul(6364136223846793005).wrapping_add(1442695040888963407);
                if (state >> 33) % 3 != 0 {
                    cells.push((x as i32, y as i32));
                }
            }
        }
        let grid = TileGrid::new(w, h, 16, &cells);
        let rects = grid.wall_rects();
        assert_exact_cover(&grid, &rects);
    }
}

#[test]
fn collider_of_a_rect() {
    let c = wall_collider(Rect { left: 2, right: 4, top: 1, bottom: 0 }, 16);
    // 3 by 2 cells of 16 units: half extents 24 by 16, centre (56, 16)
    assert_eq!(c, WallCollider { half_width: 48, half_height: 32, center_x: 112, center_y: 32 });
    let one = wall_collider(Rect { left: 0, right: 0, top: 0, bottom: 0 }, 8);
    assert_eq!(one, WallCollider { half_width: 8, half_height: 8, center_x: 8, center_y: 8 });
}

#[test]
fn grid_dimensions_are_kept() {
    let grid = TileGrid::new(9, 4, 24, &vec![]);
    assert_eq!(grid.width(), 9);
    assert_eq!(grid.height(), 4);
    assert_eq!(grid.cell_size(), 24);
}

#[test]
fn rects_come_by_closing_row_then_left_to_right() {
    // two columns of height 2 and one cell between them on row 0
    let cells = vec![(0, 0), (0, 1), (2, 0), (4, 0), (4, 1), (1, 3), (2, 3)];
    let grid = TileGrid::new(5, 4, 16, &cells);
    let rects = grid.wall_rects();
    assert_eq!(
        rects,
        vec![
            Rect { left: 2, right: 2, top: 0, bottom: 0 },
            Rect { left: 0, right: 0, top: 1, bottom: 0 },
            Rect { left: 4, right: 4, top: 1, bottom: 0 },
            Rect { left: 1, right: 2, top: 3, bottom: 3 },
        ]
    );
    assert_exact_cover(&grid, &rects);
}

#[test]
fn merging_twice_gives_the_same_sequence() {
    let mut cells = Vec::new();
    let mut state: u32 = 12345;
    for y in 0..20 {
        for x in 0..20 {
            state = state.wrapping_mul(1103515245).wrapping_add(12345);
            if (state >> 16) % 2 == 0 {
                cells.push((x, y));
            }
        }
    }
    let mut reversed = cells.clone();
    reversed.reverse();
    let a = TileGrid::new(20, 20, 16, &cells).wall_rects();
    let b = TileGrid::new(20, 20, 16, &reversed).wall_rects();
    assert_eq!(a, b);
    for w in a.windows(2) {
        assert!(w[0].top < w[1].top || (w[0].top == w[1].top && w[0].left < w[1].left));
    }
}
