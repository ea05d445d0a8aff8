use color_wizard::color::Color;
use color_wizard::grid::{try_tile_pos, Cell, GridSize, TileGrid};
use color_wizard::pattern::{gather_neighbors, AttackPattern};

fn c(x: u32, y: u32) -> Cell {
    Cell { x, y }
}

const SIZE: GridSize = GridSize { x: 16, y: 16 };

#[test]
fn try_tile_pos_accepts_in_range() {
    assert_eq!(try_tile_pos(0, 0, SIZE), Some(c(0, 0)));
    assert_eq!(try_tile_pos(15, 15, SIZE), Some(c(15, 15)));
    assert_eq!(try_tile_pos(7, 12, SIZE), Some(c(7, 12)));
}

#[test]
fn try_tile_pos_rejects_out_of_range() {
    assert_eq!(try_tile_pos(-1, 0, SIZE), None);
    assert_eq!(try_tile_pos(0, -1, SIZE), None);
    assert_eq!(try_tile_pos(16, 0, SIZE), None);
    assert_eq!(try_tile_pos(0, 16, SIZE), None);
    assert_eq!(try_tile_pos(i64::MAX, i64::MIN, SIZE), None);
}

#[test]
fn try_tile_pos_every_result_in_range() {
    let size = GridSize { x: 5, y: 3 };
    for x in -3i64..9 {
        for y in -3i64..9 {
            match try_tile_pos(x, y, size) {
                Some(cell) => {
                    assert!(cell.x < 5 && cell.y < 3);
                    assert_eq!((cell.x as i64, cell.y as i64), (x, y));
                }
                None => assert!(x < 0 || y < 0 || x >= 5 || y >= 3),
            }
        }
    }
}

#[test]
fn grid_starts_white_and_paints() {
    let mut g = TileGrid::new(SIZE);
    assert_eq!(g.get_color(c(3, 4)), Color::White);
    g.set_color(c(3, 4), Color::Red);
    assert_eq!(g.get_color(c(3, 4)), Color::Red);
    assert_eq!(g.get_color(c(4, 3)), Color::White);
    assert_eq!(g.size(), SIZE);
    assert_eq!(g.try_position(16, 2), None);
    assert_eq!(g.try_position(2, 15), Some(c(2, 15)));
}

#[test]
fn grid_ignores_cells_off_the_grid() {
    let mut g = TileGrid::new(GridSize { x: 4, y: 2 });
    g.set_color(c(4, 0), Color::Blue);
    g.set_color(c(0, 2), Color::Blue);
    assert_eq!(g.get_color(c(4, 0)), Color::White);
    for x in 0..4 {
        for y in 0..2 {
            assert_eq!(g.get_color(c(x, y)), Color::White);
        }
    }
}

#[test]
fn painting_twice_equals_painting_once() {
    let mut once = TileGrid::new(SIZE);
    let mut twice = TileGrid::new(SIZE);
    once.set_color(c(9, 1), Color::Cyan);
    twice.set_color(c(9, 1), Color::Cyan);
    twice.set_color(c(9, 1), Color::Cyan);
    for x in 0..16 {
        for y in 0..16 {
            assert_eq!(once.get_color(c(x, y)), twice.get_color(c(x, y)));
        }
    }
    assert_eq!(twice.get_color(c(9, 1)), Color::Cyan);
}

#[test]
fn sides_from_center_reach_two() {
    let cells = gather_neighbors(AttackPattern::Sides, c(5, 5), SIZE, 2);
    assert_eq!(
        cells,
        vec![c(5, 5), c(6, 5), c(4, 5), c(5, 6), c(5, 4), c(7, 5), c(3, 5), c(5, 7), c(5, 3)]
    );
}

#[test]
fn diagonal_from_center_reach_one() {
    let cells = gather_neighbors(AttackPattern::Diagonal, c(5, 5), SIZE, 1);
    assert_eq!(cells, vec![c(5, 5), c(6, 6), c(4, 4), c(4, 6), c(6, 4)]);
}

#[test]
fn around_from_center_reach_one() {
    let cells = gather_neighbors(AttackPattern::Around, c(5, 5), SIZE, 1);
    assert_eq!(
        cells,
        vec![c(5, 5), c(6, 6), c(4, 4), c(4, 6), c(6, 4), c(6, 5), c(4, 5), c(5, 6), c(5, 4)]
    );
}

#[test]
fn corner_drops_off_grid_cells() {
    let cells = gather_neighbors(AttackPattern::Around, c(0, 0), SIZE, 2);
    assert_eq!(cells, vec![c(0, 0), c(1, 1), c(1, 0), c(0, 1), c(2, 2), c(2, 0), c(0, 2)]);
    let far = gather_neighbors(AttackPattern::Sides, c(15, 15), SIZE, 3);
    assert_eq!(far, vec![c(15, 15), c(14, 15), c(15, 14), c(13, 15), c(15, 13), c(12, 15), c(15, 12)]);
}

#[test]
fn zero_and_negative_reach_give_origin_only() {
    for p in [AttackPattern::Diagonal, AttackPattern::Sides, AttackPattern::Around, AttackPattern::Ultimate] {
        assert_eq!(gather_neighbors(p, c(3, 3), SIZE, 0), vec![c(3, 3)]);
        assert_eq!(gather_neighbors(p, c(3, 3), SIZE, -4), vec![c(3, 3)]);
    }
}

#[test]
fn origin_first_for_every_pattern() {
    for p in [AttackPattern::Diagonal, AttackPattern::Sides, AttackPattern::Around, AttackPattern::Ultimate] {
        for (x, y) in [(0u32, 0u32), (15, 15), (7, 9), (0, 15)] {
            for reach in [0, 1, 5, 20] {
                let cells = gather_neighbors(p, c(x, y), SIZE, reach);
                assert_eq!(cells[0], c(x, y));
            }
        }
    }
}

#[test]
fn origin_off_grid_is_left_out() {
    let cells = gather_neighbors(AttackPattern::Sides, c(16, 3), SIZE, 1);
    assert_eq!(cells, vec![c(15, 3)]);
}

#[test]
fn around_contains_sides_and_diagonal() {
    for (x, y) in [(0u32, 0u32), (5, 5), (15, 2), (8, 14)] {
        for reach in [1, 2, 5, 9] {
            let around = gather_neighbors(AttackPattern::Around, c(x, y), SIZE, reach);
            for p in [AttackPattern::Sides, AttackPattern::Diagonal] {
                for cell in gather_neighbors(p, c(x, y), SIZE, reach) {
                    assert!(around.contains(&cell));
                }
            }
        }
    }
}

#[test]
fn ultimate_matches_around() {
    for reach in [1, 3, 5] {
        assert_eq!(
            gather_neighbors(AttackPattern::Ultimate, c(6, 9), SIZE, reach),
            gather_neighbors(AttackPattern::Around, c(6, 9), SIZE, reach)
        );
    }
}

#[test]
fn gathered_cells_always_on_grid() {
    let size = GridSize { x: 6, y: 4 };
    for p in [AttackPattern::Diagonal, AttackPattern::Sides, AttackPattern::Around, AttackPattern::Ultimate] {
        for x in 0..8u32 {
            for y in 0..6u32 {
                for cell in gather_neighbors(p, c(x, y), size, 7) {
                    assert!(cell.x < 6 && cell.y < 4);
                }
            }
        }
    }
}
