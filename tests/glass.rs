use tetris::figures::{Figure, FigureRepr, Point};
use tetris::glass::{Glass, MoveDirection};

const ALL: [Figure; 7] = [
    Figure::Cube,
    Figure::Line,
    Figure::Base,
    Figure::LeftZig,
    Figure::RightZig,
    Figure::RightL,
    Figure::LeftL,
];

fn turned(figure: Figure, turns: u32) -> FigureRepr {
    let mut repr = FigureRepr::new(figure);
    for _ in 0..turns {
        repr.rotate();
    }
    repr
}

/// Places a piece and lands it; the placement must succeed.
fn drop_at(glass: &mut Glass, figure: Figure, turns: u32, pos: (isize, isize)) {
    assert!(glass.place(turned(figure, turns), pos));
    glass.freeze_figure();
}

fn grid(glass: &Glass) -> Vec<Vec<bool>> {
    (0..glass.height())
        .map(|r| (0..glass.width()).map(|c| glass.is_filled(r, c)).collect())
        .collect()
}

fn cells(glass: &Glass) -> Vec<(usize, usize)> {
    let mut v: Vec<(usize, usize)> = glass
        .figure_coordinates()
        .unwrap()
        .iter()
        .map(|p| (p.y, p.x))
        .collect();
    v.sort();
    v
}

#[test]
fn new_glass_is_empty() {
    let glass = Glass::new(12, 26);
    assert_eq!(glass.width(), 12);
    assert_eq!(glass.height(), 26);
    assert!(grid(&glass).iter().all(|row| row.iter().all(|c| !c)));
    assert!(glass.figure().is_none());
    assert!(glass.figure_coordinates().is_none());
}

#[test]
fn placed_figure_should_fit() {
    for f in ALL {
        for turns in 0..4 {
            let repr = turned(f, turns);
            for w in 10..15 {
                for h in 10..15 {
                    for row in -5..20 {
                        for col in -5..20 {
                            let mut glass = Glass::new(w, h);
                            let fit = glass.fit_glass(&repr, (row, col));
                            assert_eq!(glass.place(repr, (row, col)), fit);
                        }
                    }
                }
            }
        }
    }
}

#[test]
fn placed_figure_set() {
    for f in ALL {
        for turns in 0..4 {
            let repr = turned(f, turns);
            for w in 10..15 {
                for h in 10..15 {
                    for row in -5..20 {
                        for col in -5..20 {
                            let mut glass = Glass::new(w, h);
                            let placed = glass.place(repr, (row, col));
                            assert_eq!(glass.figure().is_some(), placed);
                        }
                    }
                }
            }
        }
    }
}

#[test]
fn figure_cant_be_placed_twice() {
    for f in ALL {
        for turns in 0..4 {
            let repr = turned(f, turns);
            for w in 10..15 {
                for h in 10..15 {
                    for row in -5..20 {
                        for col in -5..20 {
                            let mut glass = Glass::new(w, h);
                            glass.place(repr, (row, col));
                            glass.freeze_figure();
                            assert!(!glass.place(repr, (row, col)));
                        }
                    }
                }
            }
        }
    }
}

#[test]
fn fit_rejects_walls_floor_and_blocks() {
    let mut glass = Glass::new(10, 10);
    let line = FigureRepr::new(Figure::Line);
    // the line's blocks sit on row 2 of its layout
    assert!(glass.fit_glass(&line, (-2, 0)));
    assert!(!glass.fit_glass(&line, (-3, 0)));
    assert!(!glass.fit_glass(&line, (-2, -1)));
    assert!(glass.fit_glass(&line, (-2, 6)));
    assert!(!glass.fit_glass(&line, (-2, 7)));
    assert!(glass.fit_glass(&line, (7, 0)));
    assert!(!glass.fit_glass(&line, (8, 0)));
    drop_at(&mut glass, Figure::Line, 0, (7, 0));
    assert!(!glass.fit_glass(&line, (7, 3)));
    assert!(glass.fit_glass(&line, (7, 4)));
    assert!(glass.fit_glass(&line, (6, 0)));
}

#[test]
fn failed_place_keeps_active_piece() {
    let mut glass = Glass::new(10, 10);
    assert!(glass.place(FigureRepr::new(Figure::Cube), (0, 0)));
    let before = cells(&glass);
    assert!(!glass.place(FigureRepr::new(Figure::Line), (20, 0)));
    assert_eq!(cells(&glass), before);
}

#[test]
fn line_falls_to_the_floor() {
    let mut glass = Glass::new(12, 26);
    assert!(!glass.spawn_figure(Figure::Line, 0));
    assert_eq!(cells(&glass), vec![(0, 4), (0, 5), (0, 6), (0, 7)]);
    assert_eq!(glass.figure().unwrap().position, (-2, 4));
    for step in 1..=25 {
        assert!(glass.relocate_figure(MoveDirection::Down), "step {}", step);
    }
    assert!(cells(&glass).iter().all(|&(r, _)| r == 25));
    assert!(!glass.relocate_figure(MoveDirection::Down));
    assert!(cells(&glass).iter().all(|&(r, _)| r == 25));
}

#[test]
fn moves_left_and_right_until_walls() {
    let mut glass = Glass::new(10, 10);
    assert!(!glass.spawn_figure(Figure::Line, 0));
    // columns 3..=6
    let mut lefts = 0;
    while glass.relocate_figure(MoveDirection::Left) {
        lefts += 1;
    }
    assert_eq!(lefts, 3);
    assert_eq!(cells(&glass), vec![(0, 0), (0, 1), (0, 2), (0, 3)]);
    let mut rights = 0;
    while glass.relocate_figure(MoveDirection::Right) {
        rights += 1;
    }
    assert_eq!(rights, 6);
    assert_eq!(cells(&glass), vec![(0, 6), (0, 7), (0, 8), (0, 9)]);
}

#[test]
fn moves_without_piece_fail() {
    let mut glass = Glass::new(10, 10);
    assert!(!glass.relocate_figure(MoveDirection::Down));
    assert!(!glass.rotate_figure());
    glass.freeze_figure();
    assert!(grid(&glass).iter().all(|row| row.iter().all(|c| !c)));
}

#[test]
fn rotation_in_place_or_rejected() {
    let mut glass = Glass::new(10, 10);
    assert!(glass.place(FigureRepr::new(Figure::Line), (2, 3)));
    assert_eq!(cells(&glass), vec![(4, 3), (4, 4), (4, 5), (4, 6)]);
    assert!(glass.rotate_figure());
    assert_eq!(cells(&glass), vec![(3, 5), (4, 5), (5, 5), (6, 5)]);
    assert_eq!(glass.figure().unwrap().position, (2, 3));

    // a horizontal line on the top row cannot turn upright: no kick is tried
    let mut top = Glass::new(10, 10);
    assert!(top.place(FigureRepr::new(Figure::Line), (-2, 3)));
    let before = cells(&top);
    assert!(!top.rotate_figure());
    assert_eq!(cells(&top), before);
}

#[test]
fn freeze_marks_cells_and_clears_piece() {
    let mut glass = Glass::new(10, 10);
    assert!(glass.place(FigureRepr::new(Figure::Base), (7, 2)));
    glass.freeze_figure();
    assert!(glass.figure().is_none());
    let mut filled = Vec::new();
    for r in 0..10 {
        for c in 0..10 {
            if glass.is_filled(r, c) {
                filled.push((r, c));
            }
        }
    }
    assert_eq!(filled, vec![(8, 4), (9, 3), (9, 4), (9, 5)]);
}

#[test]
fn clear_single_row() {
    let mut glass = Glass::new(10, 10);
    drop_at(&mut glass, Figure::Line, 0, (3, 0));
    drop_at(&mut glass, Figure::Line, 0, (3, 4));
    // upright line on column 8, rows 2..=5
    drop_at(&mut glass, Figure::Line, 1, (1, 6));
    let before = grid(&glass);
    assert!(!before[5][9]);
    glass.clean_filled_rows();
    assert_eq!(grid(&glass), before);

    // upright line on column 9, rows 5..=8
    drop_at(&mut glass, Figure::Line, 1, (4, 7));
    let full = grid(&glass);
    assert!(full[5].iter().all(|c| *c));
    glass.clean_filled_rows();
    let after = grid(&glass);
    assert_eq!(after[0], vec![false; 10]);
    for r in 1..=5 {
        assert_eq!(after[r], full[r - 1]);
    }
    for r in 6..10 {
        assert_eq!(after[r], full[r]);
    }
}

#[test]
fn clear_two_rows() {
    let mut glass = Glass::new(10, 10);
    for col in [-1, 1, 3, 5, 7] {
        drop_at(&mut glass, Figure::Cube, 0, (7, col));
    }
    drop_at(&mut glass, Figure::Line, 0, (5, 0));
    drop_at(&mut glass, Figure::Line, 1, (2, 7));
    let full = grid(&glass);
    assert!(full[8].iter().all(|c| *c));
    assert!(full[9].iter().all(|c| *c));
    glass.clean_filled_rows();
    let after = grid(&glass);
    assert_eq!(after[0], vec![false; 10]);
    assert_eq!(after[1], vec![false; 10]);
    for r in 2..10 {
        assert_eq!(after[r], full[r - 2]);
    }
    assert_eq!(after[9][0..4], [true, true, true, true]);
}

#[test]
fn full_top_row_is_cleared() {
    let mut glass = Glass::new(4, 4);
    drop_at(&mut glass, Figure::Line, 0, (-2, 0));
    drop_at(&mut glass, Figure::Line, 0, (1, 0));
    glass.clean_filled_rows();
    assert!(grid(&glass).iter().all(|row| row.iter().all(|c| !c)));
}

#[test]
fn clearing_keeps_falling_piece() {
    let mut glass = Glass::new(4, 6);
    drop_at(&mut glass, Figure::Line, 0, (3, 0));
    assert!(glass.place(FigureRepr::new(Figure::Cube), (-1, 0)));
    let before = cells(&glass);
    glass.clean_filled_rows();
    assert_eq!(cells(&glass), before);
    assert!(grid(&glass).iter().all(|row| row.iter().all(|c| !c)));
}

#[test]
fn spawn_is_blocked_when_entry_is_taken() {
    let mut glass = Glass::new(10, 10);
    // row 0, columns 0..=3: the flat line enters on columns 3..=6
    drop_at(&mut glass, Figure::Line, 0, (-2, 0));
    assert!(glass.spawn_figure(Figure::Line, 0));
    assert!(glass.figure().is_none());
    // the upright line enters on column 5
    assert!(!glass.spawn_figure(Figure::Line, 1));
    assert_eq!(cells(&glass), vec![(0, 5), (1, 5), (2, 5), (3, 5)]);
}

#[test]
fn spawn_puts_top_block_on_row_zero() {
    for f in ALL {
        for turns in 0..4 {
            let mut glass = Glass::new(12, 26);
            assert!(!glass.spawn_figure(f, turns));
            let c = cells(&glass);
            assert_eq!(c.iter().map(|&(r, _)| r).min(), Some(0));
        }
    }
}

#[test]
fn progress_drops_lands_and_spawns() {
    let mut glass = Glass::new(10, 4);
    assert!(!glass.spawn_figure(Figure::Cube, 0));
    assert!(!glass.make_progress_with(Figure::Line, 0));
    assert!(!glass.make_progress_with(Figure::Line, 0));
    assert_eq!(cells(&glass), vec![(2, 4), (2, 5), (3, 4), (3, 5)]);
    // cannot fall further: lands, then the line enters on row 0
    assert!(!glass.make_progress_with(Figure::Line, 0));
    assert!(glass.is_filled(3, 4) && glass.is_filled(2, 5));
    assert_eq!(cells(&glass), vec![(0, 3), (0, 4), (0, 5), (0, 6)]);
}

#[test]
fn progress_reports_game_over() {
    let mut glass = Glass::new(10, 2);
    assert!(!glass.spawn_figure(Figure::Cube, 0));
    // the cube fills both rows; it lands and the next piece has no room
    assert!(glass.make_progress_with(Figure::Line, 0));
    assert!(glass.figure().is_none());
}

#[test]
fn random_spawn_enters_empty_field() {
    for _ in 0..50 {
        let mut glass = Glass::new(12, 26);
        assert!(!glass.next_figure());
        assert!(glass.figure().is_some());
        assert_eq!(cells(&glass).iter().map(|&(r, _)| r).min(), Some(0));
    }
}

#[test]
fn random_spawn_turns_vary() {
    let mut shapes = std::collections::BTreeSet::new();
    for _ in 0..300 {
        let mut glass = Glass::new(12, 26);
        glass.next_figure();
        shapes.insert(cells(&glass));
    }
    // seven shapes in up to four orientations: far more than one footprint
    assert!(shapes.len() > 7);
}

#[test]
fn make_progress_runs_a_game() {
    let mut glass = Glass::new(10, 20);
    let mut over = glass.next_figure();
    let mut ticks = 0;
    while !over && ticks < 100_000 {
        over = glass.make_progress();
        ticks += 1;
    }
    assert!(over);
}

#[test]
fn change_pos_moves_one_cell() {
    assert_eq!(MoveDirection::Left.change_pos((3, 4)), (3, 3));
    assert_eq!(MoveDirection::Right.change_pos((3, 4)), (3, 5));
    assert_eq!(MoveDirection::Down.change_pos((3, 4)), (4, 4));
    assert!(!MoveDirection::Left.can_change_pos((0, isize::MIN)));
    assert!(!MoveDirection::Right.can_change_pos((0, isize::MAX)));
    assert!(!MoveDirection::Down.can_change_pos((isize::MAX, 0)));
    assert!(MoveDirection::Down.can_change_pos((0, isize::MAX)));
}

#[test]
fn coordinates_are_column_and_row() {
    let mut glass = Glass::new(10, 10);
    assert!(glass.place(FigureRepr::new(Figure::RightL), (1, 2)));
    let pts = glass.figure_coordinates().unwrap();
    assert_eq!(
        pts,
        [Point { x: 3, y: 1 }, Point { x: 3, y: 2 }, Point { x: 3, y: 3 }, Point { x: 4, y: 3 }]
    );
}
