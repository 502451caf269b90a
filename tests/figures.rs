use std::collections::BTreeSet;

use tetris::figures::{Figure, FigureRepr, Point};

const ALL: [Figure; 7] = [
    Figure::Cube,
    Figure::Line,
    Figure::Base,
    Figure::LeftZig,
    Figure::RightZig,
    Figure::RightL,
    Figure::LeftL,
];

fn pairs(repr: &FigureRepr) -> Vec<(i32, i32)> {
    repr.blocks().iter().map(|p| (p.x, p.y)).collect()
}

fn cell_set(repr: &FigureRepr) -> BTreeSet<(i32, i32)> {
    pairs(repr).into_iter().collect()
}

fn turned(figure: Figure, turns: u32) -> FigureRepr {
    let mut repr = FigureRepr::new(figure);
    for _ in 0..turns {
        repr.rotate();
    }
    repr
}

#[test]
fn layout_has_four_blocks() {
    for f in ALL {
        assert_eq!(f.layout().iter().filter(|c| **c).count(), 4);
    }
}

#[test]
fn shapes_scan_in_row_major_order() {
    assert_eq!(pairs(&FigureRepr::new(Figure::Line)), vec![(0, 2), (1, 2), (2, 2), (3, 2)]);
    assert_eq!(pairs(&FigureRepr::new(Figure::Base)), vec![(2, 1), (1, 2), (2, 2), (3, 2)]);
    assert_eq!(pairs(&FigureRepr::new(Figure::RightL)), vec![(1, 0), (1, 1), (1, 2), (2, 2)]);
    assert_eq!(pairs(&FigureRepr::new(Figure::LeftL)), vec![(2, 0), (2, 1), (1, 2), (2, 2)]);
    assert_eq!(pairs(&FigureRepr::new(Figure::RightZig)), vec![(1, 1), (2, 1), (0, 2), (1, 2)]);
}

#[test]
fn from_layout_scans_custom_layout() {
    let mut layout = [false; 16];
    layout[0] = true;
    layout[5] = true;
    layout[10] = true;
    layout[15] = true;
    let repr = FigureRepr::from_layout(layout);
    assert_eq!(pairs(&repr), vec![(0, 0), (1, 1), (2, 2), (3, 3)]);
    assert_eq!(repr.center_x(), 2);
    assert_eq!(repr.min_y(), 0);
}

#[test]
fn line_rotates_about_half_integer_pivot() {
    let mut repr = FigureRepr::new(Figure::Line);
    assert_eq!(repr.center_x(), 2);
    assert_eq!(repr.min_y(), 2);
    repr.rotate();
    assert_eq!(pairs(&repr), vec![(2, 1), (2, 2), (2, 3), (2, 4)]);
    assert_eq!(repr.min_y(), 1);
    assert_eq!(repr.center_x(), 2);
}

#[test]
fn rotation_matches_float_formula() {
    for f in ALL {
        let mut repr = FigureRepr::new(f);
        let start = pairs(&repr);
        let cx = start.iter().map(|p| p.0 as f32).sum::<f32>() / 4.0;
        let cy = start.iter().map(|p| p.1 as f32).sum::<f32>() / 4.0;
        for _ in 0..4 {
            let before = pairs(&repr);
            repr.rotate();
            let expected: Vec<(i32, i32)> = before
                .iter()
                .map(|&(x, y)| {
                    let fx = x as f32;
                    let fy = y as f32;
                    ((-(fy - cy) + cx).ceil() as i32, (fx - cx + cy).ceil() as i32)
                })
                .collect();
            assert_eq!(pairs(&repr), expected);
        }
    }
}

#[test]
fn four_repr_rotations() {
    for f in ALL {
        for pre in 0..4 {
            let orig = turned(f, pre);
            let mut repr = orig;
            repr.rotate();
            repr.rotate();
            repr.rotate();
            repr.rotate();
            assert_eq!(orig.blocks(), repr.blocks());
        }
    }
}

#[test]
fn one_to_three_rotations() {
    for f in ALL {
        if f == Figure::Cube {
            continue;
        }
        let orig = FigureRepr::new(f);
        for k in 1..4 {
            let repr = turned(f, k);
            assert_ne!(cell_set(&orig), cell_set(&repr), "{:?} after {} turns", f, k);
        }
    }
}

#[test]
fn cube_rotations_keep_cells() {
    let orig = FigureRepr::new(Figure::Cube);
    for k in 1..4 {
        assert_eq!(cell_set(&orig), cell_set(&turned(Figure::Cube, k)));
    }
}

#[test]
fn blocks_stay_distinct() {
    for f in ALL {
        for k in 0..8 {
            assert_eq!(cell_set(&turned(f, k)).len(), 4);
        }
    }
}

#[test]
fn four_rotations_property() {
    fn prop(shape: u8, pre: u8) -> bool {
        let orig = turned(ALL[(shape % 7) as usize], (pre % 4) as u32);
        let mut repr = orig;
        for _ in 0..4 {
            repr.rotate();
        }
        orig.blocks() == repr.blocks()
    }
    quickcheck::QuickCheck::new().quickcheck(prop as fn(u8, u8) -> bool);
}

#[test]
fn from_index_numbers_shapes() {
    let expected = [
        Figure::Cube,
        Figure::Line,
        Figure::Base,
        Figure::LeftZig,
        Figure::RightZig,
        Figure::LeftL,
        Figure::RightL,
    ];
    for (i, f) in expected.iter().enumerate() {
        assert_eq!(Figure::from_index(i), *f);
    }
}

#[test]
fn random_draws_vary() {
    let mut seen = BTreeSet::new();
    for _ in 0..200 {
        seen.insert(format!("{:?}", Figure::random()));
    }
    assert!(seen.len() > 1);
}

#[test]
fn point_holds_coordinates() {
    let p = Point { x: 3, y: -1 };
    assert_eq!(p, Point { x: 3, y: -1 });
}
