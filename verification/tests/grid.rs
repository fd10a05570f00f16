//! Grid behaviour: placement, line clearing and garbage rows.

use tetris_core::block::Block;
use tetris_core::blocks::{Blocks, Garbages, Lines};
use tetris_core::mino::{Angle, Mino};
use tetris_core::position::Position;
use tetris_core::shape::Shape;

fn cell(b: &Blocks, x: i8, y: i8) -> Block {
    b.get(Position::new(x, y)).unwrap()
}

#[test]
fn new_grid_is_empty() {
    let b = Blocks::new();
    assert!(b.is_empty());
    for y in 0..40 {
        for x in 0..10 {
            assert_eq!(cell(&b, x, y), Block::Empty);
        }
    }
}

#[test]
fn get_out_of_bounds_is_none() {
    let b = Blocks::new();
    assert!(b.get(Position::new(-1, 0)).is_none());
    assert!(b.get(Position::new(10, 0)).is_none());
    assert!(b.get(Position::new(0, -1)).is_none());
    assert!(b.get(Position::new(0, 40)).is_none());
    assert!(b.get(Position::new(9, 39)).is_some());
}

#[test]
fn place_mino_writes_footprint() {
    let mut b = Blocks::new();
    let m = Mino { pos: Position::new(0, 0), angle: Angle::Deg0, shape: Shape::O };
    assert!(b.can_place_mino(m.pos, m.shape, m.angle));
    b.place_mino(&m);
    assert_eq!(cell(&b, 0, 0), Block::O);
    assert_eq!(cell(&b, 1, 0), Block::O);
    assert_eq!(cell(&b, 0, 1), Block::O);
    assert_eq!(cell(&b, 1, 1), Block::O);
    assert_eq!(cell(&b, 2, 0), Block::Empty);
    assert!(!b.can_place_mino(m.pos, m.shape, m.angle));
}

#[test]
fn filled_lines_detects_full_rows() {
    let mut b = Blocks::new();
    // A garbage row is full except for its hole; fill the hole with a piece.
    b.add_garbages(&Garbages(vec![0])).unwrap();
    assert!(b.get_filled_lines().is_empty());
    let i = Mino { pos: Position::new(-2, 0), angle: Angle::Deg90, shape: Shape::I };
    // Vertical I occupies column 0, rows 0..4.
    assert!(b.can_place_mino(i.pos, i.shape, i.angle));
    b.place_mino(&i);
    let lines = b.get_filled_lines();
    assert_eq!(lines.len(), 1);
    assert_eq!(lines.0, vec![0]);
}

#[test]
fn clear_lines_removes_rows_and_shifts_down() {
    let mut b = Blocks::new();
    b.add_garbages(&Garbages(vec![0])).unwrap();
    let i = Mino { pos: Position::new(-2, 0), angle: Angle::Deg90, shape: Shape::I };
    b.place_mino(&i);
    let lines = b.get_filled_lines();
    b.clear_lines(&lines);
    // The I cells above the cleared row moved down one row.
    assert_eq!(cell(&b, 0, 0), Block::I);
    assert_eq!(cell(&b, 0, 1), Block::I);
    assert_eq!(cell(&b, 0, 2), Block::I);
    assert_eq!(cell(&b, 0, 3), Block::Empty);
    // The garbage cells are gone.
    assert_eq!(cell(&b, 5, 0), Block::Empty);
    assert!(b.get_filled_lines().is_empty());
}

#[test]
fn clear_preserves_row_order_above() {
    let mut b = Blocks::new();
    // Bottom-up: row 0 hole at 3, rows 1 and 2 hole at 1.
    b.add_garbages(&Garbages(vec![1, 1, 3])).unwrap();
    // A vertical I in column 1 plugs both holes above row 0.
    let i = Mino { pos: Position::new(-1, 1), angle: Angle::Deg90, shape: Shape::I };
    assert!(b.can_place_mino(i.pos, i.shape, i.angle));
    b.place_mino(&i);
    let lines = b.get_filled_lines();
    assert_eq!(lines.0, vec![2, 1]);
    b.clear_lines(&lines);
    // Row 0 kept its hole at 3; the I remnants from rows 3 and 4 slid
    // down to rows 1 and 2, keeping their order.
    assert_eq!(cell(&b, 3, 0), Block::Empty);
    assert_eq!(cell(&b, 4, 0), Block::Garbage);
    assert_eq!(cell(&b, 1, 1), Block::I);
    assert_eq!(cell(&b, 1, 2), Block::I);
    assert_eq!(cell(&b, 4, 1), Block::Empty);
    assert_eq!(cell(&b, 1, 3), Block::Empty);
}

#[test]
fn push_garbage_shifts_grid_up() {
    let mut b = Blocks::new();
    let o = Mino { pos: Position::new(4, 0), angle: Angle::Deg0, shape: Shape::O };
    b.place_mino(&o);
    b.add_garbages(&Garbages(vec![7, 9])).unwrap();
    // Bottom row took the last listed hole.
    assert_eq!(cell(&b, 9, 0), Block::Empty);
    assert_eq!(cell(&b, 7, 0), Block::Garbage);
    assert_eq!(cell(&b, 7, 1), Block::Empty);
    assert_eq!(cell(&b, 9, 1), Block::Garbage);
    // The O moved up two rows.
    assert_eq!(cell(&b, 4, 2), Block::O);
    assert_eq!(cell(&b, 5, 3), Block::O);
    assert_eq!(cell(&b, 4, 0), Block::Garbage);
}

#[test]
fn push_garbage_overflow_is_game_over() {
    let mut b = Blocks::new();
    // 40 garbage rows fill the whole grid but leave every row non-full.
    let holes: Vec<u8> = (0..40).map(|i| (i % 10) as u8).collect();
    assert!(b.add_garbages(&Garbages(holes)).is_ok());
    // One more row would discard a non-empty row: rejected, grid unchanged.
    let before: Vec<Block> = (0..10).map(|x| cell(&b, x, 39)).collect();
    assert!(b.add_garbages(&Garbages(vec![5])).is_err());
    let after: Vec<Block> = (0..10).map(|x| cell(&b, x, 39)).collect();
    assert_eq!(before, after);
}

#[test]
fn push_garbage_then_collapse_compose() {
    // Garbage rows are never full, so a push followed by a collapse of the
    // full rows removes exactly the shifted originals.
    let mut b = Blocks::new();
    b.add_garbages(&Garbages(vec![0])).unwrap();
    let i = Mino { pos: Position::new(-2, 0), angle: Angle::Deg90, shape: Shape::I };
    b.place_mino(&i);
    // Row 0 is now full. Push two garbage rows under it.
    b.add_garbages(&Garbages(vec![4, 6])).unwrap();
    let lines = b.get_filled_lines();
    assert_eq!(lines.0, vec![2]);
    b.clear_lines(&lines);
    // The two pushed rows survive untouched at the bottom.
    assert_eq!(cell(&b, 6, 0), Block::Empty);
    assert_eq!(cell(&b, 4, 1), Block::Empty);
    assert_eq!(cell(&b, 0, 1), Block::Garbage);
}

#[test]
fn lines_and_garbages_accessors() {
    let l = Lines(vec![5, 3, 1]);
    assert_eq!(l.len(), 3);
    assert!(!l.is_empty());
    assert!(l.contains(3));
    assert!(!l.contains(2));
    let g = Garbages(vec![]);
    assert_eq!(g.len(), 0);
    assert!(g.is_empty());
}
