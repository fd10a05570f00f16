//! Piece geometry, spawning, movement and the SRS kick search.

use tetris_core::blocks::{Blocks, Garbages};
use tetris_core::field::Field;
use tetris_core::local::LocalField;
use tetris_core::mino::{Angle, Mino};
use tetris_core::movement::{handle_move, hard_drop, try_move, try_rotate, Direction, MoveEvent};
use tetris_core::net::{Player, PlayerId};
use tetris_core::position::Position;
use tetris_core::shape::Shape;
use tetris_core::timer::{DropTimer, LockDownTimer, DROP_INTERVAL_MS, SOFT_DROP_INTERVAL_MS};

fn sorted_cells(shape: Shape, angle: Angle) -> Vec<(i8, i8)> {
    let mut v: Vec<(i8, i8)> = shape.blocks(angle).iter().map(|p| (p.x, p.y)).collect();
    v.sort();
    v
}

#[test]
fn blocks_have_four_distinct_cells_in_box() {
    let shapes = [Shape::I, Shape::J, Shape::L, Shape::O, Shape::S, Shape::T, Shape::Z];
    let angles = [Angle::Deg0, Angle::Deg90, Angle::Deg180, Angle::Deg270];
    for &s in &shapes {
        for &a in &angles {
            let mut cells = sorted_cells(s, a);
            assert_eq!(cells.len(), 4);
            let size = s.size();
            for &(x, y) in &cells {
                assert!(0 <= x && x < size && 0 <= y && y < size);
            }
            cells.dedup();
            assert_eq!(cells.len(), 4, "duplicate cell in {:?} at {:?}", s, a);
        }
    }
}

#[test]
fn four_rotations_return_original_footprint() {
    let shapes = [Shape::I, Shape::J, Shape::L, Shape::O, Shape::S, Shape::T, Shape::Z];
    let angles = [Angle::Deg0, Angle::Deg90, Angle::Deg180, Angle::Deg270];
    for &s in &shapes {
        let size = s.size();
        for &a in &angles {
            // One quarter turn inside the bounding box, applied 4 times,
            // must return the cell set exactly.
            let mut cells = sorted_cells(s, a);
            let original = cells.clone();
            for _ in 0..4 {
                cells = cells.iter().map(|&(x, y)| (y, size - 1 - x)).collect();
            }
            cells.sort();
            assert_eq!(cells, original, "closure failed for {:?} at {:?}", s, a);
        }
        // Each angle's table equals the previous one's cells turned once.
        for w in 0..4 {
            let turned: Vec<(i8, i8)> = {
                let mut v: Vec<(i8, i8)> =
                    sorted_cells(s, angles[w]).iter().map(|&(x, y)| (y, size - 1 - x)).collect();
                v.sort();
                v
            };
            assert_eq!(turned, sorted_cells(s, angles[(w + 1) % 4]));
        }
    }
}

#[test]
fn known_footprints_at_angle_zero() {
    assert_eq!(sorted_cells(Shape::T, Angle::Deg0), vec![(0, 1), (1, 1), (1, 2), (2, 1)]);
    assert_eq!(sorted_cells(Shape::I, Angle::Deg0), vec![(0, 2), (1, 2), (2, 2), (3, 2)]);
    assert_eq!(sorted_cells(Shape::O, Angle::Deg0), vec![(0, 0), (0, 1), (1, 0), (1, 1)]);
    // Vertical I: column 2 of its box.
    assert_eq!(sorted_cells(Shape::I, Angle::Deg90), vec![(2, 0), (2, 1), (2, 2), (2, 3)]);
}

fn empty_field() -> Field {
    Field::new(Player::new(PlayerId(1)))
}

#[test]
fn spawn_positions_on_empty_field() {
    let f = empty_field();
    let t = Mino::new(Shape::T, &f).unwrap();
    assert_eq!((t.pos.x, t.pos.y), (3, 18));
    assert_eq!(t.angle, Angle::Deg0);
    let i = Mino::new(Shape::I, &f).unwrap();
    assert_eq!((i.pos.x, i.pos.y), (3, 17));
    let o = Mino::new(Shape::O, &f).unwrap();
    assert_eq!((o.pos.x, o.pos.y), (4, 19));
}

#[test]
fn spawn_fails_on_a_jammed_field() {
    let mut f = empty_field();
    let holes: Vec<u8> = (0..40).map(|_| 0).collect();
    f.blocks.add_garbages(&Garbages(holes)).unwrap();
    assert!(Mino::new(Shape::T, &f).is_err());
}

#[test]
fn spawn_probes_climb_when_blocked() {
    let mut f = empty_field();
    // Jam the first probe row for T (rows 19) in its columns by pushing
    // 20 garbage rows with holes away from the spawn columns.
    let holes: Vec<u8> = (0..20).map(|_| 0).collect();
    f.blocks.add_garbages(&Garbages(holes)).unwrap();
    // Rows 0..20 hold garbage; first probe anchor (3, 18) collides, the
    // next probe (3, 19) leaves the T's cells on rows 20 and 21.
    let t = Mino::new(Shape::T, &f).unwrap();
    assert_eq!((t.pos.x, t.pos.y), (3, 19));
}

#[test]
fn try_move_respects_walls() {
    let b = Blocks::new();
    let mut m = Mino { pos: Position::new(0, 5), angle: Angle::Deg0, shape: Shape::T };
    // T at x=0 occupies columns 0..3; moving left would leave the grid.
    assert!(!try_move(&b, &mut m, Direction::Left));
    assert_eq!(m.pos, Position::new(0, 5));
    assert!(try_move(&b, &mut m, Direction::Right));
    assert_eq!(m.pos, Position::new(1, 5));
    assert!(try_move(&b, &mut m, Direction::Down));
    assert_eq!(m.pos, Position::new(1, 4));
}

#[test]
fn rotation_applies_first_fitting_kick() {
    let b = Blocks::new();
    let mut m = Mino { pos: Position::new(3, 10), angle: Angle::Deg0, shape: Shape::T };
    // In free space the first candidate (0, 0) always fits.
    let kick = try_rotate(&b, &mut m, Direction::Right).unwrap();
    assert_eq!((kick.x, kick.y), (0, 0));
    assert_eq!(m.angle, Angle::Deg90);
    assert_eq!(m.pos, Position::new(3, 10));
}

#[test]
fn rotation_kicks_off_the_floor() {
    let b = Blocks::new();
    // T resting on the floor: rotating it clockwise collides below, so
    // the first two candidates fail and the third, (-1, 1), applies.
    let mut m = Mino { pos: Position::new(3, -1), angle: Angle::Deg0, shape: Shape::T };
    assert!(b.can_place_mino(m.pos, m.shape, m.angle));
    let kick = try_rotate(&b, &mut m, Direction::Right).unwrap();
    assert_eq!(m.angle, Angle::Deg90);
    assert_eq!((kick.x, kick.y), (-1, 1));
    assert_eq!(m.pos, Position::new(2, 0));
    assert!(b.can_place_mino(m.pos, m.shape, m.angle));
}

#[test]
fn rotation_rejected_leaves_state_alone() {
    let mut f = empty_field();
    // Fill everything except column 0 rows 0..40.
    let holes: Vec<u8> = (0..40).map(|_| 0).collect();
    f.blocks.add_garbages(&Garbages(holes)).unwrap();
    // A vertical I in the single free column cannot rotate at all.
    let mut m = Mino { pos: Position::new(-2, 0), angle: Angle::Deg90, shape: Shape::I };
    assert!(f.blocks.can_place_mino(m.pos, m.shape, m.angle));
    assert!(try_rotate(&f.blocks, &mut m, Direction::Right).is_none());
    assert_eq!(m.pos, Position::new(-2, 0));
    assert_eq!(m.angle, Angle::Deg90);
}

#[test]
fn hard_drop_rests_on_floor() {
    let f = empty_field();
    let mut m = Mino { pos: Position::new(3, 18), angle: Angle::Deg0, shape: Shape::T };
    let fall = hard_drop(&f.blocks, &mut m);
    assert_eq!(fall, 19);
    // T at angle 0 has its lowest cells on box row 1: anchor y = -1.
    assert_eq!(m.pos, Position::new(3, -1));
    assert!(m.is_landed(&f));
}

#[test]
fn is_landed_on_floor_and_stack() {
    let f = empty_field();
    let m = Mino { pos: Position::new(3, -1), angle: Angle::Deg0, shape: Shape::T };
    assert!(m.is_landed(&f));
    let high = Mino { pos: Position::new(3, 5), angle: Angle::Deg0, shape: Shape::T };
    assert!(!high.is_landed(&f));
}

#[test]
fn handle_move_soft_drop_toggles_gravity() {
    let f = empty_field();
    let mut m = Mino { pos: Position::new(3, 10), angle: Angle::Deg0, shape: Shape::T };
    let mut lf = LocalField::default();
    let mut drop = DropTimer::default();
    let mut lock = LockDownTimer::default();
    let place = handle_move(MoveEvent::StartSoftDrop, &f, &mut m, &mut lf, &mut drop, &mut lock);
    assert!(!place);
    assert_eq!(drop.0.interval_ms, SOFT_DROP_INTERVAL_MS);
    let place = handle_move(MoveEvent::StopSoftDrop, &f, &mut m, &mut lf, &mut drop, &mut lock);
    assert!(!place);
    assert_eq!(drop.0.interval_ms, DROP_INTERVAL_MS);
}

#[test]
fn handle_move_hard_drop_requests_lock() {
    let f = empty_field();
    let mut m = Mino { pos: Position::new(3, 10), angle: Angle::Deg0, shape: Shape::T };
    let mut lf = LocalField::default();
    let mut drop = DropTimer::default();
    let mut lock = LockDownTimer::default();
    let place = handle_move(MoveEvent::HardDrop, &f, &mut m, &mut lf, &mut drop, &mut lock);
    assert!(place);
    assert_eq!(m.pos, Position::new(3, -1));
}
