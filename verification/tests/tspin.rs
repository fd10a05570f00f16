//! T-spin classification.

use tetris_core::blocks::Garbages;
use tetris_core::field::Field;
use tetris_core::local::LocalField;
use tetris_core::mino::{Angle, Mino};
use tetris_core::movement::{handle_move, Direction, MoveEvent};
use tetris_core::net::{Player, PlayerId};
use tetris_core::position::Position;
use tetris_core::shape::Shape;
use tetris_core::t_spin::TSpin;
use tetris_core::timer::{DropTimer, LockDownTimer};

fn field() -> Field {
    Field::new(Player::new(PlayerId(1)))
}

/// An enclosed slot against the right side: garbage below, an O block on
/// one upper corner and a vertical I on the other.
fn enclosed_slot_field() -> (Field, Mino) {
    let mut f = field();
    f.blocks.add_garbages(&Garbages(vec![8])).unwrap();
    let o = Mino { pos: Position::new(6, 2), angle: Angle::Deg0, shape: Shape::O };
    assert!(f.blocks.can_place_mino(o.pos, o.shape, o.angle));
    f.blocks.place_mino(&o);
    let i = Mino { pos: Position::new(7, 2), angle: Angle::Deg90, shape: Shape::I };
    assert!(f.blocks.can_place_mino(i.pos, i.shape, i.angle));
    f.blocks.place_mino(&i);
    // The T sits in the slot: cells (8,0), (8,1), (8,2), (9,1); its four
    // corners (7,0), (9,0), (7,2), (9,2) are all occupied.
    let t = Mino { pos: Position::new(7, 0), angle: Angle::Deg90, shape: Shape::T };
    assert!(f.blocks.can_place_mino(t.pos, t.shape, t.angle));
    (f, t)
}

#[test]
fn enclosed_slot_classifies_full() {
    let (f, t) = enclosed_slot_field();
    let mut ts = TSpin::NoSpin;
    ts.update(&t, &f, Position::new(0, 0));
    assert_eq!(ts, TSpin::Full);
}

#[test]
fn kick_of_one_two_forces_full() {
    let mut f = field();
    // Only two corners filled: garbage row below the piece.
    f.blocks.add_garbages(&Garbages(vec![8])).unwrap();
    let t = Mino { pos: Position::new(3, 1), angle: Angle::Deg0, shape: Shape::T };
    let mut ts = TSpin::NoSpin;
    // Two filled corners are not a T-spin at all, kick or no kick.
    ts.update(&t, &f, Position::new(1, -2));
    assert_eq!(ts, TSpin::NoSpin);
    // In the enclosed slot, the (1, 2) kick keeps the Full grade.
    let (f2, t2) = enclosed_slot_field();
    let mut ts2 = TSpin::NoSpin;
    ts2.update(&t2, &f2, Position::new(1, -2));
    assert_eq!(ts2, TSpin::Full);
}

#[test]
fn open_pointing_side_classifies_mini() {
    let mut f = field();
    // Wall slot: left wall plus a garbage row gives three filled corners,
    // but the pointing side of the Deg90 T stays open.
    f.blocks.add_garbages(&Garbages(vec![0])).unwrap();
    let t = Mino { pos: Position::new(-1, 0), angle: Angle::Deg90, shape: Shape::T };
    assert!(f.blocks.can_place_mino(t.pos, t.shape, t.angle));
    let mut ts = TSpin::NoSpin;
    ts.update(&t, &f, Position::new(0, 0));
    assert_eq!(ts, TSpin::Mini);
    // The same position reached by a (1, 2) kick grades Full.
    ts.update(&t, &f, Position::new(-1, 2));
    assert_eq!(ts, TSpin::Full);
}

#[test]
fn non_t_piece_never_classifies() {
    let (mut f, _) = enclosed_slot_field();
    // An S piece in a crowded spot is still no T-spin.
    let s = Mino { pos: Position::new(0, 1), angle: Angle::Deg0, shape: Shape::S };
    assert!(f.blocks.can_place_mino(s.pos, s.shape, s.angle));
    let mut ts = TSpin::Full;
    ts.update(&s, &mut f, Position::new(0, 0));
    assert_eq!(ts, TSpin::NoSpin);
}

#[test]
fn successful_translation_clears_classification() {
    let f = field();
    let mut m = Mino { pos: Position::new(3, 10), angle: Angle::Deg0, shape: Shape::T };
    let mut lf = LocalField::default();
    lf.t_spin = TSpin::Full;
    let mut drop = DropTimer::default();
    let mut lock = LockDownTimer::default();
    handle_move(MoveEvent::Move(Direction::Left), &f, &mut m, &mut lf, &mut drop, &mut lock);
    assert_eq!(lf.t_spin, TSpin::NoSpin);
}

#[test]
fn rejected_translation_keeps_classification() {
    let (f, mut t) = enclosed_slot_field();
    let mut lf = LocalField::default();
    lf.t_spin = TSpin::Full;
    let mut drop = DropTimer::default();
    let mut lock = LockDownTimer::default();
    // The slotted T cannot move down.
    handle_move(MoveEvent::Move(Direction::Down), &f, &mut t, &mut lf, &mut drop, &mut lock);
    assert_eq!(lf.t_spin, TSpin::Full);
}
