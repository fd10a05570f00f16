//! The wire protocol: encoding, decoding, and rejection of malformed input.

use tetris_core::blocks::{Garbages, Lines};
use tetris_core::mino::{Angle, Mino};
use tetris_core::net::{decode_message, encode_message, Message, PlayerState};
use tetris_core::position::Position;
use tetris_core::shape::Shape;

#[test]
fn field_changed_round_trip() {
    let m = Message::FieldChanged {
        mino: Mino { pos: Position::new(3, -1), angle: Angle::Deg90, shape: Shape::T },
        clear_lines: Lines(vec![5, 2, 0]),
        garbage_lines: Garbages(vec![7, 7, 1]),
    };
    let bytes = encode_message(&m);
    match decode_message(&bytes) {
        Some(Message::FieldChanged { mino, clear_lines, garbage_lines }) => {
            assert_eq!(mino.pos, Position::new(3, -1));
            assert_eq!(mino.angle, Angle::Deg90);
            assert_eq!(mino.shape, Shape::T);
            assert_eq!(clear_lines.0, vec![5, 2, 0]);
            assert_eq!(garbage_lines.0, vec![7, 7, 1]);
        },
        other => panic!("wrong decode: {:?}", other),
    }
}

#[test]
fn field_changed_round_trip_empty_lists() {
    let m = Message::FieldChanged {
        mino: Mino { pos: Position::new(-2, 39), angle: Angle::Deg270, shape: Shape::I },
        clear_lines: Lines(vec![]),
        garbage_lines: Garbages(vec![]),
    };
    let bytes = encode_message(&m);
    assert_eq!(bytes.len(), 7);
    match decode_message(&bytes) {
        Some(Message::FieldChanged { mino, clear_lines, garbage_lines }) => {
            assert_eq!(mino.pos, Position::new(-2, 39));
            assert_eq!(mino.angle, Angle::Deg270);
            assert_eq!(mino.shape, Shape::I);
            assert!(clear_lines.0.is_empty());
            assert!(garbage_lines.0.is_empty());
        },
        other => panic!("wrong decode: {:?}", other),
    }
}

#[test]
fn garbage_sent_round_trip() {
    let m = Message::GarbageSent { amount: 4 };
    let bytes = encode_message(&m);
    assert_eq!(bytes, vec![1, 4]);
    match decode_message(&bytes) {
        Some(Message::GarbageSent { amount }) => assert_eq!(amount, 4),
        other => panic!("wrong decode: {:?}", other),
    }
}

#[test]
fn state_changed_round_trip() {
    for state in [PlayerState::Playing, PlayerState::GameOver, PlayerState::Win] {
        let m = Message::StateChanged { state };
        let bytes = encode_message(&m);
        match decode_message(&bytes) {
            Some(Message::StateChanged { state: s }) => assert_eq!(s, state),
            other => panic!("wrong decode: {:?}", other),
        }
    }
}

#[test]
fn malformed_messages_are_dropped() {
    // Nothing at all.
    assert!(decode_message(&vec![]).is_none());
    // Unknown tag.
    assert!(decode_message(&vec![3, 0]).is_none());
    // Truncated header.
    assert!(decode_message(&vec![0, 67, 64, 1, 5]).is_none());
    // Angle out of range.
    assert!(decode_message(&vec![0, 67, 64, 4, 5, 0, 0]).is_none());
    // Shape out of range.
    assert!(decode_message(&vec![0, 67, 64, 1, 7, 0, 0]).is_none());
    // Length byte promises more rows than there are bytes.
    assert!(decode_message(&vec![0, 67, 64, 1, 5, 3, 0]).is_none());
    // Trailing byte after a complete message.
    assert!(decode_message(&vec![1, 4, 0]).is_none());
    // Cleared row off the grid.
    assert!(decode_message(&vec![0, 67, 64, 1, 5, 1, 40, 0]).is_none());
    // Cleared rows not strictly descending.
    assert!(decode_message(&vec![0, 67, 64, 1, 5, 2, 4, 4, 0]).is_none());
    // Garbage hole off the board.
    assert!(decode_message(&vec![0, 67, 64, 1, 5, 0, 1, 10]).is_none());
    // Play state out of range.
    assert!(decode_message(&vec![2, 3]).is_none());
    // Anchor byte outside the encodable range.
    assert!(decode_message(&vec![0, 200, 64, 1, 5, 0, 0]).is_none());
}

#[test]
fn valid_hand_written_bytes_decode() {
    // Tag 0, x=-64+67=3, y=-64+63=-1, angle 1, shape 5 (T), one cleared
    // row (19), two garbage holes (9, 9).
    let bytes = vec![0, 67, 63, 1, 5, 1, 19, 2, 9, 9];
    match decode_message(&bytes) {
        Some(Message::FieldChanged { mino, clear_lines, garbage_lines }) => {
            assert_eq!(mino.pos, Position::new(3, -1));
            assert_eq!(mino.angle, Angle::Deg90);
            assert_eq!(mino.shape, Shape::T);
            assert_eq!(clear_lines.0, vec![19]);
            assert_eq!(garbage_lines.0, vec![9, 9]);
            // Re-encoding gives back the same bytes.
            let m = Message::FieldChanged { mino, clear_lines, garbage_lines };
            assert_eq!(encode_message(&m), bytes);
        },
        other => panic!("wrong decode: {:?}", other),
    }
}
