//! The attack table and its bonuses.

use tetris_core::scoring::{attack, is_difficult_clear};
use tetris_core::t_spin::TSpin;

#[test]
fn base_table_without_bonuses() {
    assert_eq!(attack(1, TSpin::NoSpin, 0, false, false), 0);
    assert_eq!(attack(2, TSpin::NoSpin, 0, false, false), 1);
    assert_eq!(attack(3, TSpin::NoSpin, 0, false, false), 2);
    assert_eq!(attack(4, TSpin::NoSpin, 0, false, false), 4);
    assert_eq!(attack(1, TSpin::Full, 0, false, false), 2);
    assert_eq!(attack(2, TSpin::Full, 0, false, false), 4);
    assert_eq!(attack(3, TSpin::Full, 0, false, false), 6);
    assert_eq!(attack(1, TSpin::Mini, 0, false, false), 0);
    assert_eq!(attack(2, TSpin::Mini, 0, false, false), 0);
}

#[test]
fn no_clear_sends_nothing() {
    assert_eq!(attack(0, TSpin::NoSpin, 7, true, false), 0);
    assert_eq!(attack(0, TSpin::Full, 11, true, false), 0);
}

#[test]
fn combo_bonus_steps() {
    let combos_and_bonus =
        [(0u8, 0u8), (1, 1), (2, 1), (3, 1), (4, 2), (5, 2), (6, 3), (7, 3), (8, 4), (10, 4), (11, 5), (30, 5)];
    for &(combo, bonus) in &combos_and_bonus {
        assert_eq!(attack(1, TSpin::NoSpin, combo, false, false), bonus);
    }
}

#[test]
fn back_to_back_applies_only_to_difficult_clears() {
    // A Tetris after a difficult clear earns the extra row.
    assert_eq!(attack(4, TSpin::NoSpin, 0, true, false), 5);
    // A plain double does not, even with the flag set.
    assert_eq!(attack(2, TSpin::NoSpin, 0, true, false), 1);
    // A T-spin double with back-to-back: 4 + 1.
    assert_eq!(attack(2, TSpin::Full, 0, true, false), 5);
    // Mini clears are difficult, so they still earn the bonus row.
    assert_eq!(attack(1, TSpin::Mini, 0, true, false), 1);
}

#[test]
fn triple_t_spin_with_back_to_back_and_combo() {
    // Base 6, combo length 2 adds 1, back-to-back adds 1.
    assert_eq!(attack(3, TSpin::Full, 2, true, false), 8);
    // Without the back-to-back flag the same clear sends 7.
    assert_eq!(attack(3, TSpin::Full, 2, false, false), 7);
}

#[test]
fn perfect_clear_is_always_ten() {
    for count in 1..=4u8 {
        assert_eq!(attack(count, TSpin::NoSpin, 0, false, true), 10);
        assert_eq!(attack(count, TSpin::NoSpin, 9, true, true), 10);
    }
    assert_eq!(attack(1, TSpin::Mini, 3, false, true), 10);
    assert_eq!(attack(3, TSpin::Full, 11, true, true), 10);
}

#[test]
fn difficulty_definition() {
    assert!(is_difficult_clear(4, TSpin::NoSpin));
    assert!(is_difficult_clear(1, TSpin::Mini));
    assert!(is_difficult_clear(2, TSpin::Full));
    assert!(!is_difficult_clear(3, TSpin::NoSpin));
    assert!(!is_difficult_clear(1, TSpin::NoSpin));
}
