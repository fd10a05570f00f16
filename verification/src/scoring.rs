//! The attack calculator: how many garbage rows a clear sends.

use vstd::prelude::*;
use crate::t_spin::TSpin;

verus! {

/// Base garbage for the clear category. Single, Double, Triple and Tetris
/// send 0, 1, 2 and 4 rows; T-spin Full clears send 2, 4 and 6 rows for
/// one, two and three lines; every Mini variant sends nothing.
pub open spec fn spec_base_attack(clear_count: int, t_spin: TSpin) -> int {
    match t_spin {
        TSpin::NoSpin => if clear_count == 1 {
            0
        } else if clear_count == 2 {
            1
        } else if clear_count == 3 {
            2
        } else {
            4
        },
        TSpin::Mini => 0,
        TSpin::Full => if clear_count == 1 {
            2
        } else if clear_count == 2 {
            4
        } else {
            6
        },
    }
}

/// Combo (REN) bonus: a step table on the length of the run of consecutive
/// clearing placements before this one.
pub open spec fn spec_combo_bonus(combo: int) -> int {
    if combo <= 0 {
        0
    } else if combo <= 3 {
        1
    } else if combo <= 5 {
        2
    } else if combo <= 7 {
        3
    } else if combo <= 10 {
        4
    } else {
        5
    }
}

/// A difficult clear: a Tetris or any T-spin clear. Difficult clears feed
/// the back-to-back bonus.
pub open spec fn spec_is_difficult(clear_count: int, t_spin: TSpin) -> bool {
    clear_count == 4 || t_spin != TSpin::NoSpin
}

/// Garbage rows sent for one placement. A placement that clears nothing
/// sends nothing; a perfect clear sends a fixed 10 whatever else holds;
/// any other clear sends its base value, plus the combo bonus, plus 1 when
/// it is difficult and follows a difficult clear.
pub open spec fn spec_attack(
    clear_count: int,
    t_spin: TSpin,
    combo: int,
    back_to_back: bool,
    perfect: bool,
) -> int {
    if clear_count == 0 {
        0
    } else if perfect {
        10
    } else {
        spec_base_attack(clear_count, t_spin) + spec_combo_bonus(combo) + (if back_to_back
            && spec_is_difficult(clear_count, t_spin) {
            1int
        } else {
            0int
        })
    }
}

/// The attack calculator as executable code.
pub fn attack(clear_count: u8, t_spin: TSpin, combo: u8, back_to_back: bool, perfect: bool) -> (r:
    u8)
    ensures
        r == spec_attack(clear_count as int, t_spin, combo as int, back_to_back, perfect),
{
    if clear_count == 0 {
        return 0;
    }
    if perfect {
        return 10;
    }
    let base: u8 = match t_spin {
        TSpin::NoSpin => {
            if clear_count == 1 {
                0
            } else if clear_count == 2 {
                1
            } else if clear_count == 3 {
                2
            } else {
                4
            }
        },
        TSpin::Mini => 0,
        TSpin::Full => {
            if clear_count == 1 {
                2
            } else if clear_count == 2 {
                4
            } else {
                6
            }
        },
    };
    let combo_bonus: u8 = if combo == 0 {
        0
    } else if combo <= 3 {
        1
    } else if combo <= 5 {
        2
    } else if combo <= 7 {
        3
    } else if combo <= 10 {
        4
    } else {
        5
    };
    let difficult = clear_count == 4 || !matches!(t_spin, TSpin::NoSpin);
    let back_to_back_bonus: u8 = if back_to_back && difficult {
        1
    } else {
        0
    };
    base + combo_bonus + back_to_back_bonus
}

/// Whether this clear counts as difficult, as executable code.
pub fn is_difficult_clear(clear_count: u8, t_spin: TSpin) -> (r: bool)
    ensures
        r == spec_is_difficult(clear_count as int, t_spin),
{
    clear_count == 4 || !matches!(t_spin, TSpin::NoSpin)
}

/// A perfect clear always sends exactly 10 rows, regardless of the clear
/// category, the T-spin kind, the combo length or the back-to-back state,
/// for every placement that clears at least one row.
pub proof fn lemma_perfect_clear_attack(clear_count: int, t_spin: TSpin, combo: int, b2b: bool)
    requires
        clear_count >= 1,
    ensures
        spec_attack(clear_count, t_spin, combo, b2b, true) == 10,
{
}

/// A Single with no running combo sends nothing, with or without the
/// back-to-back flag armed: one line without a T-spin is not a difficult
/// clear, so no bonus applies.
pub proof fn lemma_single_clear_attack(back_to_back: bool)
    ensures
        spec_attack(1, TSpin::NoSpin, 0, back_to_back, false) == 0,
{
}

} // verus!
