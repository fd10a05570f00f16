//! The garbage generator's shape and its column-stickiness bias.

use tetris_core::blocks::Garbages;

#[test]
fn generated_rows_match_the_requested_count() {
    for n in [0u8, 1, 5, 40] {
        let g = Garbages::from_amount(n);
        assert_eq!(g.len(), n as usize);
        assert_eq!(g.is_empty(), n == 0);
        for &hole in &g.0 {
            assert!(hole < 10);
        }
    }
}

#[test]
fn hole_columns_repeat_about_seven_times_in_ten() {
    // Each row keeps the previous hole with probability 0.7 and redraws
    // it uniformly otherwise, so adjacent rows agree a bit over 70% of
    // the time. A loose band keeps the test stable.
    let mut same: u32 = 0;
    let mut pairs: u32 = 0;
    for _ in 0..200 {
        let g = Garbages::from_amount(40);
        for w in g.0.windows(2) {
            pairs += 1;
            if w[0] == w[1] {
                same += 1;
            }
        }
    }
    let ratio = same as f64 / pairs as f64;
    assert!(ratio > 0.60 && ratio < 0.86, "stickiness ratio {ratio} out of range");
}

#[test]
fn first_hole_varies_across_many_draws() {
    // The first column is drawn uniformly: over many draws more than one
    // column must appear.
    let mut seen = [false; 10];
    for _ in 0..300 {
        let g = Garbages::from_amount(1);
        seen[g.0[0] as usize] = true;
    }
    assert!(seen.iter().filter(|&&b| b).count() > 3);
}
