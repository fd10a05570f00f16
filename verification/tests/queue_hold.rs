//! The 7-bag randomizer, the next queue and the hold slot.

use tetris_core::local::LocalField;
use tetris_core::next::{NextQueue, RandomBag, QUEUE_SIZE};
use tetris_core::shape::Shape;

fn shape_key(s: Shape) -> usize {
    match s {
        Shape::I => 0,
        Shape::J => 1,
        Shape::L => 2,
        Shape::O => 3,
        Shape::S => 4,
        Shape::T => 5,
        Shape::Z => 6,
    }
}

#[test]
fn a_fresh_bag_draws_each_shape_exactly_once() {
    for _ in 0..50 {
        let mut bag = RandomBag::new();
        let mut counts = [0u32; 7];
        for _ in 0..7 {
            counts[shape_key(bag.pop())] += 1;
        }
        assert_eq!(counts, [1, 1, 1, 1, 1, 1, 1]);
    }
}

#[test]
fn bag_refills_for_the_next_seven() {
    let mut bag = RandomBag::new();
    for _ in 0..7 {
        bag.pop();
    }
    let mut counts = [0u32; 7];
    for _ in 0..7 {
        counts[shape_key(bag.pop())] += 1;
    }
    assert_eq!(counts, [1, 1, 1, 1, 1, 1, 1]);
}

#[test]
fn no_shape_repeats_within_a_bag() {
    let mut bag = RandomBag::new();
    let mut seen = [false; 7];
    for _ in 0..7 {
        let s = bag.pop();
        assert!(!seen[shape_key(s)], "shape drawn twice within one bag");
        seen[shape_key(s)] = true;
    }
}

#[test]
fn queue_keeps_its_length_and_order() {
    let mut q = NextQueue::new();
    let upcoming = q.queue();
    assert_eq!(upcoming.len(), QUEUE_SIZE);
    let first = q.pop();
    assert_eq!(first, upcoming[0]);
    let after = q.queue();
    assert_eq!(after.len(), QUEUE_SIZE);
    assert_eq!(&after[..QUEUE_SIZE - 1], &upcoming[1..]);
}

#[test]
fn fourteen_queue_pops_cover_two_bags() {
    // The queue is primed with 6 draws; 8 more pops consume the rest of
    // the first bag plus the start of the second. Each window of 7 draws
    // aligned to a bag boundary holds every shape once.
    let mut q = NextQueue::new();
    let mut drawn: Vec<Shape> = Vec::new();
    for _ in 0..14 {
        drawn.push(q.pop());
    }
    let mut counts = [0u32; 7];
    for &s in &drawn[..7] {
        counts[shape_key(s)] += 1;
    }
    assert_eq!(counts, [1, 1, 1, 1, 1, 1, 1]);
    let mut counts2 = [0u32; 7];
    for &s in &drawn[7..14] {
        counts2[shape_key(s)] += 1;
    }
    assert_eq!(counts2, [1, 1, 1, 1, 1, 1, 1]);
}

#[test]
fn hold_swap_rejected_twice_then_accepted_after_lock() {
    let mut lf = LocalField::default();
    // First hold with an empty slot: the next piece comes off the queue.
    let upcoming = lf.next_queue.queue();
    let got = lf.try_hold(Shape::T);
    assert_eq!(got, Some(upcoming[0]));
    assert_eq!(lf.hold, Some(Shape::T));
    assert!(lf.is_hold_used);
    // A second attempt before the next lock is a no-op.
    let second = lf.try_hold(Shape::S);
    assert_eq!(second, None);
    assert_eq!(lf.hold, Some(Shape::T));
    // A lock resets the flag; the parked shape comes back out.
    lf.is_hold_used = false;
    let third = lf.try_hold(Shape::Z);
    assert_eq!(third, Some(Shape::T));
    assert_eq!(lf.hold, Some(Shape::Z));
}

#[test]
fn receive_garbage_accumulates_exactly() {
    let mut lf = LocalField::default();
    lf.handle_receive_garbage(3);
    assert_eq!(lf.garbage_amount, 3);
    lf.handle_receive_garbage(10);
    assert_eq!(lf.garbage_amount, 13);
    lf.handle_receive_garbage(60);
    assert_eq!(lf.garbage_amount, 73);
    // Only the counter's own range caps the sum.
    lf.handle_receive_garbage(200);
    assert_eq!(lf.garbage_amount, 255);
    lf.handle_receive_garbage(7);
    assert_eq!(lf.garbage_amount, 255);
}
