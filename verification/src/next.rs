//! The 7-bag randomizer and the next-piece lookahead queue.
//!
//! Shapes are drawn from a bag holding one piece of each of the 7 shapes;
//! the bag is refilled with a fresh shuffled set of all 7 whenever it runs
//! out. So within one bag every shape is drawn exactly once, and a shape
//! can repeat early only across a bag boundary.

use vstd::prelude::*;
use vstd::multiset::Multiset;
use std::collections::VecDeque;
use crate::rng::{new_rng, shuffle_shapes};
use crate::shape::Shape;

verus! {

broadcast use vstd::seq_lib::group_to_multiset_ensures;

pub const QUEUE_SIZE: usize = 6;

/// One of each shape: the contents of a freshly filled bag.
pub open spec fn seven_bag() -> Multiset<Shape> {
    Multiset::empty().insert(Shape::I).insert(Shape::J).insert(Shape::L).insert(Shape::O).insert(
        Shape::S,
    ).insert(Shape::T).insert(Shape::Z)
}

/// What one draw does to the bag contents: from an empty bag it draws out
/// of a full fresh set, otherwise out of what was left.
pub open spec fn spec_bag_pop(before: Multiset<Shape>, drawn: Shape, after: Multiset<Shape>) -> bool {
    if before.len() == 0 {
        after.insert(drawn) == seven_bag()
    } else {
        after.insert(drawn) == before
    }
}

/// The shuffled bag of shapes not yet drawn in the current cycle.
pub struct RandomBag {
    shapes: Vec<Shape>,
    rng: rand::rngs::ThreadRng,
}

impl View for RandomBag {
    type V = Multiset<Shape>;

    closed spec fn view(&self) -> Multiset<Shape> {
        self.shapes@.to_multiset()
    }
}

impl RandomBag {
    /// A bag holding all 7 shapes in a random order.
    pub fn new() -> (r: RandomBag)
        ensures
            r@ == seven_bag(),
    {
        let rng = new_rng();
        let mut bag = RandomBag { shapes: Vec::new(), rng };
        bag.fill();
        bag
    }

    fn fill(&mut self)
        ensures
            final(self)@ == seven_bag(),
    {
        let mut shapes: Vec<Shape> = Vec::new();
        shapes.push(Shape::I);
        shapes.push(Shape::J);
        shapes.push(Shape::L);
        shapes.push(Shape::O);
        shapes.push(Shape::S);
        shapes.push(Shape::T);
        shapes.push(Shape::Z);
        proof {
            assert(shapes@ =~= Seq::empty().push(Shape::I).push(Shape::J).push(Shape::L).push(
                Shape::O,
            ).push(Shape::S).push(Shape::T).push(Shape::Z));
            assert(Seq::<Shape>::empty().to_multiset() =~= Multiset::<Shape>::empty());
            assert(shapes@.to_multiset() =~= seven_bag());
        }
        shuffle_shapes(&mut self.rng, &mut shapes);
        self.shapes = shapes;
    }

    /// Draws one shape; refills the bag first when it is empty.
    pub fn pop(&mut self) -> (r: Shape)
        ensures
            spec_bag_pop(old(self)@, r, final(self)@),
    {
        proof {
            self.shapes@.to_multiset_ensures();
        }
        if self.shapes.len() == 0 {
            self.fill();
        }
        proof {
            self.shapes@.to_multiset_ensures();
            assert(self.shapes@.to_multiset().len() == self.shapes@.len());
        }
        let ghost pre = self.shapes@;
        let r = match self.shapes.pop() {
            Option::Some(s) => s,
            Option::None => {
                proof {
                    assert(false);
                }
                Shape::I
            },
        };
        proof {
            assert(pre.drop_last().push(r) =~= pre);
            assert(pre.drop_last().push(r).to_multiset() == pre.drop_last().to_multiset().insert(r));
        }
        r
    }
}

/// A bounded lookahead of upcoming shapes, fed from the 7-bag.
pub struct NextQueue {
    queue: VecDeque<Shape>,
    bag: RandomBag,
}

impl View for NextQueue {
    type V = Seq<Shape>;

    closed spec fn view(&self) -> Seq<Shape> {
        self.queue@
    }
}

impl NextQueue {
    /// What remains of the bag feeding this queue.
    pub closed spec fn bag_view(&self) -> Multiset<Shape> {
        self.bag@
    }

    /// A queue pre-filled with the first `QUEUE_SIZE` draws of one fresh
    /// bag: the queued shapes are distinct draws of that bag, and the bag
    /// still holds what they left of it.
    pub fn new() -> (r: NextQueue)
        ensures
            r@.len() == QUEUE_SIZE,
            r@.to_multiset().add(r.bag_view()) == seven_bag(),
    {
        let mut bag = RandomBag::new();
        let mut queue: VecDeque<Shape> = VecDeque::new();
        let mut i: usize = 0;
        proof {
            queue@.to_multiset_ensures();
            lemma_empty_add_left(bag@);
        }
        while i < QUEUE_SIZE
            invariant
                i <= QUEUE_SIZE,
                queue@.len() == i,
                queue@.to_multiset().add(bag@) == seven_bag(),
                bag@.len() + i == 7,
            decreases QUEUE_SIZE - i,
        {
            let ghost q0 = queue@;
            let ghost b0 = bag@;
            let s = bag.pop();
            queue.push_back(s);
            proof {
                q0.to_multiset_ensures();
                queue@.to_multiset_ensures();
                assert(queue@ == q0.push(s));
                assert(queue@.to_multiset() == q0.to_multiset().insert(s));
                assert(bag@.insert(s) == b0);
                lemma_insert_len_rel(bag@, s);
                lemma_add_insert_shift(q0.to_multiset(), bag@, s);
            }
            i += 1;
        }
        NextQueue { queue, bag }
    }

    /// The next shape to spawn; the lookahead refills from the bag so its
    /// length never changes.
    pub fn pop(&mut self) -> (r: Shape)
        requires
            old(self)@.len() > 0,
        ensures
            final(self)@.len() == old(self)@.len(),
            r == old(self)@[0],
            final(self)@ =~= old(self)@.drop_first().push(final(self)@.last()),
            spec_bag_pop(old(self).bag_view(), final(self)@.last(), final(self).bag_view()),
    {
        let fresh = self.bag.pop();
        self.queue.push_back(fresh);
        let r = match self.queue.pop_front() {
            Option::Some(s) => s,
            Option::None => {
                proof {
                    assert(false);
                }
                Shape::I
            },
        };
        r
    }

    /// The queued shapes, front first, for display.
    pub fn queue(&self) -> (r: Vec<Shape>)
        ensures
            r@ == self@,
    {
        let mut out: Vec<Shape> = Vec::new();
        let mut i: usize = 0;
        while i < self.queue.len()
            invariant
                i <= self.queue@.len(),
                out@ =~= self.queue@.take(i as int),
            decreases self.queue@.len() - i,
        {
            out.push(self.queue[i]);
            i += 1;
        }
        proof {
            assert(self.queue@.take(self.queue@.len() as int) =~= self.queue@);
        }
        out
    }
}

impl Default for NextQueue {
    fn default() -> (r: Self)
        ensures
            r@.len() == QUEUE_SIZE,
            r@.to_multiset().add(r.bag_view()) == seven_bag(),
    {
        NextQueue::new()
    }
}

/// Every shape appears exactly once in a fresh bag.
pub proof fn lemma_seven_bag_counts()
    ensures
        forall|s: Shape| #[trigger] seven_bag().count(s) == 1,
{
    assert forall|s: Shape| #[trigger] seven_bag().count(s) == 1 by {
        let b0 = Multiset::<Shape>::empty();
        let b1 = b0.insert(Shape::I);
        let b2 = b1.insert(Shape::J);
        let b3 = b2.insert(Shape::L);
        let b4 = b3.insert(Shape::O);
        let b5 = b4.insert(Shape::S);
        let b6 = b5.insert(Shape::T);
        lemma_insert_count_rel(b0, Shape::I, s);
        lemma_insert_count_rel(b1, Shape::J, s);
        lemma_insert_count_rel(b2, Shape::L, s);
        lemma_insert_count_rel(b3, Shape::O, s);
        lemma_insert_count_rel(b4, Shape::S, s);
        lemma_insert_count_rel(b5, Shape::T, s);
        lemma_insert_count_rel(b6, Shape::Z, s);
        vstd::multiset::axiom_multiset_empty(s);
        assert(b0.count(s) == 0);
        match s {
            Shape::I => {},
            Shape::J => {},
            Shape::L => {},
            Shape::O => {},
            Shape::S => {},
            Shape::T => {},
            Shape::Z => {},
        }
    }
}

/// Moving one element across an addition changes nothing: inserting into
/// the left summand or the right gives the same multiset.
proof fn lemma_add_insert_shift(a: Multiset<Shape>, b: Multiset<Shape>, x: Shape)
    ensures
        a.insert(x).add(b) == a.add(b.insert(x)),
{
    broadcast use vstd::multiset::group_multiset_axioms;

    assert(a.insert(x).add(b) =~= a.add(b.insert(x)));
}

/// Adding to the empty multiset gives the added contents back.
proof fn lemma_empty_add_left(b: Multiset<Shape>)
    ensures
        Multiset::<Shape>::empty().add(b) == b,
{
    broadcast use vstd::multiset::group_multiset_axioms;

    assert(Multiset::<Shape>::empty().add(b) =~= b);
}

proof fn lemma_insert_count_rel(m: Multiset<Shape>, x: Shape, s: Shape)
    ensures
        m.insert(x).count(s) == m.count(s) + (if x == s {
            1int
        } else {
            0int
        }),
{
    broadcast use vstd::multiset::group_multiset_axioms;

}

proof fn lemma_insert_len_rel(m: Multiset<Shape>, x: Shape)
    ensures
        m.insert(x).len() == m.len() + 1,
{
    broadcast use vstd::multiset::group_multiset_axioms;

}

/// The multiset of a seven-element sequence, spelled out as inserts.
proof fn lemma_drawn_multiset(
    r1: Shape,
    r2: Shape,
    r3: Shape,
    r4: Shape,
    r5: Shape,
    r6: Shape,
    r7: Shape,
)
    ensures
        seq![r1, r2, r3, r4, r5, r6, r7].to_multiset() == Multiset::<Shape>::empty().insert(
            r1,
        ).insert(r2).insert(r3).insert(r4).insert(r5).insert(r6).insert(r7),
{
    let s0 = Seq::<Shape>::empty();
    let s1 = s0.push(r1);
    let s2 = s1.push(r2);
    let s3 = s2.push(r3);
    let s4 = s3.push(r4);
    let s5 = s4.push(r5);
    let s6 = s5.push(r6);
    let s7 = s6.push(r7);
    assert(seq![r1, r2, r3, r4, r5, r6, r7] =~= s7);
    broadcast use vstd::multiset::axiom_len_empty;

    s0.to_multiset_ensures();
    assert(s0.to_multiset().len() == 0);
    assert(s0.to_multiset() =~= Multiset::<Shape>::empty()) by {
        broadcast use vstd::multiset::group_multiset_axioms;

    }
    assert(s1.to_multiset() == s0.to_multiset().insert(r1));
    assert(s2.to_multiset() == s1.to_multiset().insert(r2));
    assert(s3.to_multiset() == s2.to_multiset().insert(r3));
    assert(s4.to_multiset() == s3.to_multiset().insert(r4));
    assert(s5.to_multiset() == s4.to_multiset().insert(r5));
    assert(s6.to_multiset() == s5.to_multiset().insert(r6));
    assert(s7.to_multiset() == s6.to_multiset().insert(r7));
}

/// Seven consecutive draws that start at a bag boundary (an empty bag)
/// yield each of the 7 shapes exactly once: the drawn multiset is the full
/// bag, so no shape repeats before all seven have appeared, and the bag is
/// empty again afterwards.
pub proof fn lemma_seven_draws_are_one_bag(
    m0: Multiset<Shape>,
    m1: Multiset<Shape>,
    m2: Multiset<Shape>,
    m3: Multiset<Shape>,
    m4: Multiset<Shape>,
    m5: Multiset<Shape>,
    m6: Multiset<Shape>,
    m7: Multiset<Shape>,
    r1: Shape,
    r2: Shape,
    r3: Shape,
    r4: Shape,
    r5: Shape,
    r6: Shape,
    r7: Shape,
)
    requires
        m0.len() == 0,
        spec_bag_pop(m0, r1, m1),
        spec_bag_pop(m1, r2, m2),
        spec_bag_pop(m2, r3, m3),
        spec_bag_pop(m3, r4, m4),
        spec_bag_pop(m4, r5, m5),
        spec_bag_pop(m5, r6, m6),
        spec_bag_pop(m6, r7, m7),
    ensures
        seq![r1, r2, r3, r4, r5, r6, r7].to_multiset() == seven_bag(),
        m7.len() == 0,
{
    lemma_drawn_multiset(r1, r2, r3, r4, r5, r6, r7);
    let drawn = Multiset::<Shape>::empty().insert(r1).insert(r2).insert(r3).insert(r4).insert(
        r5,
    ).insert(r6).insert(r7);
    let b0 = Multiset::<Shape>::empty();
    let b1 = b0.insert(Shape::I);
    let b2 = b1.insert(Shape::J);
    let b3 = b2.insert(Shape::L);
    let b4 = b3.insert(Shape::O);
    let b5 = b4.insert(Shape::S);
    let b6 = b5.insert(Shape::T);
    let b7 = b6.insert(Shape::Z);
    broadcast use vstd::multiset::axiom_len_empty;

    lemma_insert_len_rel(b0, Shape::I);
    lemma_insert_len_rel(b1, Shape::J);
    lemma_insert_len_rel(b2, Shape::L);
    lemma_insert_len_rel(b3, Shape::O);
    lemma_insert_len_rel(b4, Shape::S);
    lemma_insert_len_rel(b5, Shape::T);
    lemma_insert_len_rel(b6, Shape::Z);
    assert(seven_bag() == b7);
    assert(seven_bag().len() == 7);
    assert(m1.insert(r1) == seven_bag());
    lemma_insert_len_rel(m1, r1);
    lemma_insert_len_rel(m2, r2);
    lemma_insert_len_rel(m3, r3);
    lemma_insert_len_rel(m4, r4);
    lemma_insert_len_rel(m5, r5);
    lemma_insert_len_rel(m6, r6);
    assert(m1.len() == 6);
    assert(m2.insert(r2) == m1 && m2.len() == 5);
    assert(m3.insert(r3) == m2 && m3.len() == 4);
    assert(m4.insert(r4) == m3 && m4.len() == 3);
    assert(m5.insert(r5) == m4 && m5.len() == 2);
    assert(m6.insert(r6) == m5 && m6.len() == 1);
    lemma_insert_len_rel(m7, r7);
    assert(m7.insert(r7) == m6 && m7.len() == 0);
    assert forall|s: Shape| #[trigger] drawn.count(s) == seven_bag().count(s) by {
        lemma_insert_count_rel(b0, r1, s);
        lemma_insert_count_rel(b0.insert(r1), r2, s);
        lemma_insert_count_rel(b0.insert(r1).insert(r2), r3, s);
        lemma_insert_count_rel(b0.insert(r1).insert(r2).insert(r3), r4, s);
        lemma_insert_count_rel(b0.insert(r1).insert(r2).insert(r3).insert(r4), r5, s);
        lemma_insert_count_rel(b0.insert(r1).insert(r2).insert(r3).insert(r4).insert(r5), r6, s);
        lemma_insert_count_rel(
            b0.insert(r1).insert(r2).insert(r3).insert(r4).insert(r5).insert(r6),
            r7,
            s,
        );
        lemma_insert_count_rel(m1, r1, s);
        lemma_insert_count_rel(m2, r2, s);
        lemma_insert_count_rel(m3, r3, s);
        lemma_insert_count_rel(m4, r4, s);
        lemma_insert_count_rel(m5, r5, s);
        lemma_insert_count_rel(m6, r6, s);
        lemma_insert_count_rel(m7, r7, s);
        vstd::multiset::axiom_count_le_len(m7, s);
        assert(m7.count(s) == 0);
        vstd::multiset::axiom_multiset_empty(s);
        assert(b0.count(s) == 0);
    }
    assert(drawn =~= seven_bag()) by {
        vstd::multiset::axiom_multiset_ext_equal(drawn, seven_bag());
    }
}

} // verus!
