//! Peers: identities, play states, and the roster of opponents.
//!
//! The transport that carries messages between peers lives outside the
//! crate; here are the data the simulation keeps about the peers and the
//! rules for picking the current attack target.

use vstd::prelude::*;
use crate::blocks::{holes_wf, Garbages, Lines, FIELD_MAX_HEIGHT, FIELD_WIDTH};
use crate::mino::{spec_angle_index, Angle, Mino};
use crate::shape::Shape;

verus! {

/// Identity of a connected peer, assigned by the session setup.
#[derive(Debug, Clone, Copy, PartialEq, Eq, PartialOrd, Ord, Hash, Structural)]
pub struct PlayerId(pub u64);

#[derive(Debug, Clone, Copy, PartialEq, Eq, Structural)]
pub enum PlayerState {
    Playing,
    GameOver,
    Win,
}

impl Default for PlayerState {
    fn default() -> (r: Self)
        ensures
            r == PlayerState::Playing,
    {
        PlayerState::Playing
    }
}

#[derive(Debug, Clone, Copy, PartialEq, Eq, Structural)]
pub struct Player {
    pub id: PlayerId,
    pub state: PlayerState,
}

impl Player {
    pub fn new(id: PlayerId) -> (r: Player)
        ensures
            r.id == id,
            r.state == PlayerState::Playing,
    {
        Player { id, state: PlayerState::Playing }
    }
}

/// The roster of opponents, in the fixed order the session setup gave it.
#[derive(Debug)]
pub struct Players(pub Vec<Player>);

/// Index of the first roster entry with the given id, or `-1` if none.
pub open spec fn spec_find_player(ps: Seq<Player>, id: PlayerId, i: int) -> int
    decreases ps.len() - i,
{
    if i < 0 || i >= ps.len() {
        -1
    } else if ps[i].id == id {
        i
    } else {
        spec_find_player(ps, id, i + 1)
    }
}

/// The roster entries still playing, in roster order.
pub open spec fn spec_playing(ps: Seq<Player>) -> Seq<Player>
    decreases ps.len(),
{
    if ps.len() == 0 {
        Seq::empty()
    } else {
        let rest = spec_playing(ps.drop_last());
        if ps.last().state == PlayerState::Playing {
            rest + seq![ps.last()]
        } else {
            rest
        }
    }
}

/// Index of the first still-playing entry with the given id inside
/// `spec_playing(ps)`, or `-1`.
pub open spec fn spec_playing_index(ps: Seq<Player>, id: PlayerId) -> int {
    spec_find_player(spec_playing(ps), id, 0)
}

/// The attack target after one rotation step: the next still-playing
/// opponent after the current target in roster order, wrapping to the first
/// still-playing opponent when the current target is last, gone, or not set.
pub open spec fn spec_next_target(ps: Seq<Player>, current: Option<PlayerId>) -> Option<PlayerId> {
    let playing = spec_playing(ps);
    if playing.len() == 0 {
        None
    } else {
        match current {
            Option::None => Option::Some(playing[0].id),
            Option::Some(t) => {
                let j = spec_playing_index(ps, t);
                if 0 <= j && j + 1 < playing.len() {
                    Option::Some(playing[j + 1].id)
                } else {
                    Option::Some(playing[0].id)
                }
            },
        }
    }
}

impl Players {
    /// Updates the state of the first roster entry with the given id; a
    /// message from an unknown peer changes nothing.
    pub fn set_state(&mut self, id: PlayerId, state: PlayerState)
        ensures
            ({
                let j = spec_find_player(old(self).0@, id, 0);
                if j >= 0 {
                    final(self).0@ == old(self).0@.update(
                        j,
                        Player { id: old(self).0@[j].id, state },
                    )
                } else {
                    final(self).0@ == old(self).0@
                }
            }),
    {
        let ghost ps = self.0@;
        let mut i: usize = 0;
        while i < self.0.len()
            invariant
                ps == self.0@,
                ps == old(self).0@,
                i <= ps.len(),
                forall|k: int| 0 <= k < i ==> (#[trigger] ps[k]).id != id,
                spec_find_player(ps, id, 0) == spec_find_player(ps, id, i as int),
            decreases self.0.len() - i,
        {
            if self.0[i].id == id {
                let entry = Player { id: self.0[i].id, state };
                self.0.set(i, entry);
                return ;
            }
            i += 1;
        }
    }

    /// True iff every roster entry has reached game over. On an empty
    /// roster this holds vacuously.
    pub fn all_game_over(&self) -> (r: bool)
        ensures
            r == forall|i: int| 0 <= i < self.0@.len() ==> (#[trigger] self.0@[i]).state
                == PlayerState::GameOver,
    {
        let mut i: usize = 0;
        while i < self.0.len()
            invariant
                i <= self.0@.len(),
                forall|k: int| 0 <= k < i ==> (#[trigger] self.0@[k]).state == PlayerState::GameOver,
            decreases self.0.len() - i,
        {
            if !matches!(self.0[i].state, PlayerState::GameOver) {
                return false;
            }
            i += 1;
        }
        true
    }

    /// One step of target rotation.
    pub fn next_target(&self, current: Option<PlayerId>) -> (r: Option<PlayerId>)
        ensures
            r == spec_next_target(self.0@, current),
    {
        let ghost ps = self.0@;
        let mut playing: Vec<Player> = Vec::new();
        let mut i: usize = 0;
        while i < self.0.len()
            invariant
                ps == self.0@,
                i <= ps.len(),
                playing@ == spec_playing(ps.take(i as int)),
            decreases self.0.len() - i,
        {
            proof {
                assert(ps.take(i + 1).drop_last() =~= ps.take(i as int));
                assert(ps.take(i + 1).last() == ps[i as int]);
            }
            if matches!(self.0[i].state, PlayerState::Playing) {
                playing.push(self.0[i]);
            }
            i += 1;
        }
        proof {
            assert(ps.take(ps.len() as int) =~= ps);
        }
        if playing.len() == 0 {
            return None;
        }
        let t = match current {
            Option::None => {
                return Some(playing[0].id);
            },
            Option::Some(t) => t,
        };
        let mut j: usize = 0;
        while j < playing.len()
            invariant
                ps == self.0@,
                current == Option::Some(t),
                playing@ == spec_playing(ps),
                playing@.len() > 0,
                j <= playing@.len(),
                forall|k: int| 0 <= k < j ==> (#[trigger] playing@[k]).id != t,
                spec_find_player(playing@, t, 0) == spec_find_player(playing@, t, j as int),
            decreases playing.len() - j,
        {
            if playing[j].id == t {
                if j + 1 < playing.len() {
                    return Some(playing[j + 1].id);
                } else {
                    return Some(playing[0].id);
                }
            }
            j += 1;
        }
        Some(playing[0].id)
    }
}


/// The three cross-peer events of the sync protocol, applied by a
/// recipient in receipt order.
#[derive(Debug)]
pub enum Message {
    /// The sender locked a piece: replay commit, collapse and garbage
    /// push against the sender's replica grid.
    FieldChanged { mino: Mino, clear_lines: Lines, garbage_lines: Garbages },
    /// The sender attacks: add to the receiver's pending-garbage counter.
    GarbageSent { amount: u8 },
    /// The sender's play state changed.
    StateChanged { state: PlayerState },
}

pub open spec fn spec_shape_index(s: Shape) -> int {
    match s {
        Shape::I => 0,
        Shape::J => 1,
        Shape::L => 2,
        Shape::O => 3,
        Shape::S => 4,
        Shape::T => 5,
        Shape::Z => 6,
    }
}

pub open spec fn spec_state_index(s: PlayerState) -> int {
    match s {
        PlayerState::Playing => 0,
        PlayerState::GameOver => 1,
        PlayerState::Win => 2,
    }
}

/// What a message must satisfy to go on the wire: the piece anchor within
/// one byte's offset range, the row list well-formed, the hole columns on
/// the board, and the garbage count within its length byte.
pub open spec fn message_wf(m: Message) -> bool {
    match m {
        Message::FieldChanged { mino, clear_lines, garbage_lines } => {
            &&& -64 <= mino.pos.x < 64
            &&& -64 <= mino.pos.y < 64
            &&& clear_lines.wf()
            &&& garbage_lines.wf()
            &&& garbage_lines@.len() <= 255
        },
        Message::GarbageSent { amount } => true,
        Message::StateChanged { state } => true,
    }
}

/// A length byte followed by the values themselves.
pub open spec fn enc_block(vs: Seq<int>) -> Seq<u8> {
    seq![vs.len() as u8] + vs.map_values(|v: int| v as u8)
}

/// The byte encoding of a message: a tag byte, then the fields as
/// fixed-width values, with each list preceded by its length.
pub open spec fn spec_encode(m: Message) -> Seq<u8> {
    match m {
        Message::FieldChanged { mino, clear_lines, garbage_lines } => seq![
            0u8,
            (mino.pos.x + 64) as u8,
            (mino.pos.y + 64) as u8,
            spec_angle_index(mino.angle) as u8,
            spec_shape_index(mino.shape) as u8,
        ] + enc_block(clear_lines@) + enc_block(garbage_lines@),
        Message::GarbageSent { amount } => seq![1u8, amount],
        Message::StateChanged { state } => seq![2u8, spec_state_index(state) as u8],
    }
}

/// Exactly the byte strings the decoder accepts.
pub open spec fn spec_decode_ok(b: Seq<u8>) -> bool {
    if b.len() < 1 {
        false
    } else if b[0] == 0 {
        &&& b.len() >= 7
        &&& b[1] < 128
        &&& b[2] < 128
        &&& b[3] < 4
        &&& b[4] < 7
        &&& ({
            let nl = b[5] as int;
            &&& b.len() >= 7 + nl
            &&& ({
                let ng = b[6 + nl] as int;
                &&& b.len() == 7 + nl + ng
                &&& forall|i: int| 0 <= i < nl ==> #[trigger] b[6 + i] < FIELD_MAX_HEIGHT as u8
                &&& forall|i: int, j: int| 0 <= i < j < nl ==> #[trigger] b[6 + i] > #[trigger] b[6 + j]
                &&& forall|j: int| 0 <= j < ng ==> #[trigger] b[7 + nl + j] < FIELD_WIDTH as u8
            })
        })
    } else if b[0] == 1 {
        b.len() == 2
    } else if b[0] == 2 {
        b.len() == 2 && b[1] < 3
    } else {
        false
    }
}

impl Shape {
    fn index_u8(&self) -> (r: u8)
        ensures
            r == spec_shape_index(*self),
    {
        match self {
            Shape::I => 0,
            Shape::J => 1,
            Shape::L => 2,
            Shape::O => 3,
            Shape::S => 4,
            Shape::T => 5,
            Shape::Z => 6,
        }
    }

    fn from_index_u8(v: u8) -> (r: Shape)
        requires
            v < 7,
        ensures
            spec_shape_index(r) == v as int,
    {
        if v == 0 {
            Shape::I
        } else if v == 1 {
            Shape::J
        } else if v == 2 {
            Shape::L
        } else if v == 3 {
            Shape::O
        } else if v == 4 {
            Shape::S
        } else if v == 5 {
            Shape::T
        } else {
            Shape::Z
        }
    }
}

/// Serializes a message for the transport channel.
pub fn encode_message(m: &Message) -> (r: Vec<u8>)
    requires
        message_wf(*m),
    ensures
        r@ == spec_encode(*m),
{
    let mut out: Vec<u8> = Vec::new();
    match m {
        Message::FieldChanged { mino, clear_lines, garbage_lines } => {
            proof {
                crate::blocks::lemma_lines_len(clear_lines@);
            }
            out.push(0);
            out.push((mino.pos.x + 64) as u8);
            out.push((mino.pos.y + 64) as u8);
            out.push(mino.angle.index() as u8);
            out.push(mino.shape.index_u8());
            out.push(clear_lines.0.len() as u8);
            let ghost header = out@;
            let mut i: usize = 0;
            while i < clear_lines.0.len()
                invariant
                    out@.len() == header.len() + i,
                    i <= clear_lines.0@.len(),
                    out@ =~= header + clear_lines.0@.take(i as int),
                decreases clear_lines.0.len() - i,
            {
                out.push(clear_lines.0[i]);
                proof {
                    assert(clear_lines.0@.take(i + 1) =~= clear_lines.0@.take(i as int).push(
                        clear_lines.0@[i as int],
                    ));
                }
                i += 1;
            }
            proof {
                assert(clear_lines.0@.take(clear_lines.0@.len() as int) =~= clear_lines.0@);
            }
            out.push(garbage_lines.0.len() as u8);
            let ghost header2 = out@;
            let mut j: usize = 0;
            while j < garbage_lines.0.len()
                invariant
                    out@.len() == header2.len() + j,
                    j <= garbage_lines.0@.len(),
                    out@ =~= header2 + garbage_lines.0@.take(j as int),
                decreases garbage_lines.0.len() - j,
            {
                out.push(garbage_lines.0[j]);
                proof {
                    assert(garbage_lines.0@.take(j + 1) =~= garbage_lines.0@.take(j as int).push(
                        garbage_lines.0@[j as int],
                    ));
                }
                j += 1;
            }
            proof {
                assert(garbage_lines.0@.take(garbage_lines.0@.len() as int) =~= garbage_lines.0@);
                assert(clear_lines.0@ =~= clear_lines@.map_values(|v: int| v as u8));
                assert(garbage_lines.0@ =~= garbage_lines@.map_values(|v: int| v as u8));
                assert(out@ =~= spec_encode(*m));
            }
        },
        Message::GarbageSent { amount } => {
            out.push(1);
            out.push(*amount);
            proof {
                assert(out@ =~= spec_encode(*m));
            }
        },
        Message::StateChanged { state } => {
            out.push(2);
            let sb: u8 = match state {
                PlayerState::Playing => 0,
                PlayerState::GameOver => 1,
                PlayerState::Win => 2,
            };
            out.push(sb);
            proof {
                assert(out@ =~= spec_encode(*m));
            }
        },
    }
    out
}

/// Parses one message off the transport channel. Anything malformed is
/// rejected as a whole, so a bad or hostile message is dropped instead of
/// corrupting the match.
pub fn decode_message(bytes: &Vec<u8>) -> (r: Option<Message>)
    ensures
        r.is_some() == spec_decode_ok(bytes@),
        r matches Some(m) ==> message_wf(m) && bytes@ == spec_encode(m),
{
    let b = bytes;
    if b.len() < 1 {
        return None;
    }
    let tag = b[0];
    if tag == 0 {
        if b.len() < 7 {
            return None;
        }
        if b[1] >= 128 || b[2] >= 128 || b[3] >= 4 || b[4] >= 7 {
            return None;
        }
        let nl = b[5] as usize;
        if b.len() < 7 + nl {
            return None;
        }
        let ng = b[6 + nl] as usize;
        if b.len() != 7 + nl + ng {
            return None;
        }
        let mut lines: Vec<u8> = Vec::new();
        let mut i: usize = 0;
        while i < nl
            invariant
                b@ == bytes@,
                b@.len() >= 7 + nl,
                b@[0] == 0,
                nl == b@[5] as int,
                nl <= 255,
                i <= nl,
                lines@.len() == i,
                forall|k: int| 0 <= k < i ==> #[trigger] lines@[k] == b@[6 + k],
                forall|k: int| 0 <= k < i ==> #[trigger] b@[6 + k] < FIELD_MAX_HEIGHT as u8,
                forall|k1: int, k2: int| 0 <= k1 < k2 < i ==> #[trigger] b@[6 + k1] > #[trigger] b@[6 + k2],
            decreases nl - i,
        {
            let v = b[6 + i];
            if v >= FIELD_MAX_HEIGHT as u8 {
                return None;
            }
            if i > 0 && lines[i - 1] <= v {
                return None;
            }
            lines.push(v);
            i += 1;
        }
        let mut holes: Vec<u8> = Vec::new();
        let mut j: usize = 0;
        while j < ng
            invariant
                b@ == bytes@,
                b@.len() == 7 + nl + ng,
                b@[0] == 0,
                nl == b@[5] as int,
                ng == b@[6 + nl] as int,
                nl <= 255,
                ng <= 255,
                j <= ng,
                holes@.len() == j,
                forall|k: int| 0 <= k < j ==> #[trigger] holes@[k] == b@[7 + nl + k],
                forall|k: int| 0 <= k < j ==> #[trigger] b@[7 + nl + k] < FIELD_WIDTH as u8,
            decreases ng - j,
        {
            let h = b[7 + nl + j];
            if h >= FIELD_WIDTH as u8 {
                return None;
            }
            holes.push(h);
            j += 1;
        }
        let mino = Mino {
            pos: crate::position::Position::new((b[1] as i16 - 64) as i8, (b[2] as i16 - 64) as i8),
            angle: if b[3] == 0 {
                Angle::Deg0
            } else if b[3] == 1 {
                Angle::Deg90
            } else if b[3] == 2 {
                Angle::Deg180
            } else {
                Angle::Deg270
            },
            shape: Shape::from_index_u8(b[4]),
        };
        let m = Message::FieldChanged {
            mino,
            clear_lines: Lines(lines),
            garbage_lines: Garbages(holes),
        };
        proof {
            lemma_decoded_field_change(bytes@, m);
        }
        Some(m)
    } else if tag == 1 {
        if b.len() != 2 {
            return None;
        }
        let m = Message::GarbageSent { amount: b[1] };
        proof {
            assert(bytes@ =~= spec_encode(m));
        }
        Some(m)
    } else if tag == 2 {
        if b.len() != 2 || b[1] >= 3 {
            return None;
        }
        let state = if b[1] == 0 {
            PlayerState::Playing
        } else if b[1] == 1 {
            PlayerState::GameOver
        } else {
            PlayerState::Win
        };
        let m = Message::StateChanged { state };
        proof {
            assert(bytes@ =~= spec_encode(m));
        }
        Some(m)
    } else {
        None
    }
}

/// A `FieldChanged` value reassembled from an accepted byte string
/// re-encodes to exactly that byte string.
proof fn lemma_decoded_field_change(b: Seq<u8>, m: Message)
    requires
        spec_decode_ok(b),
        b.len() >= 1 && b[0] == 0,
        m matches Message::FieldChanged { mino, clear_lines, garbage_lines } && {
            &&& mino.pos.x == b[1] - 64
            &&& mino.pos.y == b[2] - 64
            &&& spec_angle_index(mino.angle) == b[3] as int
            &&& spec_shape_index(mino.shape) == b[4] as int
            &&& clear_lines@.len() == b[5] as int
            &&& (forall|k: int|
                0 <= k < clear_lines@.len() ==> #[trigger] clear_lines@[k] == b[6 + k] as int)
            &&& garbage_lines@.len() == b[6 + b[5] as int] as int
            &&& (forall|k: int|
                0 <= k < garbage_lines@.len() ==> #[trigger] garbage_lines@[k] == b[7 + b[5] as int
                    + k] as int)
        },
    ensures
        message_wf(m),
        b == spec_encode(m),
{
    let (mino, clear_lines, garbage_lines) = match m {
        Message::FieldChanged { mino, clear_lines, garbage_lines } => (
            mino,
            clear_lines,
            garbage_lines,
        ),
        _ => arbitrary(),
    };
    let nl = b[5] as int;
    let ng = b[6 + nl] as int;
    assert(message_wf(m));
    let e = spec_encode(m);
    assert(e.len() == 5 + (1 + nl) + (1 + ng));
    assert forall|i: int| 0 <= i < b.len() implies b[i] == e[i] by {
        let head = seq![
            0u8,
            (mino.pos.x + 64) as u8,
            (mino.pos.y + 64) as u8,
            spec_angle_index(mino.angle) as u8,
            spec_shape_index(mino.shape) as u8,
        ];
        let lb = enc_block(clear_lines@);
        let gb = enc_block(garbage_lines@);
        assert(e == head + lb + gb);
        if i < 5 {
            assert(e[i] == head[i]);
        } else if i < 6 + nl {
            assert(e[i] == lb[i - 5]);
            if i >= 6 {
                assert(lb[i - 5] == clear_lines@.map_values(|v: int| v as u8)[i - 6]);
                assert(clear_lines@[i - 6] == b[i] as int);
            }
        } else {
            assert(e[i] == gb[i - 6 - nl]);
            if i >= 7 + nl {
                assert(gb[i - 6 - nl] == garbage_lines@.map_values(|v: int| v as u8)[i - 7 - nl]);
                assert(garbage_lines@[i - 7 - nl] == b[i] as int);
            }
        }
    }
    assert(b =~= e);
}

/// Every well-formed message's encoding is accepted by the decoder.
pub proof fn lemma_encode_decodes(m: Message)
    requires
        message_wf(m),
    ensures
        spec_decode_ok(spec_encode(m)),
{
    match m {
        Message::FieldChanged { mino, clear_lines, garbage_lines } => {
            crate::blocks::lemma_lines_len(clear_lines@);
            let e = spec_encode(m);
            let head = seq![
                0u8,
                (mino.pos.x + 64) as u8,
                (mino.pos.y + 64) as u8,
                spec_angle_index(mino.angle) as u8,
                spec_shape_index(mino.shape) as u8,
            ];
            let lb = enc_block(clear_lines@);
            let gb = enc_block(garbage_lines@);
            let nl = clear_lines@.len() as int;
            let ng = garbage_lines@.len() as int;
            assert(e == head + lb + gb);
            assert(e.len() == 7 + nl + ng);
            assert(e[5] == lb[0] && lb[0] == nl as u8);
            assert(e[6 + nl] == gb[0] && gb[0] == ng as u8);
            assert forall|i: int| 0 <= i < nl implies #[trigger] e[6 + i] < FIELD_MAX_HEIGHT as u8 by {
                assert(e[6 + i] == lb[1 + i]);
                assert(lb[1 + i] == clear_lines@.map_values(|v: int| v as u8)[i]);
            }
            assert forall|i: int, j: int| 0 <= i < j < nl implies #[trigger] e[6 + i] > #[trigger] e[6 + j] by {
                assert(e[6 + i] == clear_lines@.map_values(|v: int| v as u8)[i]);
                assert(e[6 + j] == clear_lines@.map_values(|v: int| v as u8)[j]);
            }
            assert forall|j: int| 0 <= j < ng implies #[trigger] e[7 + nl + j] < FIELD_WIDTH as u8 by {
                assert(e[7 + nl + j] == gb[1 + j]);
                assert(gb[1 + j] == garbage_lines@.map_values(|v: int| v as u8)[j]);
            }
        },
        Message::GarbageSent { amount } => {},
        Message::StateChanged { state } => {},
    }
}


/// Message equality up to the views of the carried lists.
pub open spec fn msg_views_eq(m1: Message, m2: Message) -> bool {
    match (m1, m2) {
        (
            Message::FieldChanged { mino: a, clear_lines: al, garbage_lines: ag },
            Message::FieldChanged { mino: b, clear_lines: bl, garbage_lines: bg },
        ) => a == b && al@ == bl@ && ag@ == bg@,
        (Message::GarbageSent { amount: a }, Message::GarbageSent { amount: b }) => a == b,
        (Message::StateChanged { state: a }, Message::StateChanged { state: b }) => a == b,
        _ => false,
    }
}

/// No two distinct well-formed messages share an encoding. Together with
/// the decoder's contract this makes the decoded message the one that was
/// sent: the protocol round-trips.
#[verifier::rlimit(30)]
pub proof fn lemma_encode_injective(m1: Message, m2: Message)
    requires
        message_wf(m1),
        message_wf(m2),
        spec_encode(m1) == spec_encode(m2),
    ensures
        msg_views_eq(m1, m2),
{
    let e = spec_encode(m1);
    match (m1, m2) {
        (
            Message::FieldChanged { mino: a, clear_lines: al, garbage_lines: ag },
            Message::FieldChanged { mino: b, clear_lines: bl, garbage_lines: bg },
        ) => {
            crate::blocks::lemma_lines_len(al@);
            crate::blocks::lemma_lines_len(bl@);
            let ha = seq![
                0u8,
                (a.pos.x + 64) as u8,
                (a.pos.y + 64) as u8,
                spec_angle_index(a.angle) as u8,
                spec_shape_index(a.shape) as u8,
            ];
            let hb = seq![
                0u8,
                (b.pos.x + 64) as u8,
                (b.pos.y + 64) as u8,
                spec_angle_index(b.angle) as u8,
                spec_shape_index(b.shape) as u8,
            ];
            let la = enc_block(al@);
            let lb = enc_block(bl@);
            let ga = enc_block(ag@);
            let gb = enc_block(bg@);
            assert(e == ha + la + ga && e == hb + lb + gb);
            assert(e[1] == ha[1] && e[1] == hb[1]);
            assert(a.pos.x == b.pos.x);
            assert(e[2] == ha[2] && e[2] == hb[2]);
            assert(a.pos.y == b.pos.y);
            assert(e[3] == ha[3] && e[3] == hb[3]);
            assert(a.angle == b.angle) by {
                assert(spec_angle_index(a.angle) == spec_angle_index(b.angle));
            }
            assert(e[4] == ha[4] && e[4] == hb[4]);
            assert(a.shape == b.shape) by {
                assert(spec_shape_index(a.shape) == spec_shape_index(b.shape));
            }
            assert(e[5] == la[0] && e[5] == lb[0]);
            assert(al@.len() == bl@.len());
            let nl = al@.len() as int;
            assert forall|i: int| 0 <= i < nl implies al@[i] == bl@[i] by {
                assert(e[6 + i] == la[1 + i] && e[6 + i] == lb[1 + i]);
                assert(la[1 + i] == al@.map_values(|v: int| v as u8)[i]);
                assert(lb[1 + i] == bl@.map_values(|v: int| v as u8)[i]);
            }
            assert(al@ =~= bl@);
            assert(e[6 + nl] == ga[0] && e[6 + nl] == gb[0]);
            assert(ag@.len() == bg@.len());
            let ng = ag@.len() as int;
            assert forall|j: int| 0 <= j < ng implies ag@[j] == bg@[j] by {
                assert(e[7 + nl + j] == ga[1 + j] && e[7 + nl + j] == gb[1 + j]);
                assert(ga[1 + j] == ag@.map_values(|v: int| v as u8)[j]);
                assert(gb[1 + j] == bg@.map_values(|v: int| v as u8)[j]);
            }
            assert(ag@ =~= bg@);
        },
        (Message::GarbageSent { amount: a }, Message::GarbageSent { amount: b }) => {
            assert(spec_encode(m1)[1] == a && spec_encode(m2)[1] == b);
        },
        (Message::StateChanged { state: a }, Message::StateChanged { state: b }) => {
            assert(spec_encode(m1)[1] == spec_state_index(a) as u8);
            assert(spec_encode(m2)[1] == spec_state_index(b) as u8);
            assert(spec_state_index(a) == spec_state_index(b));
        },
        _ => {
            assert(e[0] == spec_encode(m1)[0] && e[0] == spec_encode(m2)[0]);
            assert(false);
        },
    }
}

} // verus!
