//! Addressing for a bi-infinite tape stored in one growable sequence.
//!
//! Storage index 0 holds logical position 0; even indices hold the positive
//! positions in increasing order and odd indices hold the negative positions
//! in increasing magnitude, so the storage order of logical positions is
//! `[0, -1, 1, -2, 2, -3, 3, ...]`.

use vstd::prelude::*;

verus! {

/// A head movement requested by a transition rule.
#[derive(Clone, Copy)]
pub enum Movement {
    Left,
    Stop,
    Right,
}

/// The logical (signed) tape position that a storage index encodes: even
/// indices encode positions `0, 1, 2, ...` and odd indices `-1, -2, -3, ...`.
pub open spec fn position_of(index: int) -> int {
    if index % 2 == 0 {
        index / 2
    } else {
        -((index + 1) / 2)
    }
}

/// The storage index that encodes a logical tape position.
pub open spec fn index_of(position: int) -> int {
    if position >= 0 {
        2 * position
    } else {
        -2 * position - 1
    }
}

/// Law: decoding a storage index to its logical position and encoding it
/// again yields the index unchanged.
pub proof fn lemma_index_round_trip(index: int)
    requires
        0 <= index,
    ensures
        index_of(position_of(index)) == index,
{
}

/// Law: every logical position is encoded by a valid (non-negative) storage
/// index, and decoding that index yields the position back.
pub proof fn lemma_position_round_trip(position: int)
    ensures
        0 <= index_of(position),
        position_of(index_of(position)) == position,
{
}

/// The storage index of the logical neighbour reached by a movement, or
/// `None` when the movement is `Stop` and the head does not move.
pub open spec fn spec_resolve(movement: Movement, index: int) -> Option<int> {
    match movement {
        Movement::Left => Some(index_of(position_of(index) - 1)),
        Movement::Stop => None,
        Movement::Right => Some(index_of(position_of(index) + 1)),
    }
}

impl Movement {
    /// Resolves this movement at a storage index: the storage index whose
    /// logical position is one less (`Left`) or one more (`Right`) than the
    /// index's own, or `None` for `Stop`.
    pub fn unsigned_even_odd(self, index: usize) -> (r: Option<usize>)
        requires
            index <= usize::MAX - 2,
        ensures
            match r {
                Some(next) => spec_resolve(self, index as int) == Some(next as int),
                None => spec_resolve(self, index as int) is None,
            },
    {
        Some(
            if index == 0 {
                // Position zero
                match self {
                    Movement::Left => 1,
                    Movement::Right => 2,
                    _ => return None,
                }
            } else if index % 2 == 0 {
                // Even index: positive position
                match self {
                    Movement::Left => index - 2,
                    Movement::Right => index + 2,
                    _ => return None,
                }
            } else if index == 1 {
                // Position minus one
                match self {
                    Movement::Left => 3,
                    Movement::Right => 0,
                    _ => return None,
                }
            } else {
                // Odd index above one: negative position below minus one
                match self {
                    Movement::Left => index + 2,
                    Movement::Right => index - 2,
                    _ => return None,
                }
            },
        )
    }
}

} // verus!
