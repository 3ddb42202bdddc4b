//! Tables that are worked out once: for every square, where a king and
//! where a knight standing there can go on an empty board.

use std::collections::HashMap;
use vstd::prelude::*;
use crate::bitboard::{king_span, knight_span, Bitboard};

verus! {

broadcast use vstd::std_specs::hash::group_hash_axioms;

/// The one-square set with bit index `i`.
pub open spec fn square(i: u64) -> u64 {
    1u64 << i
}

/// A table from boards to values.
#[derive(Debug)]
pub struct BitboardMap<V> {
    m: HashMap<u64, V>,
}

impl<V> View for BitboardMap<V> {
    type V = Map<u64, V>;

    /// The table as a map from the bits of a board to the value kept for it.
    closed spec fn view(&self) -> Map<u64, V> {
        self.m@
    }
}

impl<V> BitboardMap<V> {
    /// The table without any entry.
    pub fn new() -> (r: BitboardMap<V>)
        ensures
            r@ == Map::<u64, V>::empty(),
    {
        BitboardMap { m: HashMap::new() }
    }

    /// The value kept for `key`.
    pub fn get(&self, key: Bitboard) -> (r: &V)
        requires
            self@.contains_key(key.0),
        ensures
            *r == self@[key.0],
    {
        let bits: u64 = key.0;
        match self.m.get(&bits) {
            Some(value) => value,
            None => vstd::pervasive::unreached(),
        }
    }

    /// Keeps `value` for `key`, in place of what was kept for it before.
    pub fn set(&mut self, key: Bitboard, value: V)
        ensures
            final(self)@ == old(self)@.insert(key.0, value),
    {
        self.m.insert(key.0, value);
    }
}

/// The tables of king moves and of knight moves.
#[derive(Debug)]
pub struct Constants {
    pub king_moves: BitboardMap<Bitboard>,
    pub knight_moves: BitboardMap<Bitboard>,
}

impl Constants {
    /// The tables hold, for the squares with bit index below `n` and for no
    /// other board, where a king and a knight on that square can go.
    pub open spec fn filled_to(self, n: u64) -> bool {
        &&& forall|i: u64|
            i < n ==> self.king_moves@.contains_key(#[trigger] square(i))
                && self.king_moves@[square(i)].0 == king_span(square(i))
        &&& forall|i: u64|
            i < n ==> self.knight_moves@.contains_key(#[trigger] square(i))
                && self.knight_moves@[square(i)].0 == knight_span(square(i))
        &&& forall|k: u64|
            self.king_moves@.contains_key(k) ==> exists|i: u64| i < n && k == #[trigger] square(i)
        &&& forall|k: u64|
            self.knight_moves@.contains_key(k) ==> exists|i: u64|
                i < n && k == #[trigger] square(i)
    }
}

/// Works out the tables: an entry for each of the 64 squares, and no other.
pub fn get() -> (r: Constants)
    ensures
        r.filled_to(64),
{
    let mut tables = Constants { king_moves: BitboardMap::new(), knight_moves: BitboardMap::new() };
    let mut rank: u64 = 0;
    while rank < 8
        invariant
            rank <= 8,
            tables.filled_to((8 * rank) as u64),
        decreases 8 - rank,
    {
        let mut file: u64 = 0;
        while file < 8
            invariant
                rank < 8,
                file <= 8,
                tables.filled_to((8 * rank + file) as u64),
            decreases 8 - file,
        {
            let index: u64 = 8 * rank + file;
            let square = Bitboard::new(1u64 << index);
            let ghost before = tables;
            tables.king_moves.set(square, square.king_moves());
            tables.knight_moves.set(square, square.knight_moves());
            proof {
                assert(square.0 == self::square(index));
                assert forall|k: u64| tables.king_moves@.contains_key(k) implies exists|i: u64|
                    i < index + 1 && k == #[trigger] self::square(i) by {
                    if k != self::square(index) {
                        assert(before.king_moves@.contains_key(k));
                    }
                }
                assert forall|k: u64| tables.knight_moves@.contains_key(k) implies exists|i: u64|
                    i < index + 1 && k == #[trigger] self::square(i) by {
                    if k != self::square(index) {
                        assert(before.knight_moves@.contains_key(k));
                    }
                }
            }
            file = file + 1;
        }
        rank = rank + 1;
    }
    tables
}

} // verus!
