//! Telling at run time whether a position and a game are well formed.

use vstd::prelude::*;
use crate::bitboard::{single, Bitboard};
use crate::game::Game;
use crate::invariants::EDGE_RANKS;
use crate::legality::before_push;
use crate::position::{Pieces, Position};

verus! {

fn is_single(b: Bitboard) -> (r: bool)
    ensures
        r == single(b.0),
{
    b.0 != 0 && b.0 & (b.0 - 1) == 0
}

impl Pieces {
    /// True when the six boards share no square and `all` is their union.
    pub fn is_sound(&self) -> (r: bool)
        ensures
            r == self.sound(),
    {
        let k = self.king.0;
        let q = self.queen.0;
        let r = self.rook.0;
        let b = self.bishop.0;
        let n = self.knight.0;
        let p = self.pawn.0;
        k & q == 0 && k & r == 0 && k & b == 0 && k & n == 0 && k & p == 0 && q & r == 0 && q & b
            == 0 && q & n == 0 && q & p == 0 && r & b == 0 && r & n == 0 && r & p == 0 && b & n
            == 0 && b & p == 0 && n & p == 0 && self.all.0 == k | q | r | b | n | p
    }
}

impl Position {
    /// True when the twelve boards share no square, the occupancies are the
    /// unions, each side has one king and no pawn stands on rank 1 or 8.
    pub fn is_well_formed(&self) -> (r: bool)
        ensures
            r == self.well_formed(),
    {
        self.white.is_sound() && self.black.is_sound() && self.white.all.0 & self.black.all.0 == 0
            && self.all.0 == self.white.all.0 | self.black.all.0 && is_single(self.white.king)
            && is_single(self.black.king) && self.white.pawn.0 & EDGE_RANKS == 0
            && self.black.pawn.0 & EDGE_RANKS == 0
    }

    /// The position as it was before the pawn behind `target`, seen from
    /// `player`, made its double push over `target`.
    pub fn before_double_push(&self, player: bool, target: Bitboard) -> (r: Position)
        ensures
            r == before_push(*self, player, target.0),
    {
        let behind = if player {
            target.get_bottom_square()
        } else {
            target.get_top_square()
        };
        let origin = if player {
            target.get_top_square()
        } else {
            target.get_bottom_square()
        };
        let other = if player {
            self.black
        } else {
            self.white
        };
        let mut back = other;
        back.pawn = Bitboard((other.pawn.0 & !behind.0) | origin.0);
        back.all = Bitboard((other.all.0 & !behind.0) | origin.0);
        let all = Bitboard((self.all.0 & !behind.0) | origin.0);
        if player {
            Position { all, white: self.white, black: back }
        } else {
            Position { all, white: back, black: self.black }
        }
    }
}

impl Game {
    /// True when the game is well formed: the position is; the side that
    /// just moved is not in check; every castling right has king and rook on
    /// their home squares; and the en-passant target, if there is one, is an
    /// empty square behind which the pawn stands that just made its double
    /// push, before which the side to move was not in check.
    pub fn is_well_formed(&self) -> (r: bool)
        ensures
            r == self@.well_formed(),
    {
        if !self.position.is_well_formed() {
            return false;
        }
        if self.position.is_check(!self.player) {
            return false;
        }
        let white = self.position.white;
        let black = self.position.black;
        let rights = self.possible_castles;
        if rights.white_kingside && !(white.king.0 == 0x0000_0000_0000_0008 && white.rook.0
            & 0x0000_0000_0000_0001 != 0) {
            return false;
        }
        if rights.white_queenside && !(white.king.0 == 0x0000_0000_0000_0008 && white.rook.0
            & 0x0000_0000_0000_0080 != 0) {
            return false;
        }
        if rights.black_kingside && !(black.king.0 == 0x0800_0000_0000_0000 && black.rook.0
            & 0x0100_0000_0000_0000 != 0) {
            return false;
        }
        if rights.black_queenside && !(black.king.0 == 0x0800_0000_0000_0000 && black.rook.0
            & 0x8000_0000_0000_0000 != 0) {
            return false;
        }
        let target = self.en_passant_square;
        if target.is_empty() {
            return true;
        }
        let behind = if self.player {
            target.get_bottom_square()
        } else {
            target.get_top_square()
        };
        let origin = if self.player {
            target.get_top_square()
        } else {
            target.get_bottom_square()
        };
        let pawns = if self.player {
            black.pawn
        } else {
            white.pawn
        };
        is_single(target) && target.0 & self.position.all.0 == 0 && target.0 & EDGE_RANKS == 0 && (
        behind & pawns).0 != 0 && origin.0 & self.position.all.0 == 0
            && !self.position.before_double_push(self.player, target).is_check(self.player)
    }
}

} // verus!
