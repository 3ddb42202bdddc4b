use vstd::prelude::*;
use crate::bitboard::Bitboard;
use crate::piece::{Piece, PromotionPiece};

verus! {

/// The two ways to castle.
#[derive(Clone, Copy, Debug, PartialEq, Eq, Structural)]
pub enum Castle {
    Kingside,
    Queenside,
}

/// One move of one side.
///
/// `player` is true for white. `from_square` and `to_square` hold one square
/// each. `en_passant_square` is the square a pawn passes over in a double
/// push, and empty for every other move.
#[derive(Clone, Copy, Debug, PartialEq, Eq, Structural)]
pub struct Move {
    pub player: bool,
    pub piece: Piece,
    pub from_square: Bitboard,
    pub to_square: Bitboard,
    pub en_passant_square: Bitboard,
    pub is_capturing_en_passant: bool,
    pub is_castling: Option<Castle>,
    pub is_promoting_to: Option<PromotionPiece>,
}

impl Move {
    /// A move of `piece` from `from` to `to` that neither castles nor promotes
    /// nor takes en passant, and leaves no en-passant target behind.
    pub open spec fn plain(player: bool, piece: Piece, from: u64, to: u64) -> Move {
        Move {
            player,
            piece,
            from_square: Bitboard(from),
            to_square: Bitboard(to),
            en_passant_square: Bitboard(0),
            is_capturing_en_passant: false,
            is_castling: None,
            is_promoting_to: None,
        }
    }

    /// A pawn move from `from` to `to` that promotes to `promotion`.
    pub open spec fn promotion(player: bool, from: u64, to: u64, promotion: PromotionPiece) -> Move {
        Move {
            player,
            piece: Piece::Pawn,
            from_square: Bitboard(from),
            to_square: Bitboard(to),
            en_passant_square: Bitboard(0),
            is_capturing_en_passant: false,
            is_castling: None,
            is_promoting_to: Some(promotion),
        }
    }

    /// A pawn's double push from `from` to `to`, passing over `passed`.
    pub open spec fn double_push(player: bool, from: u64, to: u64, passed: u64) -> Move {
        Move {
            player,
            piece: Piece::Pawn,
            from_square: Bitboard(from),
            to_square: Bitboard(to),
            en_passant_square: Bitboard(passed),
            is_capturing_en_passant: false,
            is_castling: None,
            is_promoting_to: None,
        }
    }

    /// A pawn's en-passant capture from `from` to the target square `to`.
    pub open spec fn en_passant(player: bool, from: u64, to: u64) -> Move {
        Move {
            player,
            piece: Piece::Pawn,
            from_square: Bitboard(from),
            to_square: Bitboard(to),
            en_passant_square: Bitboard(0),
            is_capturing_en_passant: true,
            is_castling: None,
            is_promoting_to: None,
        }
    }

    /// The king's part of castling on `side`: from e1 (e8) to g1 or c1 (g8 or c8).
    pub open spec fn castling(player: bool, side: Castle) -> Move {
        Move {
            player,
            piece: Piece::King,
            from_square: Bitboard(
                if player {
                    0x0000_0000_0000_0008
                } else {
                    0x0800_0000_0000_0000
                },
            ),
            to_square: Bitboard(
                match (side, player) {
                    (Castle::Kingside, true) => 0x0000_0000_0000_0002,
                    (Castle::Kingside, false) => 0x0200_0000_0000_0000,
                    (Castle::Queenside, true) => 0x0000_0000_0000_0020,
                    (Castle::Queenside, false) => 0x2000_0000_0000_0000,
                },
            ),
            en_passant_square: Bitboard(0),
            is_capturing_en_passant: false,
            is_castling: Some(side),
            is_promoting_to: None,
        }
    }
}

} // verus!
