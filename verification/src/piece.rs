use vstd::prelude::*;

verus! {

/// The six kinds of chess piece.
#[derive(Clone, Copy, Debug, PartialEq, Eq, Structural)]
pub enum Piece {
    King,
    Queen,
    Rook,
    Bishop,
    Knight,
    Pawn,
}

/// What a move took off the board, if anything. A king is never taken.
#[derive(Clone, Copy, Debug, PartialEq, Eq, Structural)]
pub enum CapturedPiece {
    Queen,
    Rook,
    Bishop,
    Knight,
    Pawn,
    Nothing,
}

/// The kinds of piece a pawn can turn into on the last rank.
#[derive(Clone, Copy, Debug, PartialEq, Eq, Structural)]
pub enum PromotionPiece {
    Queen,
    Rook,
    Bishop,
    Knight,
}

impl PromotionPiece {
    /// The piece kind that stands on the board after the promotion.
    pub open spec fn piece(self) -> Piece {
        match self {
            PromotionPiece::Queen => Piece::Queen,
            PromotionPiece::Rook => Piece::Rook,
            PromotionPiece::Bishop => Piece::Bishop,
            PromotionPiece::Knight => Piece::Knight,
        }
    }
}

} // verus!
