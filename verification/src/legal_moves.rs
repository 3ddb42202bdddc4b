//! The legal moves handed out one at a time, without building the list.
//!
//! The moves come kind by kind: king steps, queens, rooks, bishops, knights,
//! then every pawn's single push, every pawn's captures, every pawn's double
//! push, every en-passant capture, and the two castling moves. After the
//! king steps nothing follows when two pieces give check.

use vstd::prelude::*;
use crate::bitboard::{
    count_squares, lemma_lowest, lemma_lowest_of_empty, lowest_square, without_lowest, Bitboard,
    BitboardIter,
};
use crate::chess_move::{Castle, Move};
use crate::direction::Direction;
use crate::game::Game;
use crate::movegen::{promotion_rank, MoveContext, RANK_1, RANK_8};
use crate::piece::{Piece, PromotionPiece};
use crate::position::{push_squares, Position};

verus! {

/// The kinds of move, in the order in which they are handed out.
#[derive(Clone, Copy, Debug, PartialEq, Eq, Structural)]
pub enum PieceMove {
    King,
    Queen,
    Rook,
    Bishop,
    Knight,
    PawnSingleMove,
    PawnAttack,
    PawnDoubleMove,
    PawnEnPassant,
    KingsideCastle,
    QueensideCastle,
}

impl PieceMove {
    /// The place of this kind in the order.
    pub open spec fn rank(self) -> nat {
        match self {
            PieceMove::King => 0,
            PieceMove::Queen => 1,
            PieceMove::Rook => 2,
            PieceMove::Bishop => 3,
            PieceMove::Knight => 4,
            PieceMove::PawnSingleMove => 5,
            PieceMove::PawnAttack => 6,
            PieceMove::PawnDoubleMove => 7,
            PieceMove::PawnEnPassant => 8,
            PieceMove::KingsideCastle => 9,
            PieceMove::QueensideCastle => 10,
        }
    }

    /// The kind that comes next; the last kind is followed by itself.
    pub open spec fn following(self) -> PieceMove {
        match self {
            PieceMove::King => PieceMove::Queen,
            PieceMove::Queen => PieceMove::Rook,
            PieceMove::Rook => PieceMove::Bishop,
            PieceMove::Bishop => PieceMove::Knight,
            PieceMove::Knight => PieceMove::PawnSingleMove,
            PieceMove::PawnSingleMove => PieceMove::PawnAttack,
            PieceMove::PawnAttack => PieceMove::PawnDoubleMove,
            PieceMove::PawnDoubleMove => PieceMove::PawnEnPassant,
            PieceMove::PawnEnPassant => PieceMove::KingsideCastle,
            PieceMove::KingsideCastle => PieceMove::QueensideCastle,
            PieceMove::QueensideCastle => PieceMove::QueensideCastle,
        }
    }

    /// The piece that makes a move of this kind.
    pub open spec fn piece_kind(self) -> Piece {
        match self {
            PieceMove::King | PieceMove::KingsideCastle | PieceMove::QueensideCastle => Piece::King,
            PieceMove::Queen => Piece::Queen,
            PieceMove::Rook => Piece::Rook,
            PieceMove::Bishop => Piece::Bishop,
            PieceMove::Knight => Piece::Knight,
            PieceMove::PawnSingleMove
            | PieceMove::PawnAttack
            | PieceMove::PawnDoubleMove
            | PieceMove::PawnEnPassant => Piece::Pawn,
        }
    }

    /// The wing on which a move of this kind castles, if it castles.
    pub open spec fn castle_side(self) -> Option<Castle> {
        match self {
            PieceMove::KingsideCastle => Some(Castle::Kingside),
            PieceMove::QueensideCastle => Some(Castle::Queenside),
            _ => None,
        }
    }

    /// True for the kinds of pawn move that can end on the last rank.
    pub open spec fn promotes(self) -> bool {
        self == PieceMove::PawnSingleMove || self == PieceMove::PawnAttack
    }

    /// The piece that makes a move of this kind.
    pub fn piece(self) -> (r: Piece)
        ensures
            r == self.piece_kind(),
    {
        match self {
            PieceMove::King | PieceMove::KingsideCastle | PieceMove::QueensideCastle => Piece::King,
            PieceMove::Queen => Piece::Queen,
            PieceMove::Rook => Piece::Rook,
            PieceMove::Bishop => Piece::Bishop,
            PieceMove::Knight => Piece::Knight,
            PieceMove::PawnSingleMove
            | PieceMove::PawnAttack
            | PieceMove::PawnDoubleMove
            | PieceMove::PawnEnPassant => Piece::Pawn,
        }
    }

    /// The wing on which a move of this kind castles, if it castles.
    pub fn castle(self) -> (r: Option<Castle>)
        ensures
            r == self.castle_side(),
    {
        match self {
            PieceMove::KingsideCastle => Some(Castle::Kingside),
            PieceMove::QueensideCastle => Some(Castle::Queenside),
            _ => None,
        }
    }
}

/// Joining three lists gives the same whichever two are joined first.
pub proof fn lemma_concat_assoc(a: Seq<Move>, b: Seq<Move>, c: Seq<Move>)
    ensures
        (a + b) + c == a + (b + c),
{
    assert((a + b) + c =~= a + (b + c));
}

/// The promotions that follow `last` in the order queen, rook, bishop,
/// knight, as moves from `from` to `to`.
pub open spec fn promotions_after(player: bool, from: u64, to: u64, last: PromotionPiece) -> Seq<
    Move,
> {
    match last {
        PromotionPiece::Queen => seq![
            Move::promotion(player, from, to, PromotionPiece::Rook),
            Move::promotion(player, from, to, PromotionPiece::Bishop),
            Move::promotion(player, from, to, PromotionPiece::Knight),
        ],
        PromotionPiece::Rook => seq![
            Move::promotion(player, from, to, PromotionPiece::Bishop),
            Move::promotion(player, from, to, PromotionPiece::Knight),
        ],
        PromotionPiece::Bishop => seq![Move::promotion(player, from, to, PromotionPiece::Knight)],
        PromotionPiece::Knight => Seq::empty(),
    }
}

impl MoveContext {
    /// The move of the given kind from `from` to `to` that does not promote.
    pub open spec fn move_for(self, kind: PieceMove, from: u64, to: u64) -> Move {
        match kind {
            PieceMove::PawnDoubleMove => Move::double_push(
                self.player,
                from,
                to,
                Position::behind(self.player, to),
            ),
            PieceMove::PawnEnPassant => Move::en_passant(self.player, from, to),
            PieceMove::KingsideCastle => Move::castling(self.player, Castle::Kingside),
            PieceMove::QueensideCastle => Move::castling(self.player, Castle::Queenside),
            _ => Move::plain(self.player, kind.piece_kind(), from, to),
        }
    }

    /// The moves of the given kind from `from` to the one square `to`: the
    /// four promotions for a pawn that reaches the last rank, one move
    /// otherwise.
    pub open spec fn moves_to_square(self, kind: PieceMove, from: u64, to: u64) -> Seq<Move> {
        if kind.promotes() && to & promotion_rank(self.player) != 0 {
            seq![Move::promotion(self.player, from, to, PromotionPiece::Queen)] + promotions_after(
                self.player,
                from,
                to,
                PromotionPiece::Queen,
            )
        } else {
            seq![self.move_for(kind, from, to)]
        }
    }

    /// The moves of the given kind from `from` to every square of `targets`,
    /// lowest bit index first. An en-passant target is one square and is
    /// taken whole.
    pub open spec fn moves_from(self, kind: PieceMove, from: u64, targets: u64) -> Seq<Move>
        decreases targets,
    {
        if targets == 0 {
            Seq::empty()
        } else if kind == PieceMove::PawnEnPassant {
            seq![self.move_for(kind, from, targets)]
        } else {
            proof {
                lemma_lowest(targets);
            }
            self.moves_to_square(kind, from, lowest_square(targets)) + self.moves_from(
                kind,
                from,
                without_lowest(targets),
            )
        }
    }

    /// Where the piece on `from` may go by a move of the given kind. Empty
    /// for the king's kinds, whose squares do not hang on a walk over pieces.
    pub open spec fn kind_targets(self, kind: PieceMove, from: u64) -> u64 {
        match kind {
            PieceMove::Queen => self.queen_targets(from),
            PieceMove::Rook => self.rook_targets(from),
            PieceMove::Bishop => self.bishop_targets(from),
            PieceMove::Knight => self.knight_targets(from),
            PieceMove::PawnSingleMove => self.pawn_single_target(from),
            PieceMove::PawnAttack => self.pawn_attack_targets(from),
            PieceMove::PawnDoubleMove => self.pawn_double_target(from),
            PieceMove::PawnEnPassant => self.pawn_en_passant_target(from),
            _ => 0,
        }
    }

    /// The pieces that make moves of the given kind, one after the other.
    /// Empty for the king's kinds.
    pub open spec fn kind_pieces(self, kind: PieceMove) -> u64 {
        let own = self.position.side(self.player);
        match kind {
            PieceMove::Queen => own.queen.0,
            PieceMove::Rook => own.rook.0,
            PieceMove::Bishop => own.bishop.0,
            PieceMove::Knight => own.knight.0,
            PieceMove::PawnSingleMove
            | PieceMove::PawnAttack
            | PieceMove::PawnDoubleMove
            | PieceMove::PawnEnPassant => own.pawn.0,
            _ => 0,
        }
    }

    /// The king's squares for the given kind: its steps, or where it lands
    /// in castling. Empty for the kinds of the other pieces.
    pub open spec fn kind_king_targets(self, kind: PieceMove) -> u64 {
        match kind {
            PieceMove::King => self.king_targets(),
            PieceMove::KingsideCastle => self.kingside_castle_target(),
            PieceMove::QueensideCastle => self.queenside_castle_target(),
            _ => 0,
        }
    }

    /// The moves of the given kind of every piece on `pieces`, piece by
    /// piece, lowest bit index first.
    pub open spec fn moves_of_pieces(self, kind: PieceMove, pieces: u64) -> Seq<Move>
        decreases pieces,
    {
        if pieces == 0 {
            Seq::empty()
        } else {
            proof {
                lemma_lowest(pieces);
            }
            self.moves_from(
                kind,
                lowest_square(pieces),
                self.kind_targets(kind, lowest_square(pieces)),
            ) + self.moves_of_pieces(kind, without_lowest(pieces))
        }
    }

    /// All moves of the given kind.
    pub open spec fn moves_of_kind(self, kind: PieceMove) -> Seq<Move> {
        self.moves_from(kind, self.king.0, self.kind_king_targets(kind)) + self.moves_of_pieces(
            kind,
            self.kind_pieces(kind),
        )
    }

    /// All moves of the kinds that come after the given one. Nothing comes
    /// after the king's steps when two pieces give check.
    pub open spec fn moves_after(self, kind: PieceMove) -> Seq<Move>
        decreases 10 - kind.rank(),
    {
        if kind == PieceMove::QueensideCastle || (kind == PieceMove::King && count_squares(
            self.attackers.0,
        ) > 1) {
            Seq::empty()
        } else {
            self.moves_of_kind(kind.following()) + self.moves_after(kind.following())
        }
    }

    /// All legal moves, in the order in which `LegalMoves` hands them out.
    pub open spec fn lazy_moves(self) -> Seq<Move> {
        self.moves_of_kind(PieceMove::King) + self.moves_after(PieceMove::King)
    }
}

/// A walk over the legal moves of the side to move.
///
/// `kind` is the kind of move being handed out, `pieces` the pieces of that
/// kind still to come, `current_from` the piece being moved and
/// `current_moves` the squares it has still to go to. While a promotion is
/// being spelled out, `last_promotion` is the piece handed out last, and the
/// lowest square of `current_moves` is the promotion square.
#[derive(Clone, Copy, Debug)]
pub struct LegalMoves {
    pub context: MoveContext,
    pub kind: PieceMove,
    pub pieces: BitboardIter,
    pub current_from: Bitboard,
    pub current_moves: Bitboard,
    pub last_promotion: Option<PromotionPiece>,
    pub finished: bool,
}

impl View for LegalMoves {
    type V = Seq<Move>;

    /// The moves still to come, in the order in which they will come.
    open spec fn view(&self) -> Seq<Move> {
        if self.finished {
            Seq::empty()
        } else {
            self.pending() + self.later()
        }
    }
}

impl LegalMoves {
    /// The moves of the piece being moved that are still to come.
    pub open spec fn pending(self) -> Seq<Move> {
        match self.last_promotion {
            Some(last) => promotions_after(
                self.context.player,
                self.current_from.0,
                lowest_square(self.current_moves.0),
                last,
            ) + self.context.moves_from(
                self.kind,
                self.current_from.0,
                without_lowest(self.current_moves.0),
            ),
            None => self.context.moves_from(self.kind, self.current_from.0, self.current_moves.0),
        }
    }

    /// The moves of the pieces still to come: those of the current kind,
    /// then the kinds that follow.
    pub open spec fn later(self) -> Seq<Move> {
        self.context.moves_of_pieces(self.kind, self.pieces.n) + self.context.moves_after(
            self.kind,
        )
    }

    /// Starts the walk over the legal moves of the side to move in `game`.
    pub fn new(game: &Game) -> (r: LegalMoves)
        ensures
            r@ == MoveContext::of(
                game.position,
                game.player,
                game.en_passant_square,
                game.possible_castles,
            ).lazy_moves(),
            r.context == MoveContext::of(
                game.position,
                game.player,
                game.en_passant_square,
                game.possible_castles,
            ),
    {
        let context = MoveContext::new(
            game.position,
            game.player,
            game.en_passant_square,
            game.possible_castles,
        );
        let king_moves = context.king_moves();
        let walk = LegalMoves {
            context,
            kind: PieceMove::King,
            pieces: Bitboard::empty().into_iter(),
            current_from: context.king,
            current_moves: king_moves,
            last_promotion: None,
            finished: false,
        };
        assert(walk@ =~= context.lazy_moves());
        walk
    }

    /// The squares strictly between `square` and the nearest of `attackers`
    /// in the given direction; empty when there is none in that direction.
    pub fn get_push_squares_in_direction(
        &self,
        square: Bitboard,
        attackers: Bitboard,
        direction: Direction,
    ) -> (r: Bitboard)
        ensures
            r.0 == push_squares(square.0, attackers.0, direction),
    {
        self.context.position.get_push_squares_in_direction(square, attackers, direction)
    }

    fn targets_of(&self, from_square: Bitboard) -> (r: Bitboard)
        ensures
            r.0 == self.context.kind_targets(self.kind, from_square.0),
    {
        match self.kind {
            PieceMove::Queen => self.context.queen_moves(from_square),
            PieceMove::Rook => self.context.rook_moves(from_square),
            PieceMove::Bishop => self.context.bishop_moves(from_square),
            PieceMove::Knight => self.context.knight_moves(from_square),
            PieceMove::PawnSingleMove => self.context.pawn_single_moves(from_square),
            PieceMove::PawnAttack => self.context.pawn_attack_moves(from_square),
            PieceMove::PawnDoubleMove => self.context.pawn_double_moves(from_square),
            PieceMove::PawnEnPassant => self.context.pawn_en_passant_moves(from_square),
            _ => Bitboard::empty(),
        }
    }

    /// Turns to the kind of move that follows the current one, or ends the
    /// walk. Called when the current kind has nothing left.
    fn select_next_kind(&mut self)
        requires
            !old(self).finished,
            old(self).last_promotion.is_none(),
            old(self).current_moves.0 == 0,
            old(self).pieces.n == 0,
        ensures
            final(self)@ == old(self)@,
            final(self).context == old(self).context,
            final(self).last_promotion.is_none(),
            final(self).finished || final(self).kind.rank() > old(self).kind.rank(),
    {
        let own = if self.context.player {
            self.context.position.white
        } else {
            self.context.position.black
        };
        let ghost before = *self;
        assert(self.context.moves_from(self.kind, self.current_from.0, 0) =~= Seq::empty());
        assert(self.context.moves_of_pieces(self.kind, 0) =~= Seq::empty());
        assert(before@ =~= self.context.moves_after(self.kind));
        let next = match self.kind {
            PieceMove::King => {
                if self.context.attackers.count_ones() > 1 {
                    // Two pieces give check: only the king can move.
                    self.finished = true;
                    return ;
                }
                PieceMove::Queen
            },
            PieceMove::Queen => PieceMove::Rook,
            PieceMove::Rook => PieceMove::Bishop,
            PieceMove::Bishop => PieceMove::Knight,
            PieceMove::Knight => PieceMove::PawnSingleMove,
            PieceMove::PawnSingleMove => PieceMove::PawnAttack,
            PieceMove::PawnAttack => PieceMove::PawnDoubleMove,
            PieceMove::PawnDoubleMove => PieceMove::PawnEnPassant,
            PieceMove::PawnEnPassant => PieceMove::KingsideCastle,
            PieceMove::KingsideCastle => PieceMove::QueensideCastle,
            PieceMove::QueensideCastle => {
                self.finished = true;
                return ;
            },
        };
        let pieces = match next {
            PieceMove::Queen => own.queen,
            PieceMove::Rook => own.rook,
            PieceMove::Bishop => own.bishop,
            PieceMove::Knight => own.knight,
            PieceMove::PawnSingleMove
            | PieceMove::PawnAttack
            | PieceMove::PawnDoubleMove
            | PieceMove::PawnEnPassant => own.pawn,
            _ => Bitboard::empty(),
        };
        let king_moves = match next {
            PieceMove::KingsideCastle => self.context.kingside_castle_moves(),
            PieceMove::QueensideCastle => self.context.queenside_castle_moves(),
            _ => Bitboard::empty(),
        };
        self.kind = next;
        self.pieces = pieces.into_iter();
        self.current_from = self.context.king;
        self.current_moves = king_moves;
        assert(self@ =~= self.context.moves_of_kind(next) + self.context.moves_after(next));
    }

    /// Goes on with a promotion that is being spelled out: hands out the
    /// piece after the last one, or finds that the knight was the last.
    fn step_promotion(&mut self, last: PromotionPiece) -> (r: Option<Move>)
        requires
            !old(self).finished,
            old(self).last_promotion == Some(last),
        ensures
            match r {
                Some(m) => old(self)@ == seq![m] + final(self)@,
                None => old(self)@ == final(self)@ && final(self).last_promotion.is_none(),
            },
            final(self).context == old(self).context,
            final(self).kind == old(self).kind,
            final(self).pieces == old(self).pieces,
            !final(self).finished,
    {
        let player = self.context.player;
        let from_square = self.current_from;
        let targets: u64 = self.current_moves.0;
        let ghost before = *self;
        proof {
            lemma_lowest_of_empty();
            if targets != 0 {
                lemma_lowest(targets);
            }
        }
        let to_square = if targets == 0 {
            Bitboard::empty()
        } else {
            Bitboard::new(targets & !(targets - 1))
        };
        let rest = if targets == 0 {
            Bitboard::empty()
        } else {
            Bitboard::new(targets & (targets - 1))
        };
        let promotion = match last {
            PromotionPiece::Queen => PromotionPiece::Rook,
            PromotionPiece::Rook => PromotionPiece::Bishop,
            PromotionPiece::Bishop => PromotionPiece::Knight,
            PromotionPiece::Knight => {
                self.last_promotion = None;
                self.current_moves = rest;
                assert(self.later() == before.later());
                assert(self.pending() =~= before.pending());
                return None;
            },
        };
        if promotion == PromotionPiece::Knight {
            self.last_promotion = None;
            self.current_moves = rest;
        } else {
            self.last_promotion = Some(promotion);
        }
        let m = Move {
            player,
            piece: Piece::Pawn,
            from_square,
            to_square,
            en_passant_square: Bitboard::empty(),
            is_capturing_en_passant: false,
            is_castling: None,
            is_promoting_to: Some(promotion),
        };
        proof {
            assert(self.later() == before.later());
            assert(before.pending() =~= seq![m] + self.pending());
            lemma_concat_assoc(seq![m], self.pending(), self.later());
        }
        Some(m)
    }

    /// Hands out the move of the current piece to the lowest of the squares
    /// it has still to go to; for a pawn reaching the last rank, the queen
    /// promotion, with the other three left to come.
    fn step_move(&mut self) -> (m: Move)
        requires
            !old(self).finished,
            old(self).last_promotion.is_none(),
            old(self).current_moves.0 != 0,
        ensures
            old(self)@ == seq![m] + final(self)@,
            final(self).context == old(self).context,
    {
        let player = self.context.player;
        let from_square = self.current_from;
        let targets: u64 = self.current_moves.0;
        let ghost before = *self;
        proof {
            lemma_lowest(targets);
        }
        let whole = self.kind == PieceMove::PawnEnPassant;
        let to_square = if whole {
            self.current_moves
        } else {
            Bitboard::new(targets & !(targets - 1))
        };
        let rest = if whole {
            Bitboard::empty()
        } else {
            Bitboard::new(targets & (targets - 1))
        };
        let is_pawn = self.kind == PieceMove::PawnSingleMove || self.kind == PieceMove::PawnAttack;
        let promotion_squares = if player {
            Bitboard::new(RANK_8)
        } else {
            Bitboard::new(RANK_1)
        };
        let will_promote = !(to_square & promotion_squares).is_empty();
        let m = if is_pawn && will_promote {
            self.last_promotion = Some(PromotionPiece::Queen);
            Move {
                player,
                piece: Piece::Pawn,
                from_square,
                to_square,
                en_passant_square: Bitboard::empty(),
                is_capturing_en_passant: false,
                is_castling: None,
                is_promoting_to: Some(PromotionPiece::Queen),
            }
        } else {
            self.current_moves = rest;
            match self.kind.castle() {
                Some(side) => self.context.castle_move(side),
                None => Move {
                    player,
                    piece: self.kind.piece(),
                    from_square,
                    to_square,
                    en_passant_square: match (self.kind, player) {
                        (PieceMove::PawnDoubleMove, true) => to_square.get_bottom_square(),
                        (PieceMove::PawnDoubleMove, false) => to_square.get_top_square(),
                        _ => Bitboard::empty(),
                    },
                    is_capturing_en_passant: self.kind == PieceMove::PawnEnPassant,
                    is_castling: None,
                    is_promoting_to: None,
                },
            }
        };
        assert(self.later() == before.later());
        assert(before.context.moves_from(before.kind, from_square.0, 0) =~= Seq::empty());
        assert(before.context.moves_from(before.kind, from_square.0, targets)
            =~= before.context.moves_to_square(before.kind, from_square.0, to_square.0)
            + before.context.moves_from(before.kind, from_square.0, rest.0));
        assert(before.pending() =~= seq![m] + self.pending());
        proof {
            lemma_concat_assoc(seq![m], self.pending(), self.later());
        }
        m
    }

    /// Turns to the next piece of the current kind.
    fn step_piece(&mut self)
        requires
            !old(self).finished,
            old(self).last_promotion.is_none(),
            old(self).current_moves.0 == 0,
            old(self).pieces.n != 0,
        ensures
            final(self)@ == old(self)@,
            final(self).context == old(self).context,
            final(self).kind == old(self).kind,
            final(self).pieces.n < old(self).pieces.n,
            !final(self).finished,
    {
        let ghost before = *self;
        proof {
            lemma_lowest(self.pieces.n);
        }
        match self.pieces.next() {
            Some(from_square) => {
                self.current_from = from_square;
                self.current_moves = self.targets_of(from_square);
                assert(before.pending() =~= Seq::empty());
                assert(before.context.moves_of_pieces(before.kind, before.pieces.n)
                    == self.pending() + self.context.moves_of_pieces(self.kind, self.pieces.n));
                proof {
                    lemma_concat_assoc(
                        self.pending(),
                        self.context.moves_of_pieces(self.kind, self.pieces.n),
                        self.context.moves_after(self.kind),
                    );
                }
                assert(before@ =~= before.later());
            },
            None => {},
        }
    }

    /// Hands out the next legal move, or `None` when there is none left.
    pub fn next(&mut self) -> (r: Option<Move>)
        ensures
            match r {
                Some(m) => old(self)@ == seq![m] + final(self)@,
                None => old(self)@ == Seq::<Move>::empty() && final(self)@ == Seq::<Move>::empty(),
            },
            final(self).context == old(self).context,
    {
        loop
            invariant
                self@ == old(self)@,
                self.context == old(self).context,
            decreases
                    (if self.finished {
                        0nat
                    } else {
                        1nat
                    }),
                    10 - self.kind.rank(),
                    self.pieces.n,
                    (if self.last_promotion.is_some() {
                        1nat
                    } else {
                        0nat
                    }),
        {
            if self.finished {
                return None;
            }
            match self.last_promotion {
                Some(last) => {
                    match self.step_promotion(last) {
                        Some(m) => {
                            return Some(m);
                        },
                        None => {},
                    }
                },
                None => {
                    if !self.current_moves.is_empty() {
                        return Some(self.step_move());
                    } else if self.pieces.n != 0 {
                        self.step_piece();
                    } else {
                        self.select_next_kind();
                    }
                },
            }
        }
    }
}

} // verus!
