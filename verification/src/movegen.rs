//! Everything the move generator derives from a position before it lists
//! moves: whose pieces are where, what is attacked, who gives check, which
//! squares answer a check, and from these the squares each piece may go to.

use vstd::prelude::*;
use crate::bitboard::{
    count_squares, king_span, knight_span, lemma_lowest, lemma_within_end, lemma_within_first,
    lemma_within_step, lowest_square, shift, shift_bottom, shift_left, shift_right, shift_top,
    within, without_lowest, Bitboard, ALL_SQUARES,
};
use crate::chess_move::{Castle, Move};
use crate::direction::Direction;
use crate::piece::{Piece, PromotionPiece};
use crate::position::{castle_king_to, pinned_squares, push_squares, Position};

verus! {

/// Rank 8, where white pawns promote.
pub const RANK_8: u64 = 0xFF00_0000_0000_0000;

/// Rank 1, where black pawns promote.
pub const RANK_1: u64 = 0x0000_0000_0000_00FF;

/// Rank 3, which a white pawn crosses in a double push.
pub const RANK_3: u64 = 0x0000_0000_00FF_0000;

/// Rank 6, which a black pawn crosses in a double push.
pub const RANK_6: u64 = 0x0000_FF00_0000_0000;

/// Walking from `running` in direction `d` for at most `n` steps: `acc` with
/// the empty squares passed and, if the first piece met is an enemy, its
/// square.
pub open spec fn slide(all: u64, enemy: u64, acc: u64, running: u64, d: Direction, n: nat) -> u64
    decreases n,
{
    if n == 0 || running == 0 {
        acc
    } else if all & running == 0 {
        slide(all, enemy, acc | running, shift(running, d), d, (n - 1) as nat)
    } else if enemy & running != 0 {
        acc | running
    } else {
        acc
    }
}

/// Where a slider on `sq` can go in direction `d`: the empty squares up to
/// the first piece, and that piece's square if it is an enemy.
pub open spec fn moves_on_ray(all: u64, enemy: u64, sq: u64, d: Direction) -> u64 {
    slide(all, enemy, 0, shift(sq, d), d, 7)
}

/// Where a rook on `sq` can go.
pub open spec fn rank_and_file_moves(all: u64, enemy: u64, sq: u64) -> u64 {
    moves_on_ray(all, enemy, sq, Direction::Top) | moves_on_ray(all, enemy, sq, Direction::Bottom)
        | moves_on_ray(all, enemy, sq, Direction::Left) | moves_on_ray(
        all,
        enemy,
        sq,
        Direction::Right,
    )
}

/// Where a bishop on `sq` can go.
pub open spec fn diagonal_moves(all: u64, enemy: u64, sq: u64) -> u64 {
    moves_on_ray(all, enemy, sq, Direction::TopLeft) | moves_on_ray(
        all,
        enemy,
        sq,
        Direction::TopRight,
    ) | moves_on_ray(all, enemy, sq, Direction::BottomLeft) | moves_on_ray(
        all,
        enemy,
        sq,
        Direction::BottomRight,
    )
}

/// The squares strictly between the king and the checking piece, whatever
/// the direction in which it stands.
pub open spec fn blocking_squares(king: u64, attackers: u64) -> u64 {
    push_squares(king, attackers, Direction::Top) | push_squares(king, attackers, Direction::Bottom)
        | push_squares(king, attackers, Direction::Left) | push_squares(
        king,
        attackers,
        Direction::Right,
    ) | push_squares(king, attackers, Direction::TopLeft) | push_squares(
        king,
        attackers,
        Direction::TopRight,
    ) | push_squares(king, attackers, Direction::BottomLeft) | push_squares(
        king,
        attackers,
        Direction::BottomRight,
    )
}

/// The rank on which the pawns of `player` promote.
pub open spec fn promotion_rank(player: bool) -> u64 {
    if player {
        RANK_8
    } else {
        RANK_1
    }
}

/// One plain move of `piece` from `from` to each square of `targets`, lowest
/// bit index first.
pub open spec fn plain_moves(player: bool, piece: Piece, from: u64, targets: u64) -> Seq<Move>
    decreases targets,
{
    if targets == 0 {
        Seq::empty()
    } else {
        proof {
            lemma_lowest(targets);
        }
        seq![Move::plain(player, piece, from, lowest_square(targets))] + plain_moves(
            player,
            piece,
            from,
            without_lowest(targets),
        )
    }
}

/// The moves of a pawn from `from` to `to`: none if `to` is empty, the four
/// promotions (queen, rook, bishop, knight) if `to` is on the promotion rank,
/// and one plain move otherwise.
pub open spec fn pawn_step_moves(player: bool, from: u64, to: u64) -> Seq<Move> {
    if to == 0 {
        Seq::empty()
    } else if to & promotion_rank(player) != 0 {
        seq![
            Move::promotion(player, from, to, PromotionPiece::Queen),
            Move::promotion(player, from, to, PromotionPiece::Rook),
            Move::promotion(player, from, to, PromotionPiece::Bishop),
            Move::promotion(player, from, to, PromotionPiece::Knight),
        ]
    } else {
        seq![Move::plain(player, Piece::Pawn, from, to)]
    }
}

/// The four castling rights.
#[derive(Clone, Copy, Debug, PartialEq, Eq, Structural)]
pub struct PossibleCastles {
    pub white_kingside: bool,
    pub white_queenside: bool,
    pub black_kingside: bool,
    pub black_queenside: bool,
}

/// A position seen from the side that is to move, with everything the
/// generator needs to know before it looks at single pieces.
///
/// `attackers` are the enemy pieces that give check. With exactly one of
/// them, `capture_mask` is its square and `push_mask` holds the squares
/// between it and the king (none for a knight or a pawn); otherwise both
/// masks hold every square.
#[derive(Clone, Copy, Debug, PartialEq, Eq, Structural)]
pub struct MoveContext {
    pub player: bool,
    pub position: Position,
    pub en_passant_square: Bitboard,
    pub possible_castles: PossibleCastles,
    pub friendly_pieces: Bitboard,
    pub enemy_pieces: Bitboard,
    pub empty_squares: Bitboard,
    pub attacked_squares: Bitboard,
    pub attackers: Bitboard,
    pub capture_mask: Bitboard,
    pub push_mask: Bitboard,
    pub capture_or_push_mask: Bitboard,
    pub king: Bitboard,
    pub enemy_queens_and_rooks: Bitboard,
    pub enemy_queens_and_bishops: Bitboard,
}

impl MoveContext {
    /// The context of `player` in `position`, with the given en-passant
    /// target and castling rights.
    #[verifier::opaque]
    pub open spec fn of(
        position: Position,
        player: bool,
        en_passant_square: Bitboard,
        possible_castles: PossibleCastles,
    ) -> MoveContext {
        let own = position.side(player);
        let enemy = position.side(!player);
        let attackers = position.attackers_of(!player, own.king.0);
        let single_check = count_squares(attackers) == 1;
        let capture_mask = if single_check {
            attackers
        } else {
            ALL_SQUARES
        };
        let push_mask = if single_check {
            if attackers & enemy.knight.0 != 0 || attackers & enemy.pawn.0 != 0 {
                0
            } else {
                blocking_squares(own.king.0, attackers)
            }
        } else {
            ALL_SQUARES
        };
        MoveContext {
            player,
            position,
            en_passant_square,
            possible_castles,
            friendly_pieces: own.all,
            enemy_pieces: enemy.all,
            empty_squares: Bitboard(ALL_SQUARES ^ position.all.0),
            attacked_squares: Bitboard(position.attacked_by(!player)),
            attackers: Bitboard(attackers),
            capture_mask: Bitboard(capture_mask),
            push_mask: Bitboard(push_mask),
            capture_or_push_mask: Bitboard(capture_mask | push_mask),
            king: own.king,
            enemy_queens_and_rooks: Bitboard(enemy.queen.0 | enemy.rook.0),
            enemy_queens_and_bishops: Bitboard(enemy.queen.0 | enemy.bishop.0),
        }
    }

    /// Where the piece on `from` may go without uncovering the king.
    #[verifier::opaque]
    pub open spec fn pin(self, from: u64) -> u64 {
        pinned_squares(
            self.position.all.0,
            from,
            self.king.0,
            self.enemy_queens_and_rooks.0,
            self.enemy_queens_and_bishops.0,
        )
    }

    /// The squares next to the king that are neither attacked nor held by a
    /// piece of its own side.
    pub open spec fn king_targets(self) -> u64 {
        let free = king_span(self.king.0) & (ALL_SQUARES ^ self.attacked_squares.0);
        free ^ (free & self.friendly_pieces.0)
    }

    /// Where the queen on `from` may go.
    #[verifier::opaque]
    pub open spec fn queen_targets(self, from: u64) -> u64 {
        self.capture_or_push_mask.0 & (rank_and_file_moves(
            self.position.all.0,
            self.enemy_pieces.0,
            from,
        ) | diagonal_moves(self.position.all.0, self.enemy_pieces.0, from)) & self.pin(from)
    }

    /// Where the rook on `from` may go.
    #[verifier::opaque]
    pub open spec fn rook_targets(self, from: u64) -> u64 {
        self.capture_or_push_mask.0 & rank_and_file_moves(
            self.position.all.0,
            self.enemy_pieces.0,
            from,
        ) & self.pin(from)
    }

    /// Where the bishop on `from` may go.
    #[verifier::opaque]
    pub open spec fn bishop_targets(self, from: u64) -> u64 {
        self.capture_or_push_mask.0 & diagonal_moves(
            self.position.all.0,
            self.enemy_pieces.0,
            from,
        ) & self.pin(from)
    }

    /// Where the knight on `from` may go.
    pub open spec fn knight_targets(self, from: u64) -> u64 {
        self.capture_or_push_mask.0 & knight_span(from) & (knight_span(from)
            ^ self.friendly_pieces.0) & self.pin(from)
    }

    /// Where the piece of the given kind on `from` may go by a plain move.
    /// The king's squares do not depend on `from`; pawns have none.
    pub open spec fn targets(self, piece: Piece, from: u64) -> u64 {
        match piece {
            Piece::King => self.king_targets(),
            Piece::Queen => self.queen_targets(from),
            Piece::Rook => self.rook_targets(from),
            Piece::Bishop => self.bishop_targets(from),
            Piece::Knight => self.knight_targets(from),
            Piece::Pawn => 0,
        }
    }

    /// One step ahead for the pawns of the side to move.
    pub open spec fn forward(self, b: u64) -> u64 {
        if self.player {
            shift_top(b)
        } else {
            shift_bottom(b)
        }
    }

    /// The square of a single push from `from`, if the push is possible.
    pub open spec fn pawn_single_target(self, from: u64) -> u64 {
        self.forward(from) & self.empty_squares.0 & self.pin(from) & self.push_mask.0
    }

    /// The square of a capture toward file a from `from`, if possible.
    pub open spec fn pawn_attack_left(self, from: u64) -> u64 {
        shift_left(self.forward(from)) & self.enemy_pieces.0 & self.pin(from)
            & self.capture_mask.0
    }

    /// The square of a capture toward file h from `from`, if possible.
    pub open spec fn pawn_attack_right(self, from: u64) -> u64 {
        shift_right(self.forward(from)) & self.enemy_pieces.0 & self.pin(from)
            & self.capture_mask.0
    }

    /// The squares of both captures from `from`.
    pub open spec fn pawn_attack_targets(self, from: u64) -> u64 {
        (shift_left(self.forward(from)) | shift_right(self.forward(from))) & self.enemy_pieces.0
            & self.pin(from) & self.capture_mask.0
    }

    /// The square of a double push from `from`, if possible: the pawn stands
    /// on its home rank and both squares ahead are empty.
    pub open spec fn pawn_double_target(self, from: u64) -> u64 {
        let two_ahead = if self.player {
            shift_top(self.forward(from) & RANK_3)
        } else {
            shift_bottom(self.forward(from) & RANK_6)
        };
        two_ahead & self.empty_squares.0 & self.forward(self.empty_squares.0) & self.pin(from)
            & self.push_mask.0
    }

    /// The en-passant target, if the pawn on `from` stands beside the pawn
    /// that just passed it and the capture answers a check that is on.
    pub open spec fn en_passant_candidate(self, from: u64) -> u64 {
        (shift_left(self.forward(from)) | shift_right(self.forward(from)))
            & self.en_passant_square.0 & self.pin(from) & self.forward(self.capture_mask.0)
    }

    /// The square of an en-passant capture from `from`, if it is possible and
    /// does not leave the own king attacked once both pawns have left their
    /// squares.
    pub open spec fn pawn_en_passant_target(self, from: u64) -> u64 {
        let to = self.en_passant_candidate(from);
        if to != 0 && !self.position.after_move(Move::en_passant(self.player, from, to)).0.in_check(
            self.player,
        ) {
            to
        } else {
            0
        }
    }

    /// True when the side to move may castle kingside: it has the right, the
    /// two squares between king and rook are empty, and the king's square and
    /// the two squares it crosses are not attacked.
    pub open spec fn can_castle_kingside(self) -> bool {
        &&& if self.player {
            self.possible_castles.white_kingside
        } else {
            self.possible_castles.black_kingside
        }
        &&& self.position.all.0 & (if self.player {
            0x0000_0000_0000_0006u64
        } else {
            0x0600_0000_0000_0000u64
        }) == 0
        &&& self.attacked_squares.0 & (if self.player {
            0x0000_0000_0000_000Eu64
        } else {
            0x0E00_0000_0000_0000u64
        }) == 0
    }

    /// True when the side to move may castle queenside: it has the right, the
    /// three squares between king and rook are empty, and the king's square
    /// and the two squares it crosses are not attacked.
    pub open spec fn can_castle_queenside(self) -> bool {
        &&& if self.player {
            self.possible_castles.white_queenside
        } else {
            self.possible_castles.black_queenside
        }
        &&& self.position.all.0 & (if self.player {
            0x0000_0000_0000_0070u64
        } else {
            0x7000_0000_0000_0000u64
        }) == 0
        &&& self.attacked_squares.0 & (if self.player {
            0x0000_0000_0000_0038u64
        } else {
            0x3800_0000_0000_0000u64
        }) == 0
    }

    /// Where the king lands in castling kingside, if that is allowed now.
    pub open spec fn kingside_castle_target(self) -> u64 {
        if self.can_castle_kingside() {
            castle_king_to(self.player, Castle::Kingside)
        } else {
            0
        }
    }

    /// Where the king lands in castling queenside, if that is allowed now.
    pub open spec fn queenside_castle_target(self) -> u64 {
        if self.can_castle_queenside() {
            castle_king_to(self.player, Castle::Queenside)
        } else {
            0
        }
    }

    /// The plain moves of every piece of the given kind on `pieces`, piece by
    /// piece, lowest bit index first.
    pub open spec fn piece_moves(self, piece: Piece, pieces: u64) -> Seq<Move>
        decreases pieces,
    {
        if pieces == 0 {
            Seq::empty()
        } else {
            proof {
                lemma_lowest(pieces);
            }
            plain_moves(
                self.player,
                piece,
                lowest_square(pieces),
                self.targets(piece, lowest_square(pieces)),
            ) + self.piece_moves(piece, without_lowest(pieces))
        }
    }

    /// The double push of the pawn on `from`, if there is one. It leaves the
    /// square it passes over as the en-passant target.
    pub open spec fn double_push_moves(self, from: u64) -> Seq<Move> {
        let to = self.pawn_double_target(from);
        if to == 0 {
            Seq::empty()
        } else {
            seq![Move::double_push(self.player, from, to, Position::behind(self.player, to))]
        }
    }

    /// The en-passant capture of the pawn on `from`, if there is one.
    pub open spec fn en_passant_moves(self, from: u64) -> Seq<Move> {
        let to = self.pawn_en_passant_target(from);
        if to == 0 {
            Seq::empty()
        } else {
            seq![Move::en_passant(self.player, from, to)]
        }
    }

    /// The moves of the pawn on `from`: single push, capture toward file a,
    /// capture toward file h, double push, en passant.
    pub open spec fn moves_of_pawn(self, from: u64) -> Seq<Move> {
        pawn_step_moves(self.player, from, self.pawn_single_target(from)) + pawn_step_moves(
            self.player,
            from,
            self.pawn_attack_left(from),
        ) + pawn_step_moves(self.player, from, self.pawn_attack_right(from))
            + self.double_push_moves(from) + self.en_passant_moves(from)
    }

    /// The moves of every pawn on `pawns`, pawn by pawn, lowest bit index
    /// first.
    pub open spec fn pawn_moves(self, pawns: u64) -> Seq<Move>
        decreases pawns,
    {
        if pawns == 0 {
            Seq::empty()
        } else {
            proof {
                lemma_lowest(pawns);
            }
            self.moves_of_pawn(lowest_square(pawns)) + self.pawn_moves(without_lowest(pawns))
        }
    }

    /// The castling moves: kingside first, then queenside.
    pub open spec fn castle_moves(self) -> Seq<Move> {
        (if self.can_castle_kingside() {
            seq![Move::castling(self.player, Castle::Kingside)]
        } else {
            Seq::empty()
        }) + (if self.can_castle_queenside() {
            seq![Move::castling(self.player, Castle::Queenside)]
        } else {
            Seq::empty()
        })
    }

    /// All moves of the side to move, in the order in which they are listed:
    /// king; then, unless two pieces give check, queens, rooks, bishops,
    /// knights, pawns and castling.
    pub open spec fn all_moves(self) -> Seq<Move> {
        let own = self.position.side(self.player);
        let king_part = plain_moves(self.player, Piece::King, self.king.0, self.king_targets());
        if count_squares(self.attackers.0) > 1 {
            king_part
        } else {
            king_part + self.piece_moves(Piece::Queen, own.queen.0) + self.piece_moves(
                Piece::Rook,
                own.rook.0,
            ) + self.piece_moves(Piece::Bishop, own.bishop.0) + self.piece_moves(
                Piece::Knight,
                own.knight.0,
            ) + self.pawn_moves(own.pawn.0) + self.castle_moves()
        }
    }
}


/// Where a slider on `square` can go in the given direction.
pub fn get_moves_in_direction(
    all_pieces: Bitboard,
    enemy_pieces: Bitboard,
    square: Bitboard,
    direction: Direction,
) -> (r: Bitboard)
    ensures
        r.0 == moves_on_ray(all_pieces.0, enemy_pieces.0, square.0, direction),
{
    let mut moves = Bitboard::empty();
    let mut running = square.get_square_in_direction(direction);
    let ghost mut k: nat = 0;
    proof {
        lemma_within_first(square.0, direction);
    }
    while !running.is_empty()
        invariant
            k <= 7,
            within(running.0, direction, k + 1),
            moves_on_ray(all_pieces.0, enemy_pieces.0, square.0, direction) == slide(
                all_pieces.0,
                enemy_pieces.0,
                moves.0,
                running.0,
                direction,
                (7 - k) as nat,
            ),
        decreases 7 - k,
    {
        proof {
            if k == 7 {
                lemma_within_end(running.0, direction);
            }
            lemma_within_step(running.0, direction, k + 1);
        }
        if (all_pieces & running).is_empty() {
            moves = moves | running;
            running = running.get_square_in_direction(direction);
            proof {
                k = k + 1;
            }
        } else if !(enemy_pieces & running).is_empty() {
            return moves | running;
        } else {
            return moves;
        }
    }
    moves
}

/// Where a rook on `square` can go.
pub fn get_rank_and_file_moves(all_pieces: Bitboard, enemy_pieces: Bitboard, square: Bitboard) -> (r:
    Bitboard)
    ensures
        r.0 == rank_and_file_moves(all_pieces.0, enemy_pieces.0, square.0),
{
    get_moves_in_direction(all_pieces, enemy_pieces, square, Direction::Top)
        | get_moves_in_direction(all_pieces, enemy_pieces, square, Direction::Bottom)
        | get_moves_in_direction(all_pieces, enemy_pieces, square, Direction::Left)
        | get_moves_in_direction(all_pieces, enemy_pieces, square, Direction::Right)
}

/// Where a bishop on `square` can go.
pub fn get_diagonal_moves(all_pieces: Bitboard, enemy_pieces: Bitboard, square: Bitboard) -> (r:
    Bitboard)
    ensures
        r.0 == diagonal_moves(all_pieces.0, enemy_pieces.0, square.0),
{
    get_moves_in_direction(all_pieces, enemy_pieces, square, Direction::TopLeft)
        | get_moves_in_direction(all_pieces, enemy_pieces, square, Direction::TopRight)
        | get_moves_in_direction(all_pieces, enemy_pieces, square, Direction::BottomLeft)
        | get_moves_in_direction(all_pieces, enemy_pieces, square, Direction::BottomRight)
}

impl MoveContext {
    /// Works out the context of `player` in `position`.
    pub fn new(
        position: Position,
        player: bool,
        en_passant_square: Bitboard,
        possible_castles: PossibleCastles,
    ) -> (r: MoveContext)
        ensures
            r == MoveContext::of(position, player, en_passant_square, possible_castles),
    {
        reveal(MoveContext::of);
        let own = if player {
            position.white
        } else {
            position.black
        };
        let enemy = if player {
            position.black
        } else {
            position.white
        };
        let king = own.king;
        let attackers = position.attackers(!player, king);
        let mut capture_mask = Bitboard::all();
        let mut push_mask = Bitboard::all();
        if attackers.count_ones() == 1 {
            capture_mask = attackers;
            if !(attackers & enemy.knight).is_empty() || !(attackers & enemy.pawn).is_empty() {
                // A knight's or a pawn's check cannot be blocked.
                push_mask = Bitboard::empty();
            } else {
                push_mask = position.get_push_squares_in_direction(king, attackers, Direction::Top)
                    | position.get_push_squares_in_direction(king, attackers, Direction::Bottom)
                    | position.get_push_squares_in_direction(king, attackers, Direction::Left)
                    | position.get_push_squares_in_direction(king, attackers, Direction::Right)
                    | position.get_push_squares_in_direction(king, attackers, Direction::TopLeft)
                    | position.get_push_squares_in_direction(king, attackers, Direction::TopRight)
                    | position.get_push_squares_in_direction(
                    king,
                    attackers,
                    Direction::BottomLeft,
                ) | position.get_push_squares_in_direction(
                    king,
                    attackers,
                    Direction::BottomRight,
                );
            }
        }
        MoveContext {
            player,
            position,
            en_passant_square,
            possible_castles,
            friendly_pieces: own.all,
            enemy_pieces: enemy.all,
            empty_squares: Bitboard::all() ^ position.all,
            attacked_squares: position.attacked_squares(!player),
            attackers,
            capture_mask,
            push_mask,
            capture_or_push_mask: capture_mask | push_mask,
            king,
            enemy_queens_and_rooks: enemy.queen | enemy.rook,
            enemy_queens_and_bishops: enemy.queen | enemy.bishop,
        }
    }

    fn pinned(&self, from_square: Bitboard) -> (r: Bitboard)
        ensures
            r.0 == self.pin(from_square.0),
    {
        reveal(MoveContext::pin);
        self.position.pinned_movement(
            from_square,
            self.king,
            self.enemy_queens_and_rooks,
            self.enemy_queens_and_bishops,
        )
    }

    fn forward_square(&self, b: Bitboard) -> (r: Bitboard)
        ensures
            r.0 == self.forward(b.0),
    {
        if self.player {
            b.get_top_square()
        } else {
            b.get_bottom_square()
        }
    }

    /// The squares the king may step to.
    pub fn king_moves(&self) -> (r: Bitboard)
        ensures
            r.0 == self.king_targets(),
    {
        let free = self.king.king_moves() & (Bitboard::all() ^ self.attacked_squares);
        free ^ (free & self.friendly_pieces)
    }

    /// The squares the queen on `from_square` may go to.
    pub fn queen_moves(&self, from_square: Bitboard) -> (r: Bitboard)
        ensures
            r.0 == self.queen_targets(from_square.0),
    {
        reveal(MoveContext::queen_targets);
        self.capture_or_push_mask & (get_rank_and_file_moves(
            self.position.all,
            self.enemy_pieces,
            from_square,
        ) | get_diagonal_moves(self.position.all, self.enemy_pieces, from_square)) & self.pinned(
            from_square,
        )
    }

    /// The squares the rook on `from_square` may go to.
    pub fn rook_moves(&self, from_square: Bitboard) -> (r: Bitboard)
        ensures
            r.0 == self.rook_targets(from_square.0),
    {
        reveal(MoveContext::rook_targets);
        self.capture_or_push_mask & get_rank_and_file_moves(
            self.position.all,
            self.enemy_pieces,
            from_square,
        ) & self.pinned(from_square)
    }

    /// The squares the bishop on `from_square` may go to.
    pub fn bishop_moves(&self, from_square: Bitboard) -> (r: Bitboard)
        ensures
            r.0 == self.bishop_targets(from_square.0),
    {
        reveal(MoveContext::bishop_targets);
        self.capture_or_push_mask & get_diagonal_moves(
            self.position.all,
            self.enemy_pieces,
            from_square,
        ) & self.pinned(from_square)
    }

    /// The squares the knight on `from_square` may go to.
    pub fn knight_moves(&self, from_square: Bitboard) -> (r: Bitboard)
        ensures
            r.0 == self.knight_targets(from_square.0),
    {
        let knight_moves = from_square.knight_moves();
        self.capture_or_push_mask & knight_moves & (knight_moves ^ self.friendly_pieces)
            & self.pinned(from_square)
    }

    /// The squares the piece of the given kind on `from_square` may go to
    /// by a plain move.
    pub fn piece_targets(&self, piece: Piece, from_square: Bitboard) -> (r: Bitboard)
        ensures
            r.0 == self.targets(piece, from_square.0),
    {
        match piece {
            Piece::King => self.king_moves(),
            Piece::Queen => self.queen_moves(from_square),
            Piece::Rook => self.rook_moves(from_square),
            Piece::Bishop => self.bishop_moves(from_square),
            Piece::Knight => self.knight_moves(from_square),
            Piece::Pawn => Bitboard::empty(),
        }
    }

    /// The square of a single push from `from_square`, if there is one.
    pub fn pawn_single_moves(&self, from_square: Bitboard) -> (r: Bitboard)
        ensures
            r.0 == self.pawn_single_target(from_square.0),
    {
        let pinned_movement = self.pinned(from_square);
        let forward_square = self.forward_square(from_square);
        forward_square & self.empty_squares & pinned_movement & self.push_mask
    }

    /// The squares of the captures from `from_square`.
    pub fn pawn_attack_moves(&self, from_square: Bitboard) -> (r: Bitboard)
        ensures
            r.0 == self.pawn_attack_targets(from_square.0),
    {
        let forward_square = self.forward_square(from_square);
        let pinned_movement = self.pinned(from_square);
        (forward_square.get_left_square() | forward_square.get_right_square()) & self.enemy_pieces
            & pinned_movement & self.capture_mask
    }

    /// The square of a double push from `from_square`, if there is one.
    pub fn pawn_double_moves(&self, from_square: Bitboard) -> (r: Bitboard)
        ensures
            r.0 == self.pawn_double_target(from_square.0),
    {
        let forward_square = self.forward_square(from_square);
        let pinned_movement = self.pinned(from_square);
        let double_forward_square = if self.player {
            (forward_square & Bitboard::new(RANK_3)).get_top_square()
        } else {
            (forward_square & Bitboard::new(RANK_6)).get_bottom_square()
        };
        double_forward_square & self.empty_squares & self.forward_square(self.empty_squares)
            & pinned_movement & self.push_mask
    }

    /// The square of an en-passant capture from `from_square`, if there is
    /// one that does not leave the own king attacked.
    pub fn pawn_en_passant_moves(&self, from_square: Bitboard) -> (r: Bitboard)
        ensures
            r.0 == self.pawn_en_passant_target(from_square.0),
    {
        let forward_square = self.forward_square(from_square);
        let pinned_movement = self.pinned(from_square);
        let en_passant_captures = forward_square.get_left_square()
            | forward_square.get_right_square();
        let to_square = en_passant_captures & self.en_passant_square & pinned_movement
            & self.forward_square(self.capture_mask);
        if to_square.is_empty() {
            return to_square;
        }
        let m = Move {
            player: self.player,
            piece: Piece::Pawn,
            from_square,
            to_square,
            en_passant_square: Bitboard::empty(),
            is_capturing_en_passant: true,
            is_castling: None,
            is_promoting_to: None,
        };
        let position = self.position.make_move(&m).0;
        if position.is_check(self.player) {
            Bitboard::empty()
        } else {
            to_square
        }
    }

    /// Where the king lands in castling kingside; empty if the side to move
    /// may not castle there.
    pub fn kingside_castle_moves(&self) -> (r: Bitboard)
        ensures
            r.0 == self.kingside_castle_target(),
            r.0 != 0 <==> self.can_castle_kingside(),
    {
        if !self.kingside_castle_allowed() {
            Bitboard::empty()
        } else if self.player {
            Bitboard::new(0x0000_0000_0000_0002)
        } else {
            Bitboard::new(0x0200_0000_0000_0000)
        }
    }

    /// Where the king lands in castling queenside; empty if the side to move
    /// may not castle there.
    pub fn queenside_castle_moves(&self) -> (r: Bitboard)
        ensures
            r.0 == self.queenside_castle_target(),
            r.0 != 0 <==> self.can_castle_queenside(),
    {
        if !self.queenside_castle_allowed() {
            Bitboard::empty()
        } else if self.player {
            Bitboard::new(0x0000_0000_0000_0020)
        } else {
            Bitboard::new(0x2000_0000_0000_0000)
        }
    }

    /// Whether the side to move may castle kingside.
    pub fn kingside_castle_allowed(&self) -> (r: bool)
        ensures
            r == self.can_castle_kingside(),
    {
        let kingside_castle = if self.player {
            self.possible_castles.white_kingside
        } else {
            self.possible_castles.black_kingside
        };
        let kingside_squares_between = self.position.all & (if self.player {
            Bitboard::new(0x0000_0000_0000_0006)
        } else {
            Bitboard::new(0x0600_0000_0000_0000)
        });
        let kingside_attacks = self.attacked_squares & (if self.player {
            Bitboard::new(0x0000_0000_0000_000E)
        } else {
            Bitboard::new(0x0E00_0000_0000_0000)
        });
        kingside_castle && kingside_squares_between.is_empty() && kingside_attacks.is_empty()
    }

    /// Whether the side to move may castle queenside.
    pub fn queenside_castle_allowed(&self) -> (r: bool)
        ensures
            r == self.can_castle_queenside(),
    {
        let queenside_castle = if self.player {
            self.possible_castles.white_queenside
        } else {
            self.possible_castles.black_queenside
        };
        let queenside_squares_between = self.position.all & (if self.player {
            Bitboard::new(0x0000_0000_0000_0070)
        } else {
            Bitboard::new(0x7000_0000_0000_0000)
        });
        let queenside_attacks = self.attacked_squares & (if self.player {
            Bitboard::new(0x0000_0000_0000_0038)
        } else {
            Bitboard::new(0x3800_0000_0000_0000)
        });
        queenside_castle && queenside_squares_between.is_empty() && queenside_attacks.is_empty()
    }

    /// The castling move of the side to move on `side`.
    pub fn castle_move(&self, side: Castle) -> (r: Move)
        ensures
            r == Move::castling(self.player, side),
    {
        Move {
            player: self.player,
            piece: Piece::King,
            from_square: if self.player {
                Bitboard::new(0x0000_0000_0000_0008)
            } else {
                Bitboard::new(0x0800_0000_0000_0000)
            },
            to_square: match (side, self.player) {
                (Castle::Kingside, true) => Bitboard::new(0x0000_0000_0000_0002),
                (Castle::Kingside, false) => Bitboard::new(0x0200_0000_0000_0000),
                (Castle::Queenside, true) => Bitboard::new(0x0000_0000_0000_0020),
                (Castle::Queenside, false) => Bitboard::new(0x2000_0000_0000_0000),
            },
            en_passant_square: Bitboard::empty(),
            is_capturing_en_passant: false,
            is_castling: Some(side),
            is_promoting_to: None,
        }
    }

    fn push_plain_moves(
        &self,
        result: &mut Vec<Move>,
        piece: Piece,
        from_square: Bitboard,
        targets: Bitboard,
    )
        ensures
            final(result)@ == old(result)@ + plain_moves(
                self.player,
                piece,
                from_square.0,
                targets.0,
            ),
    {
        let ghost base = result@;
        let mut squares = targets.into_iter();
        loop
            invariant
                base == old(result)@,
                result@ + plain_moves(self.player, piece, from_square.0, squares.n) == base
                    + plain_moves(self.player, piece, from_square.0, targets.0),
            decreases squares.n,
        {
            let ghost before = result@;
            let ghost n = squares.n;
            proof {
                if n != 0 {
                    lemma_lowest(n);
                }
            }
            match squares.next() {
                Some(to_square) => {
                    result.push(
                        Move {
                            player: self.player,
                            piece,
                            from_square,
                            to_square,
                            en_passant_square: Bitboard::empty(),
                            is_capturing_en_passant: false,
                            is_castling: None,
                            is_promoting_to: None,
                        },
                    );
                    assert(result@ + plain_moves(self.player, piece, from_square.0, squares.n)
                        =~= before + plain_moves(self.player, piece, from_square.0, n));
                },
                None => {
                    assert(result@ + plain_moves(self.player, piece, from_square.0, squares.n)
                        =~= result@);
                    return ;
                },
            }
        }
    }

    fn push_piece_moves(&self, result: &mut Vec<Move>, piece: Piece, pieces: Bitboard)
        ensures
            final(result)@ == old(result)@ + self.piece_moves(piece, pieces.0),
    {
        let ghost base = result@;
        let mut squares = pieces.into_iter();
        loop
            invariant
                base == old(result)@,
                result@ + self.piece_moves(piece, squares.n) == base + self.piece_moves(
                    piece,
                    pieces.0,
                ),
            decreases squares.n,
        {
            let ghost before = result@;
            let ghost n = squares.n;
            proof {
                if n != 0 {
                    lemma_lowest(n);
                }
            }
            match squares.next() {
                Some(from_square) => {
                    let targets = self.piece_targets(piece, from_square);
                    self.push_plain_moves(result, piece, from_square, targets);
                    assert(result@ + self.piece_moves(piece, squares.n) =~= before
                        + self.piece_moves(piece, n));
                },
                None => {
                    assert(result@ + self.piece_moves(piece, squares.n) =~= result@);
                    return ;
                },
            }
        }
    }

    /// Appends the moves of a pawn from `from_square` to `to_square`: four
    /// promotions on the last rank, one move elsewhere, none if `to_square`
    /// is empty.
    pub fn push_pawn_step_moves(
        &self,
        result: &mut Vec<Move>,
        from_square: Bitboard,
        to_square: Bitboard,
    )
        ensures
            final(result)@ == old(result)@ + pawn_step_moves(
                self.player,
                from_square.0,
                to_square.0,
            ),
    {
        let ghost base = result@;
        if to_square.is_empty() {
            assert(result@ =~= base + pawn_step_moves(self.player, from_square.0, to_square.0));
            return ;
        }
        let promotion_squares = if self.player {
            Bitboard::new(RANK_8)
        } else {
            Bitboard::new(RANK_1)
        };
        if !(to_square & promotion_squares).is_empty() {
            result.push(self.promotion_move(from_square, to_square, PromotionPiece::Queen));
            result.push(self.promotion_move(from_square, to_square, PromotionPiece::Rook));
            result.push(self.promotion_move(from_square, to_square, PromotionPiece::Bishop));
            result.push(self.promotion_move(from_square, to_square, PromotionPiece::Knight));
        } else {
            result.push(
                Move {
                    player: self.player,
                    piece: Piece::Pawn,
                    from_square,
                    to_square,
                    en_passant_square: Bitboard::empty(),
                    is_capturing_en_passant: false,
                    is_castling: None,
                    is_promoting_to: None,
                },
            );
        }
        assert(result@ =~= base + pawn_step_moves(self.player, from_square.0, to_square.0));
    }

    fn promotion_move(
        &self,
        from_square: Bitboard,
        to_square: Bitboard,
        promotion: PromotionPiece,
    ) -> (r: Move)
        ensures
            r == Move::promotion(self.player, from_square.0, to_square.0, promotion),
    {
        Move {
            player: self.player,
            piece: Piece::Pawn,
            from_square,
            to_square,
            en_passant_square: Bitboard::empty(),
            is_capturing_en_passant: false,
            is_castling: None,
            is_promoting_to: Some(promotion),
        }
    }

    fn push_moves_of_pawn(&self, result: &mut Vec<Move>, from_square: Bitboard)
        ensures
            final(result)@ == old(result)@ + self.moves_of_pawn(from_square.0),
    {
        let ghost base = result@;
        let pinned_movement = self.pinned(from_square);
        let forward_square = self.forward_square(from_square);

        let to_square = self.pawn_single_moves(from_square);
        self.push_pawn_step_moves(result, from_square, to_square);

        let to_square_left = forward_square.get_left_square() & self.enemy_pieces & pinned_movement
            & self.capture_mask;
        self.push_pawn_step_moves(result, from_square, to_square_left);
        let to_square_right = forward_square.get_right_square() & self.enemy_pieces
            & pinned_movement & self.capture_mask;
        self.push_pawn_step_moves(result, from_square, to_square_right);

        let to_square = self.pawn_double_moves(from_square);
        if !to_square.is_empty() {
            result.push(
                Move {
                    player: self.player,
                    piece: Piece::Pawn,
                    from_square,
                    to_square,
                    en_passant_square: if self.player {
                        to_square.get_bottom_square()
                    } else {
                        to_square.get_top_square()
                    },
                    is_capturing_en_passant: false,
                    is_castling: None,
                    is_promoting_to: None,
                },
            );
        }
        let to_square = self.pawn_en_passant_moves(from_square);
        if !to_square.is_empty() {
            result.push(
                Move {
                    player: self.player,
                    piece: Piece::Pawn,
                    from_square,
                    to_square,
                    en_passant_square: Bitboard::empty(),
                    is_capturing_en_passant: true,
                    is_castling: None,
                    is_promoting_to: None,
                },
            );
        }
        assert(result@ =~= base + self.moves_of_pawn(from_square.0));
    }

    fn push_pawn_moves(&self, result: &mut Vec<Move>, pawns: Bitboard)
        ensures
            final(result)@ == old(result)@ + self.pawn_moves(pawns.0),
    {
        let ghost base = result@;
        let mut squares = pawns.into_iter();
        loop
            invariant
                base == old(result)@,
                result@ + self.pawn_moves(squares.n) == base + self.pawn_moves(pawns.0),
            decreases squares.n,
        {
            let ghost before = result@;
            let ghost n = squares.n;
            proof {
                if n != 0 {
                    lemma_lowest(n);
                }
            }
            match squares.next() {
                Some(from_square) => {
                    self.push_moves_of_pawn(result, from_square);
                    assert(result@ + self.pawn_moves(squares.n) =~= before + self.pawn_moves(n));
                },
                None => {
                    assert(result@ + self.pawn_moves(squares.n) =~= result@);
                    return ;
                },
            }
        }
    }

    /// Lists every move of the side to move.
    pub fn generate(&self) -> (r: Vec<Move>)
        ensures
            r@ == self.all_moves(),
    {
        let mut result: Vec<Move> = Vec::new();
        let own = if self.player {
            self.position.white
        } else {
            self.position.black
        };
        let king_moves = self.king_moves();
        self.push_plain_moves(&mut result, Piece::King, self.king, king_moves);
        assert(result@ =~= plain_moves(
            self.player,
            Piece::King,
            self.king.0,
            self.king_targets(),
        ));
        if self.attackers.count_ones() > 1 {
            // Two pieces give check: only the king can move.
            return result;
        }
        self.push_piece_moves(&mut result, Piece::Queen, own.queen);
        self.push_piece_moves(&mut result, Piece::Rook, own.rook);
        self.push_piece_moves(&mut result, Piece::Bishop, own.bishop);
        self.push_piece_moves(&mut result, Piece::Knight, own.knight);
        self.push_pawn_moves(&mut result, own.pawn);
        let ghost before = result@;
        if !self.kingside_castle_moves().is_empty() {
            result.push(self.castle_move(Castle::Kingside));
        }
        if !self.queenside_castle_moves().is_empty() {
            result.push(self.castle_move(Castle::Queenside));
        }
        assert(result@ =~= before + self.castle_moves());
        result
    }
}

} // verus!
