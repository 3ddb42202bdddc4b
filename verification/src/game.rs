//! A game in progress: the position together with the side to move, the
//! castling rights, the en-passant target, the two move counters and the
//! positions met since the last irreversible move.

use vstd::prelude::*;
use crate::bitboard::Bitboard;
use crate::chess_move::Move;
use crate::movegen::MoveContext;
pub use crate::movegen::PossibleCastles;
use crate::piece::{CapturedPiece, Piece};
use crate::position::Position;

verus! {

/// White's king-side rook home, h1.
pub const H1: u64 = 0x0000_0000_0000_0001;

/// White's queen-side rook home, a1.
pub const A1: u64 = 0x0000_0000_0000_0080;

/// Black's king-side rook home, h8.
pub const H8: u64 = 0x0100_0000_0000_0000;

/// Black's queen-side rook home, a8.
pub const A8: u64 = 0x8000_0000_0000_0000;

/// How a game has ended.
#[derive(Clone, Copy, Debug, PartialEq, Eq, Structural)]
pub enum GameResult {
    /// Black is mated.
    White,
    /// White is mated.
    Black,
    Stalemate,
    DeadPosition,
    Repitition,
    FiftyMoveRule,
}

/// What two positions must share to count as the same position for the
/// repetition rule: the twelve piece boards, the side to move, the castling
/// rights and the en-passant target.
#[derive(Clone, Copy, Debug, PartialEq, Eq, Structural)]
pub struct PositionWithMeta {
    pub white_king: Bitboard,
    pub white_queen: Bitboard,
    pub white_rook: Bitboard,
    pub white_bishop: Bitboard,
    pub white_knight: Bitboard,
    pub white_pawn: Bitboard,
    pub black_king: Bitboard,
    pub black_queen: Bitboard,
    pub black_rook: Bitboard,
    pub black_bishop: Bitboard,
    pub black_knight: Bitboard,
    pub black_pawn: Bitboard,
    pub player: bool,
    pub castle_white_kingside: bool,
    pub castle_white_queenside: bool,
    pub castle_black_kingside: bool,
    pub castle_black_queenside: bool,
    pub en_passant_square: Bitboard,
}

/// A game in progress. `player` is true when white is to move.
///
/// `previous_positions` holds, oldest first, the positions from which a
/// move was made since the last capture, promotion or castling.
/// `move_counter` counts full moves and `fifty_move_counter` the plies since
/// the last pawn move or capture.
#[derive(Debug)]
pub struct Game {
    pub position: Position,
    pub player: bool,
    pub possible_castles: PossibleCastles,
    pub en_passant_square: Bitboard,
    pub previous_positions: Vec<PositionWithMeta>,
    pub move_counter: u32,
    pub fifty_move_counter: u32,
}

/// The value of a `Game`: the same fields, with the list of earlier
/// positions as a sequence.
pub struct GameView {
    pub position: Position,
    pub player: bool,
    pub possible_castles: PossibleCastles,
    pub en_passant_square: Bitboard,
    pub previous_positions: Seq<PositionWithMeta>,
    pub move_counter: u32,
    pub fifty_move_counter: u32,
}

impl View for Game {
    type V = GameView;

    open spec fn view(&self) -> GameView {
        GameView {
            position: self.position,
            player: self.player,
            possible_castles: self.possible_castles,
            en_passant_square: self.en_passant_square,
            previous_positions: self.previous_positions@,
            move_counter: self.move_counter,
            fifty_move_counter: self.fifty_move_counter,
        }
    }
}

/// `n + 1`, or `n` at the upper end of `u32`.
pub open spec fn next_count(n: u32) -> u32 {
    if n == u32::MAX {
        n
    } else {
        (n + 1) as u32
    }
}

/// `n` as a `u64`, or the largest `u64` if `n` does not fit.
pub open spec fn saturated(n: nat) -> u64 {
    if n > u64::MAX {
        u64::MAX
    } else {
        n as u64
    }
}

/// How many of the first `n` entries of `history` equal `digest`.
pub open spec fn occurrences(history: Seq<PositionWithMeta>, digest: PositionWithMeta, n: nat) -> nat
    decreases n,
{
    if n == 0 {
        0
    } else {
        occurrences(history, digest, (n - 1) as nat) + if history[n - 1] == digest {
            1nat
        } else {
            0nat
        }
    }
}

/// True when some position occurs at least three times in `history`.
pub open spec fn repeated_thrice(history: Seq<PositionWithMeta>) -> bool {
    exists|i: int|
        0 <= i < history.len() && #[trigger] occurrences(history, history[i], history.len()) >= 3
}

impl PossibleCastles {
    /// The rights left after the side `player` made the move `m`, which took
    /// `taken`. A side loses both rights when its king moves, the right of a
    /// wing when the rook leaves its home square there, and the other side
    /// loses the right of a wing when its rook is taken on its home square.
    pub open spec fn after(self, player: bool, m: Move, taken: CapturedPiece) -> PossibleCastles {
        PossibleCastles {
            white_kingside: self.white_kingside && !(player && m.piece == Piece::King) && !(player
                && m.piece == Piece::Rook && m.from_square.0 == H1) && !(!player && taken
                == CapturedPiece::Rook && m.to_square.0 == H1),
            white_queenside: self.white_queenside && !(player && m.piece == Piece::King) && !(
            player && m.piece == Piece::Rook && m.from_square.0 == A1) && !(!player && taken
                == CapturedPiece::Rook && m.to_square.0 == A1),
            black_kingside: self.black_kingside && !(!player && m.piece == Piece::King) && !(
            !player && m.piece == Piece::Rook && m.from_square.0 == H8) && !(player && taken
                == CapturedPiece::Rook && m.to_square.0 == H8),
            black_queenside: self.black_queenside && !(!player && m.piece == Piece::King) && !(
            !player && m.piece == Piece::Rook && m.from_square.0 == A8) && !(player && taken
                == CapturedPiece::Rook && m.to_square.0 == A8),
        }
    }
}

impl GameView {
    /// What identifies this position for the repetition rule.
    pub open spec fn digest(self) -> PositionWithMeta {
        PositionWithMeta {
            white_king: self.position.white.king,
            white_queen: self.position.white.queen,
            white_rook: self.position.white.rook,
            white_bishop: self.position.white.bishop,
            white_knight: self.position.white.knight,
            white_pawn: self.position.white.pawn,
            black_king: self.position.black.king,
            black_queen: self.position.black.queen,
            black_rook: self.position.black.rook,
            black_bishop: self.position.black.bishop,
            black_knight: self.position.black.knight,
            black_pawn: self.position.black.pawn,
            player: self.player,
            castle_white_kingside: self.possible_castles.white_kingside,
            castle_white_queenside: self.possible_castles.white_queenside,
            castle_black_kingside: self.possible_castles.black_kingside,
            castle_black_queenside: self.possible_castles.black_queenside,
            en_passant_square: self.en_passant_square,
        }
    }

    /// The game after the move `m`.
    ///
    /// The position changes as `Position::after_move` says and the turn
    /// passes. Castling rights shrink as `PossibleCastles::after` says. The
    /// en-passant target is the one the move leaves. The full-move counter
    /// grows after black's move. The fifty-move counter restarts on a pawn
    /// move or a capture and grows otherwise. The list of earlier positions
    /// is emptied by a capture, a promotion or castling; any other move
    /// appends the position it was made from.
    pub open spec fn after_move(self, m: Move) -> GameView {
        let (position, taken) = self.position.after_move(m);
        GameView {
            position,
            player: !self.player,
            possible_castles: self.possible_castles.after(self.player, m, taken),
            en_passant_square: m.en_passant_square,
            previous_positions: if taken != CapturedPiece::Nothing || m.is_promoting_to.is_some()
                || m.is_castling.is_some() {
                Seq::empty()
            } else {
                self.previous_positions.push(self.digest())
            },
            move_counter: if self.player {
                self.move_counter
            } else {
                next_count(self.move_counter)
            },
            fifty_move_counter: if m.piece == Piece::Pawn || taken != CapturedPiece::Nothing
                || m.is_capturing_en_passant {
                0
            } else {
                next_count(self.fifty_move_counter)
            },
        }
    }

    /// The legal moves of `player` in this game, in the order in which
    /// `Game::legal_moves` lists them.
    pub open spec fn legal_moves(self, player: bool) -> Seq<Move> {
        MoveContext::of(
            self.position,
            player,
            self.en_passant_square,
            self.possible_castles,
        ).all_moves()
    }

    /// The number of ways to play `depth` plies from here: one for no ply,
    /// and otherwise the sum, over the legal moves of the side to move, of
    /// the number of ways to play one ply less after that move.
    #[verifier::opaque]
    pub open spec fn perft(self, depth: nat) -> nat
        decreases depth, 0nat,
    {
        if depth == 0 {
            1
        } else {
            self.perft_over(self.legal_moves(self.player), (depth - 1) as nat)
        }
    }

    /// The sum of `perft(depth)` over the games that the given moves lead to.
    #[verifier::opaque]
    pub open spec fn perft_over(self, moves: Seq<Move>, depth: nat) -> nat
        decreases depth, moves.len() + 1,
    {
        if moves.len() == 0 {
            0
        } else {
            self.perft_over(moves.drop_last(), depth) + self.after_move(moves.last()).perft(depth)
        }
    }

    /// How the game stands: mate or stalemate when the side to move has no
    /// legal move; else a draw by the fifty-move rule, by repetition or by
    /// lack of material, looked for in this order; else `None`.
    pub open spec fn outcome(self) -> Option<GameResult> {
        if self.legal_moves(self.player).len() == 0 {
            if self.position.in_check(self.player) {
                if self.player {
                    Some(GameResult::Black)
                } else {
                    Some(GameResult::White)
                }
            } else {
                Some(GameResult::Stalemate)
            }
        } else if self.fifty_move_counter >= 100 {
            Some(GameResult::FiftyMoveRule)
        } else if repeated_thrice(self.previous_positions) {
            Some(GameResult::Repitition)
        } else if self.position.dead() {
            Some(GameResult::DeadPosition)
        } else {
            None
        }
    }
}

/// What `perft` says, spelled out for no ply and for one ply or more.
pub proof fn lemma_perft_unfold(g: GameView, depth: nat)
    ensures
        g.perft(0) == 1,
        depth > 0 ==> g.perft(depth) == g.perft_over(
            g.legal_moves(g.player),
            (depth - 1) as nat,
        ),
{
    reveal_with_fuel(GameView::perft, 2);
    reveal_with_fuel(GameView::perft_over, 2);
}

/// The count over no move is zero.
pub proof fn lemma_perft_over_empty(g: GameView, depth: nat)
    ensures
        g.perft_over(Seq::empty(), depth) == 0,
{
    reveal(GameView::perft_over);
}

/// One more move adds the count of the game it leads to.
pub proof fn lemma_perft_over_push(g: GameView, moves: Seq<Move>, m: Move, depth: nat)
    ensures
        g.perft_over(moves.push(m), depth) == g.perft_over(moves, depth) + g.after_move(m).perft(
            depth,
        ),
{
    reveal_with_fuel(GameView::perft, 2);
    reveal_with_fuel(GameView::perft_over, 2);
    assert(moves.push(m).drop_last() =~= moves);
    assert(moves.push(m).last() == m);
}

fn copy_history(history: &Vec<PositionWithMeta>) -> (r: Vec<PositionWithMeta>)
    ensures
        r@ == history@,
{
    let mut copy: Vec<PositionWithMeta> = Vec::new();
    let mut i: usize = 0;
    while i < history.len()
        invariant
            i <= history.len(),
            copy@ == history@.take(i as int),
        decreases history.len() - i,
    {
        copy.push(history[i]);
        i = i + 1;
        assert(copy@ =~= history@.take(i as int));
    }
    assert(history@.take(i as int) =~= history@);
    copy
}

fn count_in(history: &Vec<PositionWithMeta>, digest: &PositionWithMeta) -> (r: usize)
    ensures
        r == occurrences(history@, *digest, history@.len()),
{
    let mut count: usize = 0;
    let mut j: usize = 0;
    while j < history.len()
        invariant
            j <= history.len(),
            count <= j,
            count == occurrences(history@, *digest, j as nat),
        decreases history.len() - j,
    {
        if history[j] == *digest {
            count = count + 1;
        }
        j = j + 1;
    }
    count
}

fn has_repetition(history: &Vec<PositionWithMeta>) -> (r: bool)
    ensures
        r == repeated_thrice(history@),
{
    let mut i: usize = 0;
    while i < history.len()
        invariant
            i <= history.len(),
            forall|j: int|
                0 <= j < i ==> #[trigger] occurrences(history@, history@[j], history@.len()) < 3,
        decreases history.len() - i,
    {
        if count_in(history, &history[i]) >= 3 {
            return true;
        }
        i = i + 1;
    }
    false
}

impl Game {
    /// What identifies the current position for the repetition rule.
    pub fn digest(&self) -> (r: PositionWithMeta)
        ensures
            r == self@.digest(),
    {
        PositionWithMeta {
            white_king: self.position.white.king,
            white_queen: self.position.white.queen,
            white_rook: self.position.white.rook,
            white_bishop: self.position.white.bishop,
            white_knight: self.position.white.knight,
            white_pawn: self.position.white.pawn,
            black_king: self.position.black.king,
            black_queen: self.position.black.queen,
            black_rook: self.position.black.rook,
            black_bishop: self.position.black.bishop,
            black_knight: self.position.black.knight,
            black_pawn: self.position.black.pawn,
            player: self.player,
            castle_white_kingside: self.possible_castles.white_kingside,
            castle_white_queenside: self.possible_castles.white_queenside,
            castle_black_kingside: self.possible_castles.black_kingside,
            castle_black_queenside: self.possible_castles.black_queenside,
            en_passant_square: self.en_passant_square,
        }
    }

    /// Plays `m` and returns the game that results. A listed move of the
    /// side to move in a well-formed game leads to a well-formed game: the
    /// position stays well formed, and the side that moved is not in check.
    pub fn make_move(&self, m: &Move) -> (r: Game)
        ensures
            r@ == self@.after_move(*m),
            self@.well_formed() && self@.legal_moves(self.player).contains(*m)
                ==> r@.well_formed() && r.position.well_formed() && !r.position.in_check(
                self.player,
            ),
    {
        proof {
            if self@.well_formed() && self@.legal_moves(self.player).contains(*m) {
                crate::legality::lemma_listed_move_keeps_well_formed(self@, *m);
            }
        }
        let (new_position, is_capturing) = self.position.make_move(m);
        let is_king = m.piece == Piece::King;
        let is_rook = m.piece == Piece::Rook;
        let takes_rook = is_capturing == CapturedPiece::Rook;
        let from = m.from_square.0;
        let to = m.to_square.0;
        let possible_castles = PossibleCastles {
            white_kingside: self.possible_castles.white_kingside && !(self.player && is_king) && !(
            self.player && is_rook && from == H1) && !(!self.player && takes_rook && to == H1),
            white_queenside: self.possible_castles.white_queenside && !(self.player && is_king)
                && !(self.player && is_rook && from == A1) && !(!self.player && takes_rook && to
                == A1),
            black_kingside: self.possible_castles.black_kingside && !(!self.player && is_king)
                && !(!self.player && is_rook && from == H8) && !(self.player && takes_rook && to
                == H8),
            black_queenside: self.possible_castles.black_queenside && !(!self.player && is_king)
                && !(!self.player && is_rook && from == A8) && !(self.player && takes_rook && to
                == A8),
        };
        let move_counter = if self.player {
            self.move_counter
        } else {
            self.move_counter.saturating_add(1)
        };
        let fifty_move_counter = if m.piece == Piece::Pawn || is_capturing != CapturedPiece::Nothing
            || m.is_capturing_en_passant {
            0
        } else {
            self.fifty_move_counter.saturating_add(1)
        };
        let previous_positions = if is_capturing != CapturedPiece::Nothing
            || m.is_promoting_to.is_some() || m.is_castling.is_some() {
            // Nothing that came before can come again.
            Vec::new()
        } else {
            let mut history = copy_history(&self.previous_positions);
            history.push(self.digest());
            history
        };
        Game {
            position: new_position,
            player: !self.player,
            possible_castles,
            en_passant_square: m.en_passant_square,
            previous_positions,
            move_counter,
            fifty_move_counter,
        }
    }

    /// Lists the legal moves of `player`, each of them once. In a
    /// well-formed game the list for the side to move holds exactly the
    /// strictly legal moves.
    pub fn legal_moves(&self, player: bool) -> (r: Vec<Move>)
        ensures
            r@ == self@.legal_moves(player),
            r@.no_duplicates(),
            self@.well_formed() && player == self.player ==> forall|m: Move|
                #[trigger] r@.contains(m) <==> self@.strictly_legal(m),
    {
        let moves = MoveContext::new(
            self.position,
            player,
            self.en_passant_square,
            self.possible_castles,
        ).generate();
        proof {
            crate::distinct::lemma_all_moves_distinct(
                MoveContext::of(
                    self.position,
                    player,
                    self.en_passant_square,
                    self.possible_castles,
                ),
            );
            if self@.well_formed() && player == self.player {
                assert forall|m: Move| #[trigger]
                    moves@.contains(m) <==> self@.strictly_legal(m) by {
                    crate::exactness::lemma_listed_moves_are_the_legal_moves(self@, m);
                }
            }
        }
        moves
    }

    /// Counts the ways to play `depth` plies from here. The count stops at
    /// the largest `u64`.
    pub fn count_legal_moves(&self, depth: u64) -> (r: u64)
        ensures
            r == saturated(self@.perft(depth as nat)),
        decreases depth,
    {
        proof {
            lemma_perft_unfold(self@, depth as nat);
            lemma_perft_over_empty(self@, (depth - 1) as nat);
        }
        if depth == 0 {
            return 1;
        }
        let moves = self.legal_moves(self.player);
        assert(moves@.take(0) =~= Seq::<Move>::empty());
        let mut total: u64 = 0;
        let mut i: usize = 0;
        while i < moves.len()
            invariant
                depth > 0,
                i <= moves.len(),
                total == saturated(self@.perft_over(moves@.take(i as int), (depth - 1) as nat)),
            decreases moves.len() - i,
        {
            let child = self.make_move(&moves[i]);
            let below = child.count_legal_moves(depth - 1);
            proof {
                assert(moves@.take(i + 1) =~= moves@.take(i as int).push(moves@[i as int]));
                lemma_perft_over_push(
                    self@,
                    moves@.take(i as int),
                    moves@[i as int],
                    (depth - 1) as nat,
                );
            }
            total = total.saturating_add(below);
            i = i + 1;
        }
        assert(moves@.take(i as int) =~= moves@);
        total
    }

    /// Tells how the game stands, or `None` while it goes on. In a
    /// well-formed game the result is a mate or a stalemate exactly when
    /// the side to move has no strictly legal move: a mate when its king is
    /// attacked, a stalemate when it is not.
    pub fn result(&self) -> (r: Option<GameResult>)
        ensures
            r == self@.outcome(),
            self@.well_formed() ==> ((r == Some(GameResult::White) || r == Some(GameResult::Black)
                || r == Some(GameResult::Stalemate)) <==> forall|m: Move|
                !self@.strictly_legal(m)),
            r == Some(GameResult::White) ==> !self.player && self.position.in_check(false),
            r == Some(GameResult::Black) ==> self.player && self.position.in_check(true),
            r == Some(GameResult::Stalemate) ==> !self.position.in_check(self.player),
    {
        let moves = self.legal_moves(self.player);
        proof {
            if self@.well_formed() {
                if moves@.len() > 0 {
                    assert(moves@.contains(moves@[0]));
                    assert(self@.strictly_legal(moves@[0]));
                } else {
                    assert forall|m: Move| !self@.strictly_legal(m) by {
                        assert(!moves@.contains(m));
                    }
                }
            }
        }
        let legal_moves = moves.len();
        if legal_moves == 0 {
            if self.position.is_check(self.player) {
                return if self.player {
                    Some(GameResult::Black)
                } else {
                    Some(GameResult::White)
                };
            }
            return Some(GameResult::Stalemate);
        }
        if self.fifty_move_counter >= 100 {
            return Some(GameResult::FiftyMoveRule);
        }
        if has_repetition(&self.previous_positions) {
            return Some(GameResult::Repitition);
        }
        if self.position.is_dead() {
            return Some(GameResult::DeadPosition);
        }
        None
    }
}

} // verus!
