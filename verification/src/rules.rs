//! The rules of movement stated without regard to how the moves are found,
//! and the proof that the moves listed are exactly the moves that follow
//! the rules and leave the own king unattacked.

use vstd::prelude::*;
use crate::attacks::{answer_mask, attacked_among, lemma_moves_miss_the_king};
use crate::bitboard::{
    count_squares, king_span, knight_span, shift_bottom, shift_left, shift_right, shift_top,
    single, ALL_SQUARES,
};
use crate::chess_move::{Castle, Move};
use crate::counting::{at_most_one};
use crate::game::GameView;
use crate::invariants::{castle_between};
use crate::legality::{
    lemma_context_facts, lemma_count_facts, lemma_move_premises, lemma_position_facts,
    lemma_set_algebra, lemma_struck, lemma_target_clear,
};
use crate::movegen::{
    blocking_squares, diagonal_moves, promotion_rank, rank_and_file_moves, MoveContext,
    PossibleCastles, RANK_3, RANK_6,
};
use crate::piece::{Piece};
use crate::position::{attackers_among, pinned_squares, Position};
use crate::reflection::{lemma_in_all_moves, lemma_piece_block_listed, lemma_plain_move_listed};

verus! {

/// The king's square and the two squares it crosses when `player` castles
/// on `side`.
pub open spec fn castle_path(player: bool, side: Castle) -> u64 {
    match (side, player) {
        (Castle::Kingside, true) => 0x0000_0000_0000_000E,
        (Castle::Kingside, false) => 0x0E00_0000_0000_0000,
        (Castle::Queenside, true) => 0x0000_0000_0000_0038,
        (Castle::Queenside, false) => 0x3800_0000_0000_0000,
    }
}

impl PossibleCastles {
    /// True when `player` has the right to castle on `side`.
    pub open spec fn allows(self, player: bool, side: Castle) -> bool {
        match (side, player) {
            (Castle::Kingside, true) => self.white_kingside,
            (Castle::Kingside, false) => self.black_kingside,
            (Castle::Queenside, true) => self.white_queenside,
            (Castle::Queenside, false) => self.black_queenside,
        }
    }
}

impl GameView {
    /// One step ahead for the pawns of the side to move.
    pub open spec fn ahead(self, b: u64) -> u64 {
        if self.player {
            shift_top(b)
        } else {
            shift_bottom(b)
        }
    }

    /// True when the pawn move `m` from `from` to `to` follows the rules of
    /// movement: a push to the empty square ahead; a capture of an enemy
    /// piece diagonally ahead; each of these as one of the four promotions
    /// on the last rank and as a plain move elsewhere; a double push from
    /// the home rank over an empty square to an empty square, which leaves
    /// the square passed over as en-passant target; or a capture en passant
    /// on the en-passant target diagonally ahead.
    pub open spec fn pawn_follows_rule(self, m: Move) -> bool {
        let p = self.player;
        let all = self.position.all.0;
        let enemy = self.position.side(!p);
        let from = m.from_square.0;
        let to = m.to_square.0;
        let forward = self.ahead(from);
        let beside = shift_left(forward) | shift_right(forward);
        let two = if p {
            shift_top(forward & RANK_3)
        } else {
            shift_bottom(forward & RANK_6)
        };
        if m.is_capturing_en_passant {
            &&& m == Move::en_passant(p, from, to)
            &&& to == self.en_passant_square.0
            &&& to & beside == to
        } else if m.en_passant_square.0 != 0 {
            &&& m == Move::double_push(p, from, to, Position::behind(p, to))
            &&& to & two == to
            &&& to & all == 0
            &&& Position::behind(p, to) & all == 0
        } else {
            &&& (to & forward == to && to & all == 0) || (to & beside == to && to & enemy.all.0
                != 0)
            &&& if to & promotion_rank(p) != 0 {
                m.is_promoting_to.is_some() && m == Move::promotion(
                    p,
                    from,
                    to,
                    m.is_promoting_to.unwrap(),
                )
            } else {
                m == Move::plain(p, Piece::Pawn, from, to)
            }
        }
    }

    /// True when `m` follows the rules of movement, whether or not it
    /// leaves the own king attacked.
    ///
    /// Castling: the side has the right, nothing stands between king and
    /// rook, and neither the king's square nor the two squares it crosses
    /// are attacked. Any other move: one piece of the side to move goes to
    /// a square that holds no piece of its own side; the king to a square
    /// next to it, the knight by its jump, queen, rook and bishop along
    /// their lines up to and with the first piece met, the pawn as
    /// `pawn_follows_rule` says.
    pub open spec fn follows_rule(self, m: Move) -> bool {
        let p = self.player;
        let all = self.position.all.0;
        let own = self.position.side(p);
        let enemy = self.position.side(!p);
        let from = m.from_square.0;
        let to = m.to_square.0;
        match m.is_castling {
            Some(side) => {
                &&& m == Move::castling(p, side)
                &&& self.possible_castles.allows(p, side)
                &&& all & castle_between(p, side) == 0
                &&& self.position.attacked_by(!p) & castle_path(p, side) == 0
            },
            None => {
                &&& single(from)
                &&& single(to)
                &&& from & own.board(m.piece) == from
                &&& to & own.all.0 == 0
                &&& match m.piece {
                    Piece::King => m == Move::plain(p, Piece::King, from, to) && to & king_span(
                        from,
                    ) == to,
                    Piece::Queen => m == Move::plain(p, Piece::Queen, from, to) && to & (
                    rank_and_file_moves(all, enemy.all.0, from) | diagonal_moves(
                        all,
                        enemy.all.0,
                        from,
                    )) == to,
                    Piece::Rook => m == Move::plain(p, Piece::Rook, from, to) && to
                        & rank_and_file_moves(all, enemy.all.0, from) == to,
                    Piece::Bishop => m == Move::plain(p, Piece::Bishop, from, to) && to
                        & diagonal_moves(all, enemy.all.0, from) == to,
                    Piece::Knight => m == Move::plain(p, Piece::Knight, from, to) && to
                        & knight_span(from) == to,
                    Piece::Pawn => self.pawn_follows_rule(m),
                }
            },
        }
    }

    /// True when `m` is a strictly legal move of the side to move: it
    /// follows the rules of movement and does not leave the own king
    /// attacked.
    pub open spec fn strictly_legal(self, m: Move) -> bool {
        &&& m.player == self.player
        &&& self.follows_rule(m)
        &&& !self.position.after_move(m).0.in_check(self.player)
    }
}

/// A king that is not attacked on the square it stepped to stepped to a
/// square that the enemy did not attack once the king had left its square.
#[verifier::rlimit(100)]
pub proof fn lemma_safe_step_was_free(
    all: u64,
    king: u64,
    k: u64,
    q: u64,
    r: u64,
    b: u64,
    n: u64,
    p: u64,
    white: bool,
    to: u64,
)
    by (bit_vector)
    requires
        single(king),
        single(to),
        king & all == king,
        (k | q | r | b | n | p) & !all == 0,
        (k | q | r | b | n | p) & king == 0,
        to & king == 0,
        to & k == 0,
        attackers_among(
            (all & !king) | to,
            k & !to,
            q & !to,
            r & !to,
            b & !to,
            n & !to,
            p & !to,
            white,
            to,
        ) == 0,
    ensures
        to & attacked_among(all ^ king, k, q, r, b, n, p, white) == 0,
{
}

/// A move of another piece after which the king is not attacked was made
/// while at most one piece gave check, and it took that piece or stepped
/// between it and the king.
#[verifier::rlimit(100)]
pub proof fn lemma_safe_move_answered(
    all: u64,
    king: u64,
    k: u64,
    q: u64,
    r: u64,
    b: u64,
    n: u64,
    p: u64,
    white: bool,
    from: u64,
    to: u64,
    c: u64,
)
    by (bit_vector)
    requires
        single(king),
        single(from),
        single(to),
        from & king == 0,
        to & king == 0,
        to & k == 0,
        to & from == 0,
        king & all == king,
        from & all == from,
        (k | q | r | b | n | p) & !all == 0,
        (k | q | r | b | n | p) & (from | king) == 0,
        king_span(king) & k == 0,
        k & q == 0 && k & r == 0 && k & b == 0 && k & n == 0 && k & p == 0,
        q & r == 0 && q & b == 0 && q & n == 0 && q & p == 0,
        r & b == 0 && r & n == 0 && r & p == 0,
        b & n == 0 && b & p == 0 && n & p == 0,
        c == attackers_among(all, k, q, r, b, n, p, white, king),
        attackers_among(
            (all & !from) | to,
            k,
            q & !to,
            r & !to,
            b & !to,
            n & !to,
            p & !to,
            white,
            king,
        ) == 0,
    ensures
        at_most_one(c),
        c != 0 ==> to & answer_mask(king, c, n, p) != 0,
        c & !all == 0,
        c != 0 && c & n == 0 && c & p == 0 ==> blocking_squares(king, c) & all == 0,
{
}

/// A move of another piece after which the king is not attacked kept the
/// piece on the squares that its pin allows.
#[verifier::rlimit(100)]
pub proof fn lemma_safe_move_kept_pin(
    all: u64,
    king: u64,
    k: u64,
    q: u64,
    r: u64,
    b: u64,
    n: u64,
    p: u64,
    white: bool,
    from: u64,
    to: u64,
)
    by (bit_vector)
    requires
        single(king),
        single(from),
        single(to),
        from & king == 0,
        to & king == 0,
        to & from == 0,
        king & all == king,
        from & all == from,
        (k | q | r | b | n | p) & !all == 0,
        (k | q | r | b | n | p) & (from | king) == 0,
        attackers_among(
            (all & !from) | to,
            k,
            q & !to,
            r & !to,
            b & !to,
            n & !to,
            p & !to,
            white,
            king,
        ) == 0,
    ensures
        to & pinned_squares(all, from, king, q | r, q | b) != 0,
{
}

/// A square that lies in each of some sets lies in what they have in
/// common.
#[verifier::rlimit(100)]
pub proof fn lemma_meet_holds(t: u64, a: u64, b: u64, c: u64, d: u64, e: u64)
    by (bit_vector)
    requires
        single(t),
    ensures
        t & a == t && t & b == t && t & c != 0 ==> t & ((a & b) & c) == t,
        t & a == t && t & b == t && t & c == t && t & d != 0 ==> t & (((a & b) & c) & d) == t,
        t & a == t && t & b == t && t & c == t && t & d != 0 && t & e == t ==> t & ((((a & b)
            & c) & d) & e) == t,
        t & a == t && t & b == t && t & c == t && t & d == t && t & e != 0 ==> t & ((((a & b)
            & c) & d) & e) == t,
        ({
            let free = a & (ALL_SQUARES ^ b);
            t & a == t && t & b == 0 && t & c == 0 ==> t & (free ^ (free & c)) == t
        }),
        t & a == t && t & c == 0 ==> t & (a ^ c) == t,
        t & (a | b) != 0 && t & a == 0 ==> t & b == t,
        t & (a | b) == t && t & a == 0 ==> t & b == t,
        t & (a | b) != 0 && t & b == 0 ==> t & a == t,
        t & (ALL_SQUARES | ALL_SQUARES) == t && t & ALL_SQUARES == t,
        t & a != 0 ==> t & a == t,
        t & a == t && t & b == t ==> t & (a | b) == t && t & (a & b) == t,
        t & a == t && a & b == 0 ==> t & b == 0,
        t & a != 0 && a & !b == 0 ==> t & b != 0,
        t & a == t ==> (a & !t) | t == a,
        t & a == 0 ==> t & (ALL_SQUARES ^ a) == t,
        t & 0 == 0,
        0x08u64 & 0x0E == 0x08 && 0x08u64 & 0x38 == 0x08,
        0x0800_0000_0000_0000u64 & 0x0E00_0000_0000_0000 == 0x0800_0000_0000_0000,
        0x0800_0000_0000_0000u64 & 0x3800_0000_0000_0000 == 0x0800_0000_0000_0000,
{
}


/// The plain boards after a move of a piece other than the king that
/// neither castles nor takes en passant, and the attack on the king there.
pub proof fn lemma_after_plain_move(g: GameView, m: Move)
    requires
        g.well_formed(),
        m.player == g.player,
        m.is_castling.is_none(),
        !m.is_capturing_en_passant,
        m.piece != Piece::King,
        single(m.to_square.0),
        m.to_square.0 & g.position.side(!g.player).king.0 == 0,
    ensures
        ({
            let enemy = g.position.side(!g.player);
            let from = m.from_square.0;
            let to = m.to_square.0;
            g.position.after_move(m).0.in_check(g.player) == (attackers_among(
                (g.position.all.0 & !from) | to,
                enemy.king.0,
                enemy.queen.0 & !to,
                enemy.rook.0 & !to,
                enemy.bishop.0 & !to,
                enemy.knight.0 & !to,
                enemy.pawn.0 & !to,
                !g.player,
                g.position.side(g.player).king.0,
            ) != 0)
        }),
{
    reveal(Position::after_move);
    reveal(Position::attackers_of);
    lemma_struck(g.position.side(!g.player), m.to_square.0);
}

/// The plain boards after a step of the king, and the attack on it there.
pub proof fn lemma_after_king_step(g: GameView, m: Move)
    requires
        g.well_formed(),
        m == Move::plain(g.player, Piece::King, g.position.side(g.player).king.0, m.to_square.0),
        single(m.to_square.0),
        m.to_square.0 & g.position.side(!g.player).king.0 == 0,
    ensures
        ({
            let enemy = g.position.side(!g.player);
            let king = g.position.side(g.player).king.0;
            let to = m.to_square.0;
            g.position.after_move(m).0.in_check(g.player) == (attackers_among(
                (g.position.all.0 & !king) | to,
                enemy.king.0 & !to,
                enemy.queen.0 & !to,
                enemy.rook.0 & !to,
                enemy.bishop.0 & !to,
                enemy.knight.0 & !to,
                enemy.pawn.0 & !to,
                !g.player,
                to,
            ) != 0)
        }),
{
    reveal(Position::after_move);
    reveal(Position::attackers_of);
    lemma_struck(g.position.side(!g.player), m.to_square.0);
    lemma_set_algebra(g.position.side(g.player).king.0, m.to_square.0, 0);
}

/// While the other king is not attacked, the two kings do not stand next
/// to each other.
pub proof fn lemma_kings_apart(g: GameView)
    requires
        g.well_formed(),
    ensures
        king_span(g.position.side(g.player).king.0) & g.position.side(!g.player).king.0 == 0,
{
    let own = g.position.side(g.player);
    let enemy = g.position.side(!g.player);
    lemma_context_facts(g);
    lemma_position_facts(g.position, g.player);
    lemma_set_algebra(own.king.0, own.king.0, 0);
    lemma_moves_miss_the_king(
        g.position.all.0,
        own.king.0,
        own.queen.0,
        own.rook.0,
        own.bishop.0,
        own.knight.0,
        own.pawn.0,
        own.all.0,
        enemy.all.0,
        enemy.king.0,
        g.player,
        own.king.0,
    );
}

/// A strictly legal step of the king is listed.
pub proof fn lemma_legal_king_step_listed(g: GameView, m: Move)
    requires
        g.well_formed(),
        g.strictly_legal(m),
        m.is_castling.is_none(),
        m.piece == Piece::King,
    ensures
        g.legal_moves(g.player).contains(m),
{
    let ctx = g.context();
    let own = g.position.side(g.player);
    let enemy = g.position.side(!g.player);
    let all = g.position.all.0;
    let king = own.king.0;
    let to = m.to_square.0;
    let theirs = enemy.king.0 | enemy.queen.0 | enemy.rook.0 | enemy.bishop.0 | enemy.knight.0
        | enemy.pawn.0;
    lemma_context_facts(g);
    lemma_position_facts(g.position, g.player);
    lemma_set_algebra(m.from_square.0, king, 0);
    assert(m.from_square.0 == king);
    lemma_kings_apart(g);
    lemma_target_clear(to, king_span(king), 0, 0, enemy.king.0, 0);
    lemma_set_algebra(to, own.all.0, 0);
    lemma_set_algebra(king, own.all.0, to);
    lemma_set_algebra(theirs, own.all.0, 0);
    lemma_set_algebra(king, own.all.0, theirs);
    lemma_after_king_step(g, m);
    lemma_safe_step_was_free(
        all,
        king,
        enemy.king.0,
        enemy.queen.0,
        enemy.rook.0,
        enemy.bishop.0,
        enemy.knight.0,
        enemy.pawn.0,
        !g.player,
        to,
    );
    lemma_meet_holds(to, king_span(king), ctx.attacked_squares.0, own.all.0, 0, 0);
    lemma_plain_move_listed(g.player, Piece::King, king, ctx.king_targets(), to);
    lemma_in_all_moves(ctx, m);
}

/// What a strictly legal move of a piece other than the king, that neither
/// castles nor takes en passant, tells about the check that is on and about
/// the pin of the piece.
pub proof fn lemma_legal_move_masks(g: GameView, m: Move)
    requires
        g.well_formed(),
        m.player == g.player,
        m.is_castling.is_none(),
        !m.is_capturing_en_passant,
        m.piece != Piece::King,
        single(m.from_square.0),
        single(m.to_square.0),
        m.from_square.0 & g.position.side(g.player).board(m.piece) == m.from_square.0,
        m.to_square.0 & g.position.side(g.player).all.0 == 0,
        m.to_square.0 & g.position.side(!g.player).king.0 == 0,
        !g.position.after_move(m).0.in_check(g.player),
    ensures
        count_squares(g.context().attackers.0) <= 1,
        m.to_square.0 & g.context().pin(m.from_square.0) == m.to_square.0,
        m.to_square.0 & g.context().capture_or_push_mask.0 == m.to_square.0,
        m.to_square.0 & g.position.all.0 == 0 ==> m.to_square.0 & g.context().push_mask.0
            == m.to_square.0,
        m.to_square.0 & g.position.all.0 != 0 ==> m.to_square.0 & g.context().capture_mask.0
            == m.to_square.0,
{
    let ctx = g.context();
    let own = g.position.side(g.player);
    let enemy = g.position.side(!g.player);
    let all = g.position.all.0;
    let king = own.king.0;
    let from = m.from_square.0;
    let to = m.to_square.0;
    let c = ctx.attackers.0;
    let x1 = enemy.queen.0 | enemy.rook.0;
    let x2 = enemy.queen.0 | enemy.bishop.0;
    let theirs = enemy.king.0 | enemy.queen.0 | enemy.rook.0 | enemy.bishop.0 | enemy.knight.0
        | enemy.pawn.0;
    lemma_context_facts(g);
    lemma_position_facts(g.position, g.player);
    lemma_move_premises(from, to, own.board(m.piece), own.all.0, all, theirs, king, x1, x2);
    lemma_set_algebra(to, own.all.0, 0);
    lemma_set_algebra(from, own.all.0, to);
    lemma_kings_apart(g);
    lemma_after_plain_move(g, m);
    lemma_safe_move_answered(
        all,
        king,
        enemy.king.0,
        enemy.queen.0,
        enemy.rook.0,
        enemy.bishop.0,
        enemy.knight.0,
        enemy.pawn.0,
        !g.player,
        from,
        to,
        c,
    );
    lemma_safe_move_kept_pin(
        all,
        king,
        enemy.king.0,
        enemy.queen.0,
        enemy.rook.0,
        enemy.bishop.0,
        enemy.knight.0,
        enemy.pawn.0,
        !g.player,
        from,
        to,
    );
    reveal(MoveContext::pin);
    reveal(MoveContext::of);
    lemma_count_facts(c);
    lemma_meet_holds(to, ctx.pin(from), ctx.capture_or_push_mask.0, 0, 0, 0);
    lemma_meet_holds(to, ctx.capture_or_push_mask.0, 0, 0, 0, 0);
    lemma_meet_holds(to, ctx.capture_mask.0, ctx.push_mask.0, all, 0, 0);
    lemma_meet_holds(to, ctx.push_mask.0, ctx.capture_mask.0, 0, 0, 0);
    lemma_meet_holds(to, all, ctx.push_mask.0, 0, 0, 0);
    lemma_set_algebra(ctx.push_mask.0, all, 0);
    lemma_set_algebra(c, all, 0);
    lemma_meet_holds(to, c, all, 0, 0, 0);
    lemma_set_algebra(to, c, all);
}

/// A strictly legal move of a queen, rook, bishop or knight is listed.
pub proof fn lemma_legal_piece_move_listed(g: GameView, m: Move)
    requires
        g.well_formed(),
        g.strictly_legal(m),
        m.is_castling.is_none(),
        m.piece == Piece::Queen || m.piece == Piece::Rook || m.piece == Piece::Bishop || m.piece
            == Piece::Knight,
    ensures
        g.legal_moves(g.player).contains(m),
{
    let ctx = g.context();
    let own = g.position.side(g.player);
    let enemy = g.position.side(!g.player);
    let all = g.position.all.0;
    let from = m.from_square.0;
    let to = m.to_square.0;
    let mask = ctx.capture_or_push_mask.0;
    let pin = ctx.pin(from);
    let straight = rank_and_file_moves(all, enemy.all.0, from);
    let diagonal = diagonal_moves(all, enemy.all.0, from);
    let jumps = knight_span(from);
    lemma_context_facts(g);
    lemma_position_facts(g.position, g.player);
    lemma_set_algebra(from, own.board(m.piece), own.queen.0 | own.rook.0);
    lemma_set_algebra(from, own.board(m.piece), own.queen.0 | own.bishop.0);
    lemma_set_algebra(from, own.queen.0, own.queen.0 | own.rook.0);
    lemma_set_algebra(from, own.queen.0, own.queen.0 | own.bishop.0);
    lemma_set_algebra(from, own.rook.0, own.queen.0 | own.rook.0);
    lemma_set_algebra(from, own.bishop.0, own.queen.0 | own.bishop.0);
    lemma_set_algebra(from, own.board(m.piece), 0);
    lemma_moves_miss_the_king(
        all,
        own.king.0,
        own.queen.0,
        own.rook.0,
        own.bishop.0,
        own.knight.0,
        own.pawn.0,
        own.all.0,
        enemy.all.0,
        enemy.king.0,
        g.player,
        from,
    );
    lemma_target_clear(to, straight, diagonal, own.all.0, enemy.king.0, 0);
    lemma_target_clear(to, diagonal, 0, own.all.0, enemy.king.0, 0);
    lemma_target_clear(to, jumps, 0, own.all.0, enemy.king.0, 0);
    lemma_legal_move_masks(g, m);
    reveal(MoveContext::queen_targets);
    reveal(MoveContext::rook_targets);
    reveal(MoveContext::bishop_targets);
    lemma_meet_holds(to, mask, straight | diagonal, pin, 0, 0);
    lemma_meet_holds(to, mask, straight, pin, 0, 0);
    lemma_meet_holds(to, mask, diagonal, pin, 0, 0);
    lemma_meet_holds(to, jumps, 0, own.all.0, 0, 0);
    lemma_meet_holds(to, mask, jumps, jumps ^ own.all.0, pin, 0);
    let targets = ctx.targets(m.piece, from);
    assert(to & targets == to);
    lemma_plain_move_listed(g.player, m.piece, from, targets, to);
    lemma_piece_block_listed(ctx, m.piece, own.board(m.piece), from, m);
    lemma_in_all_moves(ctx, m);
}


/// A square behind which the square is empty lies one step ahead of an
/// empty square, and the other way round, for a square that lies one step
/// ahead of some square.
#[verifier::rlimit(100)]
pub proof fn lemma_passed_over(to: u64, all: u64, x: u64)
    by (bit_vector)
    ensures
        to & shift_top(x) == to ==> (shift_bottom(to) & all == 0 <==> to & shift_top(
            ALL_SQUARES ^ all,
        ) == to),
        to & shift_bottom(x) == to ==> (shift_top(to) & all == 0 <==> to & shift_bottom(
            ALL_SQUARES ^ all,
        ) == to),
        to & (shift_left(shift_top(x)) | shift_right(shift_top(x))) == to ==> to & shift_top(
            ALL_SQUARES,
        ) == to && shift_top(shift_bottom(to)) == to,
        to & (shift_left(shift_bottom(x)) | shift_right(shift_bottom(x))) == to ==> to
            & shift_bottom(ALL_SQUARES) == to && shift_bottom(shift_top(to)) == to,
{
}

/// An en-passant capture after which the king is not attacked was made
/// while nothing gave check but, at most, the pawn that is taken, and it
/// kept the capturing pawn on the squares that its pin allows. `white`
/// tells the colour of the side whose pawn is taken.
#[verifier::rlimit(100)]
pub proof fn lemma_safe_en_passant(
    all: u64,
    king: u64,
    k: u64,
    q: u64,
    r: u64,
    b: u64,
    n: u64,
    p: u64,
    white: bool,
    from: u64,
    to: u64,
    behind: u64,
    origin: u64,
    forward: u64,
    c: u64,
)
    by (bit_vector)
    requires
        single(king),
        single(from),
        single(to),
        from & king == 0,
        king & all == king,
        from & all == from,
        (k | q | r | b | n | p) & !all == 0,
        (k | q | r | b | n | p) & (from | king) == 0,
        king_span(king) & k == 0,
        k & q == 0 && k & r == 0 && k & b == 0 && k & n == 0 && k & p == 0,
        q & r == 0 && q & b == 0 && q & n == 0 && q & p == 0,
        r & b == 0 && r & n == 0 && r & p == 0,
        b & n == 0 && b & p == 0 && n & p == 0,
        behind == (if white {
            shift_top(to)
        } else {
            shift_bottom(to)
        }),
        origin == (if white {
            shift_bottom(to)
        } else {
            shift_top(to)
        }),
        forward == (if white {
            shift_bottom(from)
        } else {
            shift_top(from)
        }),
        behind & p != 0,
        to & all == 0,
        origin & all == 0,
        to & (shift_left(forward) | shift_right(forward)) == to,
        attackers_among(
            (all & !behind) | origin,
            k,
            q,
            r,
            b,
            n,
            (p & !behind) | origin,
            white,
            king,
        ) == 0,
        attackers_among(
            ((all & !from) | to) & !behind,
            k,
            q,
            r,
            b,
            n,
            p & !behind,
            white,
            king,
        ) == 0,
        c == attackers_among(all, k, q, r, b, n, p, white, king),
    ensures
        c == 0 || c == behind,
        single(behind),
        to & pinned_squares(all, from, king, q | r, q | b) != 0,
{
}

} // verus!
