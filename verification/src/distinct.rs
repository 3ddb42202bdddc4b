//! No move is listed twice.

use vstd::prelude::*;
use crate::bitboard::{
    lemma_lowest, lowest_square, shift_bottom, shift_left, shift_right, shift_top, single,
    without_lowest,
};
use crate::chess_move::{Move};
use crate::counting::{at_most_one, lemma_at_most_one, lemma_one_square};
use crate::legality::{
    lemma_contains_concat, lemma_in_pawn_moves, lemma_in_pawn_step, lemma_in_piece_moves,
    lemma_in_plain_moves, lemma_pawn_move_from, lemma_set_algebra,
};
use crate::movegen::{pawn_step_moves, plain_moves, MoveContext, RANK_3, RANK_6};
use crate::piece::Piece;

verus! {

/// Two lists without repetition that share no move make, one after the
/// other, a list without repetition.
pub proof fn lemma_concat_distinct(a: Seq<Move>, b: Seq<Move>)
    requires
        a.no_duplicates(),
        b.no_duplicates(),
        forall|m: Move| a.contains(m) ==> !b.contains(m),
    ensures
        (a + b).no_duplicates(),
{
    assert forall|i: int, j: int| 0 <= i < (a + b).len() && 0 <= j < (a + b).len() && i
        != j implies (a + b)[i] != (a + b)[j] by {
        if i < a.len() && j >= a.len() {
            assert(a.contains(a[i]));
            assert(b.contains(b[j - a.len()]));
        } else if j < a.len() && i >= a.len() {
            assert(a.contains(a[j]));
            assert(b.contains(b[i - a.len()]));
        }
    }
}

#[verifier::rlimit(100)]
proof fn lemma_pawn_squares_apart(w: u64, t: u64, x: u64)
    by (bit_vector)
    requires
        at_most_one(w),
        t != 0,
    ensures
        !(t & w == t && t & shift_left(w) == t),
        !(t & w == t && t & shift_right(w) == t),
        !(t & shift_left(w) == t && t & shift_right(w) == t),
        t & shift_top(x & RANK_3) == t ==> shift_bottom(t) != 0,
        t & shift_bottom(x & RANK_6) == t ==> shift_top(t) != 0,
{
}

/// The plain moves of one piece are listed once each.
pub proof fn lemma_plain_moves_distinct(player: bool, piece: Piece, from: u64, targets: u64)
    ensures
        plain_moves(player, piece, from, targets).no_duplicates(),
    decreases targets,
{
    if targets != 0 {
        lemma_lowest(targets);
        let low = lowest_square(targets);
        let first = seq![Move::plain(player, piece, from, low)];
        let rest = plain_moves(player, piece, from, without_lowest(targets));
        lemma_plain_moves_distinct(player, piece, from, without_lowest(targets));
        assert forall|m: Move| first.contains(m) implies !rest.contains(m) by {
            if rest.contains(m) {
                let i = choose|i: int| 0 <= i < first.len() && first[i] == m;
                assert(first[i] == m);
                lemma_in_plain_moves(player, piece, from, without_lowest(targets), m);
                lemma_set_algebra(without_lowest(targets), low, 0);
            }
        }
        lemma_concat_distinct(first, rest);
    }
}

/// The plain moves of the pieces of one kind are listed once each.
pub proof fn lemma_piece_moves_distinct(ctx: MoveContext, piece: Piece, pieces: u64)
    ensures
        ctx.piece_moves(piece, pieces).no_duplicates(),
    decreases pieces,
{
    if pieces != 0 {
        lemma_lowest(pieces);
        let low = lowest_square(pieces);
        let first = plain_moves(ctx.player, piece, low, ctx.targets(piece, low));
        let rest = ctx.piece_moves(piece, without_lowest(pieces));
        lemma_plain_moves_distinct(ctx.player, piece, low, ctx.targets(piece, low));
        lemma_piece_moves_distinct(ctx, piece, without_lowest(pieces));
        assert forall|m: Move| first.contains(m) implies !rest.contains(m) by {
            if rest.contains(m) {
                lemma_in_plain_moves(ctx.player, piece, low, ctx.targets(piece, low), m);
                lemma_in_piece_moves(ctx, piece, without_lowest(pieces), m);
                lemma_set_algebra(without_lowest(pieces), low, 0);
            }
        }
        lemma_concat_distinct(first, rest);
    }
}

/// The moves of one pawn are listed once each.
pub proof fn lemma_moves_of_pawn_distinct(ctx: MoveContext, from: u64)
    requires
        single(from),
    ensures
        ctx.moves_of_pawn(from).no_duplicates(),
{
    let p = ctx.player;
    let forward = ctx.forward(from);
    let one = ctx.pawn_single_target(from);
    let left = ctx.pawn_attack_left(from);
    let right = ctx.pawn_attack_right(from);
    let two = ctx.pawn_double_target(from);
    let a = pawn_step_moves(p, from, one);
    let b = pawn_step_moves(p, from, left);
    let c = pawn_step_moves(p, from, right);
    let d = ctx.double_push_moves(from);
    let e = ctx.en_passant_moves(from);
    lemma_one_square(from);
    lemma_at_most_one(from, 0);
    let pin = ctx.pin(from);
    let empty = ctx.empty_squares.0;
    let rank = if p {
        RANK_3
    } else {
        RANK_6
    };
    crate::legality::lemma_subset_of_meet(one, forward, empty, pin, ctx.push_mask.0, 0);
    crate::legality::lemma_subset_of_meet(
        left,
        shift_left(forward),
        ctx.enemy_pieces.0,
        pin,
        ctx.capture_mask.0,
        0,
    );
    crate::legality::lemma_subset_of_meet(
        right,
        shift_right(forward),
        ctx.enemy_pieces.0,
        pin,
        ctx.capture_mask.0,
        0,
    );
    crate::legality::lemma_subset_of_meet(
        two,
        ctx.forward(forward & rank),
        empty,
        ctx.forward(empty),
        pin,
        ctx.push_mask.0,
    );
    lemma_set_algebra(one, 0, 0);
    lemma_set_algebra(left, 0, 0);
    lemma_set_algebra(right, 0, 0);
    lemma_set_algebra(two, 0, 0);
    if one != 0 {
        lemma_pawn_squares_apart(forward, one, 0);
    }
    if left != 0 {
        lemma_pawn_squares_apart(forward, left, 0);
    }
    if two != 0 {
        lemma_pawn_squares_apart(forward, two, forward);
    }
    assert(a.no_duplicates());
    assert(b.no_duplicates());
    assert(c.no_duplicates());
    assert(d.no_duplicates());
    assert(e.no_duplicates());
    assert forall|m: Move| a.contains(m) implies !b.contains(m) by {
        if b.contains(m) {
            lemma_in_pawn_step(p, from, one, m);
            lemma_in_pawn_step(p, from, left, m);
        }
    }
    lemma_concat_distinct(a, b);
    assert forall|m: Move| (a + b).contains(m) implies !c.contains(m) by {
        if c.contains(m) {
            lemma_contains_concat(a, b, m);
            lemma_in_pawn_step(p, from, right, m);
            if a.contains(m) {
                lemma_in_pawn_step(p, from, one, m);
            } else {
                lemma_in_pawn_step(p, from, left, m);
            }
        }
    }
    lemma_concat_distinct(a + b, c);
    assert forall|m: Move| (a + b + c).contains(m) implies !d.contains(m) by {
        if d.contains(m) {
            assert(d[0] == m);
            lemma_contains_concat(a + b, c, m);
            if c.contains(m) {
                lemma_in_pawn_step(p, from, right, m);
            } else {
                lemma_contains_concat(a, b, m);
                if a.contains(m) {
                    lemma_in_pawn_step(p, from, one, m);
                } else {
                    lemma_in_pawn_step(p, from, left, m);
                }
            }
        }
    }
    lemma_concat_distinct(a + b + c, d);
    assert forall|m: Move| (a + b + c + d).contains(m) implies !e.contains(m) by {
        if e.contains(m) {
            assert(e[0] == m);
            lemma_contains_concat(a + b + c, d, m);
            if d.contains(m) {
                assert(d[0] == m);
            } else {
                lemma_contains_concat(a + b, c, m);
                if c.contains(m) {
                    lemma_in_pawn_step(p, from, right, m);
                } else {
                    lemma_contains_concat(a, b, m);
                    if a.contains(m) {
                        lemma_in_pawn_step(p, from, one, m);
                    } else {
                        lemma_in_pawn_step(p, from, left, m);
                    }
                }
            }
        }
    }
    lemma_concat_distinct(a + b + c + d, e);
}

/// The moves of the pawns are listed once each.
pub proof fn lemma_pawn_moves_distinct(ctx: MoveContext, pawns: u64)
    ensures
        ctx.pawn_moves(pawns).no_duplicates(),
    decreases pawns,
{
    if pawns != 0 {
        lemma_lowest(pawns);
        let low = lowest_square(pawns);
        let first = ctx.moves_of_pawn(low);
        let rest = ctx.pawn_moves(without_lowest(pawns));
        lemma_moves_of_pawn_distinct(ctx, low);
        lemma_pawn_moves_distinct(ctx, without_lowest(pawns));
        assert forall|m: Move| first.contains(m) implies !rest.contains(m) by {
            if rest.contains(m) {
                lemma_pawn_move_from(ctx, low, m);
                lemma_in_pawn_moves(ctx, without_lowest(pawns), m);
                lemma_set_algebra(without_lowest(pawns), low, 0);
            }
        }
        lemma_concat_distinct(first, rest);
    }
}

/// No move is listed twice.
pub proof fn lemma_all_moves_distinct(ctx: MoveContext)
    ensures
        ctx.all_moves().no_duplicates(),
{
    let own = ctx.position.side(ctx.player);
    let p = ctx.player;
    let king = plain_moves(p, Piece::King, ctx.king.0, ctx.king_targets());
    let queens = ctx.piece_moves(Piece::Queen, own.queen.0);
    let rooks = ctx.piece_moves(Piece::Rook, own.rook.0);
    let bishops = ctx.piece_moves(Piece::Bishop, own.bishop.0);
    let knights = ctx.piece_moves(Piece::Knight, own.knight.0);
    let pawns = ctx.pawn_moves(own.pawn.0);
    let castles = ctx.castle_moves();
    lemma_plain_moves_distinct(p, Piece::King, ctx.king.0, ctx.king_targets());
    lemma_piece_moves_distinct(ctx, Piece::Queen, own.queen.0);
    lemma_piece_moves_distinct(ctx, Piece::Rook, own.rook.0);
    lemma_piece_moves_distinct(ctx, Piece::Bishop, own.bishop.0);
    lemma_piece_moves_distinct(ctx, Piece::Knight, own.knight.0);
    lemma_pawn_moves_distinct(ctx, own.pawn.0);
    assert(castles.no_duplicates());
    assert forall|m: Move| king.contains(m) implies m.piece == Piece::King
        && m.is_castling.is_none() by {
        lemma_in_plain_moves(p, Piece::King, ctx.king.0, ctx.king_targets(), m);
    }
    assert forall|m: Move| queens.contains(m) implies m.piece == Piece::Queen by {
        lemma_in_piece_moves(ctx, Piece::Queen, own.queen.0, m);
    }
    assert forall|m: Move| rooks.contains(m) implies m.piece == Piece::Rook by {
        lemma_in_piece_moves(ctx, Piece::Rook, own.rook.0, m);
    }
    assert forall|m: Move| bishops.contains(m) implies m.piece == Piece::Bishop by {
        lemma_in_piece_moves(ctx, Piece::Bishop, own.bishop.0, m);
    }
    assert forall|m: Move| knights.contains(m) implies m.piece == Piece::Knight by {
        lemma_in_piece_moves(ctx, Piece::Knight, own.knight.0, m);
    }
    assert forall|m: Move| pawns.contains(m) implies m.piece == Piece::Pawn by {
        lemma_in_pawn_moves(ctx, own.pawn.0, m);
        lemma_pawn_piece(ctx, m.from_square.0, m);
    }
    assert forall|m: Move| castles.contains(m) implies m.is_castling.is_some() by {
        let i = choose|i: int| 0 <= i < castles.len() && castles[i] == m;
        assert(castles[i] == m);
    }
    assert forall|m: Move| king.contains(m) implies !queens.contains(m) by {}
    lemma_concat_distinct(king, queens);
    assert forall|m: Move| (king + queens).contains(m) implies !rooks.contains(m) by {
        if rooks.contains(m) {
            lemma_contains_concat(king, queens, m);
        }
    }
    lemma_concat_distinct(king + queens, rooks);
    assert forall|m: Move| (king + queens + rooks).contains(m) implies !bishops.contains(m) by {
        if bishops.contains(m) {
            lemma_contains_concat(king + queens, rooks, m);
            lemma_contains_concat(king, queens, m);
        }
    }
    lemma_concat_distinct(king + queens + rooks, bishops);
    assert forall|m: Move| (king + queens + rooks + bishops).contains(m) implies !knights.contains(
        m,
    ) by {
        if knights.contains(m) {
            lemma_contains_concat(king + queens + rooks, bishops, m);
            lemma_contains_concat(king + queens, rooks, m);
            lemma_contains_concat(king, queens, m);
        }
    }
    lemma_concat_distinct(king + queens + rooks + bishops, knights);
    assert forall|m: Move| (king + queens + rooks + bishops + knights).contains(
        m,
    ) implies !pawns.contains(m) by {
        if pawns.contains(m) {
            lemma_contains_concat(king + queens + rooks + bishops, knights, m);
            lemma_contains_concat(king + queens + rooks, bishops, m);
            lemma_contains_concat(king + queens, rooks, m);
            lemma_contains_concat(king, queens, m);
        }
    }
    lemma_concat_distinct(king + queens + rooks + bishops + knights, pawns);
    assert forall|m: Move| (king + queens + rooks + bishops + knights + pawns).contains(
        m,
    ) implies !castles.contains(m) by {
        if castles.contains(m) {
            lemma_contains_concat(king + queens + rooks + bishops + knights, pawns, m);
            lemma_contains_concat(king + queens + rooks + bishops, knights, m);
            lemma_contains_concat(king + queens + rooks, bishops, m);
            lemma_contains_concat(king + queens, rooks, m);
            lemma_contains_concat(king, queens, m);
            if pawns.contains(m) {
                lemma_in_pawn_moves(ctx, own.pawn.0, m);
                lemma_pawn_piece(ctx, m.from_square.0, m);
            }
            if queens.contains(m) {
                lemma_in_piece_moves(ctx, Piece::Queen, own.queen.0, m);
            }
            if rooks.contains(m) {
                lemma_in_piece_moves(ctx, Piece::Rook, own.rook.0, m);
            }
            if bishops.contains(m) {
                lemma_in_piece_moves(ctx, Piece::Bishop, own.bishop.0, m);
            }
            if knights.contains(m) {
                lemma_in_piece_moves(ctx, Piece::Knight, own.knight.0, m);
            }
        }
    }
    lemma_concat_distinct(king + queens + rooks + bishops + knights + pawns, castles);
}

/// A move of a pawn is made by a pawn and does not castle.
proof fn lemma_pawn_piece(ctx: MoveContext, from: u64, m: Move)
    requires
        ctx.lists_for_pawn(from, m),
    ensures
        m.piece == Piece::Pawn,
        m.is_castling.is_none(),
{
    if ctx.en_passant_moves(from).contains(m) {
        assert(ctx.en_passant_moves(from)[0] == m);
    } else if ctx.double_push_moves(from).contains(m) {
        assert(ctx.double_push_moves(from)[0] == m);
    } else if pawn_step_moves(ctx.player, from, ctx.pawn_single_target(from)).contains(m) {
        lemma_in_pawn_step(ctx.player, from, ctx.pawn_single_target(from), m);
    } else if pawn_step_moves(ctx.player, from, ctx.pawn_attack_left(from)).contains(m) {
        lemma_in_pawn_step(ctx.player, from, ctx.pawn_attack_left(from), m);
    } else {
        lemma_in_pawn_step(ctx.player, from, ctx.pawn_attack_right(from), m);
    }
}

} // verus!
