//! The listed moves are exactly the strictly legal moves.

use vstd::prelude::*;
use crate::attacks::{lemma_king_step_safe, lemma_moves_miss_the_king};
use crate::bitboard::{king_span, knight_span, shift_left, shift_right, single};
use crate::chess_move::{Castle, Move};
use crate::counting::{lemma_at_most_one, lemma_one_square};
use crate::game::GameView;
use crate::invariants::{lemma_single_in_or_out};
use crate::legality::{
    lemma_castle_legal, lemma_move_premises, lemma_concat_contains, lemma_contains_concat,
    lemma_context_facts, lemma_count_facts, lemma_in_pawn_step, lemma_listed,
    lemma_listed_move_is_legal, lemma_passed_square, lemma_pawn_block_listed, lemma_position_facts,
    lemma_set_algebra, lemma_step_in_block, lemma_subset_of_meet, lemma_target_clear,
};
use crate::movegen::{
    diagonal_moves, pawn_step_moves, promotion_rank, rank_and_file_moves, MoveContext, RANK_3,
    RANK_6,
};
use crate::piece::{Piece, PromotionPiece};
use crate::position::Position;
use crate::reflection::lemma_in_all_moves;
use crate::rules::{
    castle_path, lemma_kings_apart, lemma_legal_king_step_listed, lemma_legal_move_masks,
    lemma_legal_piece_move_listed, lemma_meet_holds, lemma_passed_over, lemma_safe_en_passant,
};

verus! {

/// A double push or an en-passant capture of a pawn is among the moves of
/// that pawn.
proof fn lemma_part_in_block(ctx: MoveContext, from: u64, m: Move)
    requires
        ctx.double_push_moves(from).contains(m) || ctx.en_passant_moves(from).contains(m),
    ensures
        ctx.moves_of_pawn(from).contains(m),
{
    let a = pawn_step_moves(ctx.player, from, ctx.pawn_single_target(from));
    let b = pawn_step_moves(ctx.player, from, ctx.pawn_attack_left(from));
    let c = pawn_step_moves(ctx.player, from, ctx.pawn_attack_right(from));
    let d = ctx.double_push_moves(from);
    let e = ctx.en_passant_moves(from);
    if d.contains(m) {
        lemma_concat_contains(a + b + c, d, m);
    }
    lemma_concat_contains(a + b + c + d, e, m);
}

/// What the squares ahead of a pawn hold at most.
proof fn lemma_pawn_targets_small(ctx: MoveContext, from: u64)
    requires
        single(from),
    ensures
        ctx.pawn_single_target(from) == 0 || single(ctx.pawn_single_target(from)),
        ctx.pawn_attack_left(from) == 0 || single(ctx.pawn_attack_left(from)),
        ctx.pawn_attack_right(from) == 0 || single(ctx.pawn_attack_right(from)),
        ctx.pawn_double_target(from) == 0 || single(ctx.pawn_double_target(from)),
{
    let forward = ctx.forward(from);
    let pin = ctx.pin(from);
    let empty = ctx.empty_squares.0;
    lemma_one_square(from);
    lemma_at_most_one(from, 0);
    lemma_at_most_one(forward, empty);
    lemma_at_most_one(forward & empty, pin);
    lemma_at_most_one(forward & empty & pin, ctx.push_mask.0);
    lemma_at_most_one(forward & empty & pin & ctx.push_mask.0, 0);
    let left = shift_left(forward);
    let right = shift_right(forward);
    lemma_at_most_one(left, ctx.enemy_pieces.0);
    lemma_at_most_one(left & ctx.enemy_pieces.0, pin);
    lemma_at_most_one(left & ctx.enemy_pieces.0 & pin, ctx.capture_mask.0);
    lemma_at_most_one(left & ctx.enemy_pieces.0 & pin & ctx.capture_mask.0, 0);
    lemma_at_most_one(right, ctx.enemy_pieces.0);
    lemma_at_most_one(right & ctx.enemy_pieces.0, pin);
    lemma_at_most_one(right & ctx.enemy_pieces.0 & pin, ctx.capture_mask.0);
    lemma_at_most_one(right & ctx.enemy_pieces.0 & pin & ctx.capture_mask.0, 0);
    let rank = if ctx.player {
        RANK_3
    } else {
        RANK_6
    };
    lemma_at_most_one(forward, rank);
    lemma_at_most_one(forward & rank, 0);
    let ahead = ctx.forward(forward & rank);
    lemma_at_most_one(ahead, empty);
    lemma_at_most_one(ahead & empty, ctx.forward(empty));
    lemma_at_most_one(ahead & empty & ctx.forward(empty), pin);
    lemma_at_most_one(ahead & empty & ctx.forward(empty) & pin, ctx.push_mask.0);
    lemma_at_most_one(ahead & empty & ctx.forward(empty) & pin & ctx.push_mask.0, 0);
}

/// A strictly legal push or capture of a pawn is listed.
proof fn lemma_legal_pawn_step_listed(g: GameView, m: Move)
    requires
        g.well_formed(),
        g.strictly_legal(m),
        m.is_castling.is_none(),
        m.piece == Piece::Pawn,
        !m.is_capturing_en_passant,
        m.en_passant_square.0 == 0,
    ensures
        g.legal_moves(g.player).contains(m),
{
    let ctx = g.context();
    let own = g.position.side(g.player);
    let enemy = g.position.side(!g.player);
    let all = g.position.all.0;
    let from = m.from_square.0;
    let to = m.to_square.0;
    let forward = ctx.forward(from);
    let left = shift_left(forward);
    let right = shift_right(forward);
    let pin = ctx.pin(from);
    lemma_context_facts(g);
    lemma_position_facts(g.position, g.player);
    lemma_position_facts(g.position, !g.player);
    lemma_set_algebra(from, own.pawn.0, 0);
    lemma_moves_miss_the_king(
        all,
        own.king.0,
        own.queen.0,
        own.rook.0,
        own.bishop.0,
        own.knight.0,
        own.pawn.0,
        own.all.0,
        enemy.all.0,
        enemy.king.0,
        g.player,
        from,
    );
    lemma_single_in_or_out(to, left);
    lemma_meet_holds(to, left, right, 0, 0, 0);
    lemma_target_clear(to, left, 0, 0, enemy.king.0, 0);
    lemma_target_clear(to, right, 0, 0, enemy.king.0, 0);
    lemma_target_clear(to, 0, 0, own.all.0, enemy.king.0, all);
    lemma_legal_move_masks(g, m);
    lemma_pawn_targets_small(ctx, from);
    lemma_meet_holds(to, all, 0, 0, 0, 0);
    lemma_meet_holds(to, enemy.all.0, all, 0, 0, 0);
    let target = if to & all == 0 {
        lemma_meet_holds(to, forward, ctx.empty_squares.0, pin, ctx.push_mask.0, 0);
        ctx.pawn_single_target(from)
    } else if to & left == to {
        lemma_meet_holds(to, left, ctx.enemy_pieces.0, pin, ctx.capture_mask.0, 0);
        ctx.pawn_attack_left(from)
    } else {
        lemma_meet_holds(to, right, ctx.enemy_pieces.0, pin, ctx.capture_mask.0, 0);
        ctx.pawn_attack_right(from)
    };
    assert(to & target == to);
    lemma_set_algebra(to, target, 0);
    assert(target == to);
    let block = pawn_step_moves(g.player, from, target);
    if to & promotion_rank(g.player) != 0 {
        match m.is_promoting_to.unwrap() {
            PromotionPiece::Queen => {
                assert(block[0] == m);
            },
            PromotionPiece::Rook => {
                assert(block[1] == m);
            },
            PromotionPiece::Bishop => {
                assert(block[2] == m);
            },
            PromotionPiece::Knight => {
                assert(block[3] == m);
            },
        }
    } else {
        assert(block[0] == m);
    }
    lemma_step_in_block(ctx, from, target, m);
    lemma_pawn_block_listed(ctx, own.pawn.0, from, m);
    lemma_in_all_moves(ctx, m);
}

/// A strictly legal double push of a pawn is listed.
proof fn lemma_legal_double_push_listed(g: GameView, m: Move)
    requires
        g.well_formed(),
        g.strictly_legal(m),
        m.is_castling.is_none(),
        m.piece == Piece::Pawn,
        !m.is_capturing_en_passant,
        m.en_passant_square.0 != 0,
    ensures
        g.legal_moves(g.player).contains(m),
{
    let ctx = g.context();
    let own = g.position.side(g.player);
    let enemy = g.position.side(!g.player);
    let all = g.position.all.0;
    let from = m.from_square.0;
    let to = m.to_square.0;
    let forward = ctx.forward(from);
    let pin = ctx.pin(from);
    let empty = ctx.empty_squares.0;
    let rank = if g.player {
        RANK_3
    } else {
        RANK_6
    };
    let ahead = ctx.forward(forward & rank);
    lemma_context_facts(g);
    lemma_position_facts(g.position, g.player);
    lemma_set_algebra(from, own.pawn.0, 0);
    lemma_target_clear(to, 0, 0, own.all.0, enemy.king.0, all);
    lemma_legal_move_masks(g, m);
    lemma_pawn_targets_small(ctx, from);
    lemma_meet_holds(to, all, 0, 0, 0, 0);
    lemma_passed_over(to, all, forward & rank);
    lemma_meet_holds(to, ahead, empty, ctx.forward(empty), pin, ctx.push_mask.0);
    let target = ctx.pawn_double_target(from);
    assert(to & target == to);
    lemma_set_algebra(to, target, 0);
    assert(ctx.double_push_moves(from)[0] == m);
    lemma_part_in_block(ctx, from, m);
    lemma_pawn_block_listed(ctx, own.pawn.0, from, m);
    lemma_in_all_moves(ctx, m);
}

/// A castling move that follows the rules is listed.
proof fn lemma_legal_castle_listed(g: GameView, m: Move)
    requires
        g.well_formed(),
        g.strictly_legal(m),
        m.is_castling.is_some(),
    ensures
        g.legal_moves(g.player).contains(m),
{
    let ctx = g.context();
    let own = g.position.side(g.player);
    let enemy = g.position.side(!g.player);
    let all = g.position.all.0;
    let king = own.king.0;
    let side = m.is_castling.unwrap();
    let theirs = enemy.king.0 | enemy.queen.0 | enemy.rook.0 | enemy.bishop.0 | enemy.knight.0
        | enemy.pawn.0;
    lemma_context_facts(g);
    lemma_position_facts(g.position, g.player);
    reveal(MoveContext::of);
    assert(ctx.attacked_squares.0 == g.position.attacked_by(!g.player));
    // The king stands on its home square, which is on its path: it is not in check.
    lemma_meet_holds(king, all, 0, 0, 0, 0);
    lemma_set_algebra(ctx.attacked_squares.0, castle_path(g.player, side), 0);
    lemma_set_algebra(king, castle_path(g.player, side), ctx.attacked_squares.0);
    lemma_set_algebra(theirs, own.all.0, 0);
    lemma_set_algebra(king, own.all.0, theirs);
    lemma_set_algebra(king, theirs, 0);
    lemma_set_algebra(king, enemy.king.0, 0);
    lemma_king_step_safe(
        all,
        king,
        enemy.king.0,
        enemy.queen.0,
        enemy.rook.0,
        enemy.bishop.0,
        enemy.knight.0,
        enemy.pawn.0,
        !g.player,
        king,
    );
    lemma_position_facts(g.position, !g.player);
    lemma_unstruck(king, enemy.king.0, enemy.all.0, own.all.0);
    lemma_unstruck(king, enemy.queen.0, enemy.all.0, own.all.0);
    lemma_unstruck(king, enemy.rook.0, enemy.all.0, own.all.0);
    lemma_unstruck(king, enemy.bishop.0, enemy.all.0, own.all.0);
    lemma_unstruck(king, enemy.knight.0, enemy.all.0, own.all.0);
    lemma_unstruck(king, enemy.pawn.0, enemy.all.0, own.all.0);
    lemma_count_facts(ctx.attackers.0);
    assert(ctx.attackers.0 == 0);
    match side {
        Castle::Kingside => {
            assert(ctx.can_castle_kingside());
            assert(ctx.castle_moves()[0] == m);
        },
        Castle::Queenside => {
            assert(ctx.can_castle_queenside());
            let first: Seq<Move> = if ctx.can_castle_kingside() {
                seq![Move::castling(ctx.player, Castle::Kingside)]
            } else {
                Seq::empty()
            };
            let second = seq![Move::castling(ctx.player, Castle::Queenside)];
            assert(second[0] == m);
            lemma_concat_contains(first, second, m);
        },
    }
    lemma_in_all_moves(ctx, m);
}

/// A board of one side loses nothing when the king of the other side is
/// taken from it.
proof fn lemma_unstruck(king: u64, board: u64, side: u64, own: u64)
    requires
        board & side == board,
        own & side == 0,
        king & own == king,
    ensures
        board & !king == board,
{
    lemma_set_algebra(own, side, 0);
    lemma_set_algebra(board, side, own);
    lemma_set_algebra(king, own, board);
    lemma_set_algebra(king, board, 0);
}


/// A strictly legal en-passant capture is listed.
proof fn lemma_legal_en_passant_listed(g: GameView, m: Move)
    requires
        g.well_formed(),
        g.strictly_legal(m),
        m.is_castling.is_none(),
        m.piece == Piece::Pawn,
        m.is_capturing_en_passant,
    ensures
        g.legal_moves(g.player).contains(m),
{
    let ctx = g.context();
    let own = g.position.side(g.player);
    let enemy = g.position.side(!g.player);
    let all = g.position.all.0;
    let king = own.king.0;
    let from = m.from_square.0;
    let to = m.to_square.0;
    let forward = ctx.forward(from);
    let beside = shift_left(forward) | shift_right(forward);
    let pin = ctx.pin(from);
    let behind = Position::behind(g.player, to);
    let origin = Position::behind(!g.player, to);
    let c = ctx.attackers.0;
    let x1 = enemy.queen.0 | enemy.rook.0;
    let x2 = enemy.queen.0 | enemy.bishop.0;
    let theirs = enemy.king.0 | enemy.queen.0 | enemy.rook.0 | enemy.bishop.0 | enemy.knight.0
        | enemy.pawn.0;
    lemma_context_facts(g);
    lemma_position_facts(g.position, g.player);
    lemma_position_facts(g.position, !g.player);
    lemma_kings_apart(g);
    lemma_move_premises(from, to, own.pawn.0, own.all.0, all, theirs, king, x1, x2);
    lemma_untouched(to, enemy.pawn.0, enemy.all.0, all);
    lemma_untouched(to, enemy.knight.0, enemy.all.0, all);
    lemma_untouched(to, enemy.bishop.0, enemy.all.0, all);
    lemma_untouched(to, enemy.rook.0, enemy.all.0, all);
    lemma_untouched(to, enemy.queen.0, enemy.all.0, all);
    reveal(Position::after_move);
    reveal(Position::attackers_of);
    lemma_safe_en_passant(
        all,
        king,
        enemy.king.0,
        enemy.queen.0,
        enemy.rook.0,
        enemy.bishop.0,
        enemy.knight.0,
        enemy.pawn.0,
        !g.player,
        from,
        to,
        behind,
        origin,
        forward,
        c,
    );
    reveal(MoveContext::pin);
    reveal(MoveContext::of);
    lemma_count_facts(c);
    lemma_passed_over(to, all, from);
    lemma_set_algebra(to, 0, 0);
    lemma_meet_holds(to, pin, 0, 0, 0, 0);
    let ahead_of_mask = ctx.forward(ctx.capture_mask.0);
    assert(to & ahead_of_mask == to);
    lemma_meet_holds(to, beside, to, pin, ahead_of_mask, 0);
    let candidate = ctx.en_passant_candidate(from);
    assert(to & candidate == to);
    lemma_set_algebra(candidate, 0, 0);
    lemma_subset_of_meet(candidate, beside, to, pin, ahead_of_mask, 0);
    lemma_set_algebra(to, candidate, 0);
    lemma_set_algebra(candidate, to, 0);
    assert(candidate == to);
    assert(ctx.en_passant_moves(from)[0] == m);
    lemma_part_in_block(ctx, from, m);
    lemma_pawn_block_listed(ctx, own.pawn.0, from, m);
    lemma_in_all_moves(ctx, m);
}

/// An empty square is on no board of a side.
proof fn lemma_untouched(to: u64, board: u64, side: u64, all: u64)
    requires
        to & all == 0,
        board & side == board,
        side & !all == 0,
    ensures
        to & board == 0,
{
    lemma_set_algebra(board, side, all);
    lemma_set_algebra(to, all, 0);
    lemma_set_algebra(board, all, to);
}

/// Every strictly legal move is listed.
pub proof fn lemma_legal_move_is_listed(g: GameView, m: Move)
    requires
        g.well_formed(),
        g.strictly_legal(m),
    ensures
        g.legal_moves(g.player).contains(m),
{
    if m.is_castling.is_some() {
        lemma_legal_castle_listed(g, m);
    } else if m.piece == Piece::King {
        lemma_legal_king_step_listed(g, m);
    } else if m.piece == Piece::Pawn {
        if m.is_capturing_en_passant {
            lemma_legal_en_passant_listed(g, m);
        } else if m.en_passant_square.0 != 0 {
            lemma_legal_double_push_listed(g, m);
        } else {
            lemma_legal_pawn_step_listed(g, m);
        }
    } else {
        lemma_legal_piece_move_listed(g, m);
    }
}


/// A listed move of a pawn follows the rules of movement.
proof fn lemma_listed_pawn_move_follows_rule(g: GameView, m: Move)
    requires
        g.well_formed(),
        m.fits(g.position),
        m.player == g.player,
        single(m.from_square.0),
        m.from_square.0 & g.position.side(g.player).pawn.0 == m.from_square.0,
        g.context().lists_for_pawn(m.from_square.0, m),
    ensures
        m.piece == Piece::Pawn,
        m.is_castling.is_none(),
        g.pawn_follows_rule(m),
{
    let ctx = g.context();
    let own = g.position.side(g.player);
    let enemy = g.position.side(!g.player);
    let all = g.position.all.0;
    let from = m.from_square.0;
    let to = m.to_square.0;
    let forward = ctx.forward(from);
    let left = shift_left(forward);
    let right = shift_right(forward);
    let pin = ctx.pin(from);
    let empty = ctx.empty_squares.0;
    lemma_context_facts(g);
    lemma_set_algebra(to, 0, 0);
    lemma_set_algebra(to, all, 0);
    if ctx.en_passant_moves(from).contains(m) {
        assert(ctx.en_passant_moves(from)[0] == m);
        let target = g.en_passant_square.0;
        lemma_subset_of_meet(to, left | right, target, pin, ctx.forward(ctx.capture_mask.0), 0);
        lemma_set_algebra(to, target, 0);
    } else if ctx.double_push_moves(from).contains(m) {
        assert(ctx.double_push_moves(from)[0] == m);
        let rank = if g.player {
            RANK_3
        } else {
            RANK_6
        };
        let ahead = ctx.forward(forward & rank);
        lemma_subset_of_meet(to, ahead, empty, ctx.forward(empty), pin, ctx.push_mask.0);
        lemma_passed_square(from, to, all, 0, g.player);
        lemma_passed_over(to, all, forward & rank);
    } else {
        let target = if pawn_step_moves(g.player, from, ctx.pawn_single_target(from)).contains(
            m,
        ) {
            ctx.pawn_single_target(from)
        } else if pawn_step_moves(g.player, from, ctx.pawn_attack_left(from)).contains(m) {
            ctx.pawn_attack_left(from)
        } else {
            ctx.pawn_attack_right(from)
        };
        lemma_in_pawn_step(g.player, from, target, m);
        let block = pawn_step_moves(g.player, from, target);
        let i = choose|i: int| 0 <= i < block.len() && block[i] == m;
        assert(block[i] == m);
        lemma_subset_of_meet(to, forward, empty, pin, ctx.push_mask.0, 0);
        lemma_subset_of_meet(to, left, ctx.enemy_pieces.0, pin, ctx.capture_mask.0, 0);
        lemma_subset_of_meet(to, right, ctx.enemy_pieces.0, pin, ctx.capture_mask.0, 0);
        lemma_set_algebra(to, left, right);
        lemma_set_algebra(to, right, left);
        lemma_set_algebra(to, enemy.all.0, 0);
    }
}

/// Every listed move follows the rules of movement.
pub proof fn lemma_listed_move_follows_rule(g: GameView, m: Move)
    requires
        g.well_formed(),
        g.legal_moves(g.player).contains(m),
    ensures
        g.follows_rule(m),
{
    let ctx = g.context();
    let own = g.position.side(g.player);
    let enemy = g.position.side(!g.player);
    let all = g.position.all.0;
    let from = m.from_square.0;
    let to = m.to_square.0;
    lemma_listed(ctx, m);
    lemma_listed_move_is_legal(g, m);
    lemma_context_facts(g);
    lemma_meet_holds(from, own.board(m.piece), 0, 0, 0, 0);
    if ctx.castle_moves().contains(m) {
        lemma_castle_legal(g, m);
        reveal(MoveContext::of);
        let kingside: Seq<Move> = if ctx.can_castle_kingside() {
            seq![Move::castling(ctx.player, Castle::Kingside)]
        } else {
            Seq::empty()
        };
        let queenside: Seq<Move> = if ctx.can_castle_queenside() {
            seq![Move::castling(ctx.player, Castle::Queenside)]
        } else {
            Seq::empty()
        };
        lemma_contains_concat(kingside, queenside, m);
        if kingside.contains(m) {
            assert(kingside[0] == m);
        } else {
            assert(queenside[0] == m);
        }
    } else if m == Move::plain(ctx.player, Piece::King, ctx.king.0, to) && single(to) && to
        & ctx.king_targets() == to {
        lemma_subset_of_meet(to, king_span(ctx.king.0), ctx.attacked_squares.0, own.all.0, 0, 0);
    } else if single(from) && from & own.pawn.0 == from && ctx.lists_for_pawn(from, m) {
        lemma_listed_pawn_move_follows_rule(g, m);
    } else {
        let mask = ctx.capture_or_push_mask.0;
        let pin = ctx.pin(from);
        let straight = rank_and_file_moves(all, enemy.all.0, from);
        let diagonal = diagonal_moves(all, enemy.all.0, from);
        let jumps = knight_span(from);
        reveal(MoveContext::queen_targets);
        reveal(MoveContext::rook_targets);
        reveal(MoveContext::bishop_targets);
        lemma_subset_of_meet(to, mask, straight | diagonal, pin, 0, 0);
        lemma_subset_of_meet(to, mask, straight, pin, 0, 0);
        lemma_subset_of_meet(to, mask, diagonal, pin, 0, 0);
        lemma_subset_of_meet(to, mask, jumps, jumps ^ own.all.0, pin, 0);
    }
}

/// In a well-formed game the listed moves of the side to move are exactly
/// its strictly legal moves: a move is in the list if and only if it
/// follows the rules of movement and does not leave the own king attacked.
pub proof fn lemma_listed_moves_are_the_legal_moves(g: GameView, m: Move)
    requires
        g.well_formed(),
    ensures
        g.legal_moves(g.player).contains(m) <==> g.strictly_legal(m),
{
    if g.legal_moves(g.player).contains(m) {
        lemma_listed_move_is_legal(g, m);
        lemma_listed_move_follows_rule(g, m);
    }
    if g.strictly_legal(m) {
        lemma_legal_move_is_listed(g, m);
    }
}

} // verus!
