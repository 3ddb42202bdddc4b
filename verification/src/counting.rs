//! The two ways of listing the legal moves, at once and one at a time, give
//! the same count of move sequences, although the order of the moves differs.

use vstd::prelude::*;
use crate::bitboard::{
    count_squares, lemma_lowest, lowest_square, shift_bottom, shift_left, shift_right, shift_top,
    single, without_lowest,
};
use crate::chess_move::Move;
use crate::game::{
    lemma_perft_over_empty, lemma_perft_over_push, lemma_perft_unfold, saturated, Game, GameView,
};
use crate::legal_moves::{LegalMoves, PieceMove};
use crate::movegen::{pawn_step_moves, plain_moves, MoveContext};
use crate::piece::Piece;

verus! {

/// True when at most one square is in the set.
pub open spec fn at_most_one(b: u64) -> bool {
    b & ((b - 1) as u64) == 0
}

/// A set of one square is its own lowest square and has nothing besides.
#[verifier::rlimit(100)]
pub proof fn lemma_one_square(t: u64)
    by (bit_vector)
    requires
        single(t),
    ensures
        lowest_square(t) == t,
        without_lowest(t) == 0,
        at_most_one(t),
{
}

/// What holds at most one square still does after a meet or a step.
#[verifier::rlimit(100)]
pub proof fn lemma_at_most_one(a: u64, x: u64)
    by (bit_vector)
    requires
        at_most_one(a),
    ensures
        at_most_one(a & x),
        at_most_one(shift_top(a)),
        at_most_one(shift_bottom(a)),
        at_most_one(shift_left(a)),
        at_most_one(shift_right(a)),
        a != 0 ==> single(a),
{
}

#[verifier::rlimit(100)]
proof fn lemma_two_captures(w: u64, x1: u64, x2: u64, x3: u64)
    by (bit_vector)
    requires
        at_most_one(w),
    ensures
        ({
            let both = (((shift_left(w) | shift_right(w)) & x1) & x2) & x3;
            let left = ((shift_left(w) & x1) & x2) & x3;
            let right = ((shift_right(w) & x1) & x2) & x3;
            &&& at_most_one(left)
            &&& at_most_one(right)
            &&& right == 0 ==> both == left
            &&& left == 0 ==> both == right
            &&& left != 0 && right != 0 ==> both != 0 && lowest_square(both) == right
                && without_lowest(both) == left
        }),
{
}

proof fn lemma_castle_squares()
    ensures
        single(0x0000_0000_0000_0002u64),
        single(0x0200_0000_0000_0000u64),
        single(0x0000_0000_0000_0020u64),
        single(0x2000_0000_0000_0000u64),
{
    crate::mirror::lemma_flip_constants();
}

/// The count over two lists in a row is the sum of the counts over each.
pub proof fn lemma_perft_over_concat(g: GameView, a: Seq<Move>, b: Seq<Move>, depth: nat)
    ensures
        g.perft_over(a + b, depth) == g.perft_over(a, depth) + g.perft_over(b, depth),
    decreases b.len(),
{
    reveal_with_fuel(GameView::perft, 2);
    reveal_with_fuel(GameView::perft_over, 2);
    if b.len() == 0 {
        assert(a + b =~= a);
    } else {
        assert((a + b).drop_last() =~= a + b.drop_last());
        assert((a + b).last() == b.last());
        lemma_perft_over_concat(g, a, b.drop_last(), depth);
    }
}

/// For king, queen, rook, bishop and knight the moves handed out one at a
/// time are the plain moves, in the same order.
proof fn lemma_plain_kind(ctx: MoveContext, kind: PieceMove, from: u64, targets: u64)
    requires
        kind.rank() <= 4,
    ensures
        ctx.moves_from(kind, from, targets) == plain_moves(
            ctx.player,
            kind.piece_kind(),
            from,
            targets,
        ),
    decreases targets,
{
    if targets != 0 {
        lemma_lowest(targets);
        lemma_plain_kind(ctx, kind, from, without_lowest(targets));
        assert(ctx.moves_from(kind, from, targets) =~= plain_moves(
            ctx.player,
            kind.piece_kind(),
            from,
            targets,
        ));
    }
}

proof fn lemma_pieces_kind(ctx: MoveContext, kind: PieceMove, pieces: u64)
    requires
        1 <= kind.rank() <= 4,
    ensures
        ctx.moves_of_pieces(kind, pieces) == ctx.piece_moves(kind.piece_kind(), pieces),
    decreases pieces,
{
    if pieces != 0 {
        lemma_lowest(pieces);
        lemma_pieces_kind(ctx, kind, without_lowest(pieces));
        lemma_plain_kind(
            ctx,
            kind,
            lowest_square(pieces),
            ctx.kind_targets(kind, lowest_square(pieces)),
        );
    }
}

/// For a set of at most one square, the moves handed out one at a time to
/// that set are the moves of one pawn step.
proof fn lemma_one_step(ctx: MoveContext, kind: PieceMove, from: u64, to: u64)
    requires
        kind.promotes(),
        at_most_one(to),
    ensures
        ctx.moves_from(kind, from, to) =~= pawn_step_moves(ctx.player, from, to),
{
    if to != 0 {
        lemma_at_most_one(to, to);
        lemma_one_square(to);
        lemma_lowest(to);
        assert(ctx.moves_from(kind, from, 0) =~= Seq::empty());
    }
}

/// One pawn's moves count the same whether they are listed pawn by pawn or
/// kind by kind.
proof fn lemma_one_pawn(g: GameView, ctx: MoveContext, from: u64, depth: nat)
    requires
        single(from),
    ensures
        g.perft_over(ctx.moves_of_pawn(from), depth) == g.perft_over(
            ctx.moves_from(
                PieceMove::PawnSingleMove,
                from,
                ctx.kind_targets(PieceMove::PawnSingleMove, from),
            ),
            depth,
        ) + g.perft_over(
            ctx.moves_from(
                PieceMove::PawnAttack,
                from,
                ctx.kind_targets(PieceMove::PawnAttack, from),
            ),
            depth,
        ) + g.perft_over(
            ctx.moves_from(
                PieceMove::PawnDoubleMove,
                from,
                ctx.kind_targets(PieceMove::PawnDoubleMove, from),
            ),
            depth,
        ) + g.perft_over(
            ctx.moves_from(
                PieceMove::PawnEnPassant,
                from,
                ctx.kind_targets(PieceMove::PawnEnPassant, from),
            ),
            depth,
        ),
{
    let player = ctx.player;
    let forward = ctx.forward(from);
    let pin = ctx.pin(from);
    lemma_one_square(from);
    lemma_at_most_one(from, from);
    // The single push.
    let one = ctx.pawn_single_target(from);
    lemma_at_most_one(forward, ctx.empty_squares.0);
    lemma_at_most_one(forward & ctx.empty_squares.0, pin);
    lemma_at_most_one(forward & ctx.empty_squares.0 & pin, ctx.push_mask.0);
    lemma_one_step(ctx, PieceMove::PawnSingleMove, from, one);
    let steps = pawn_step_moves(player, from, one);
    // The two captures.
    let left = ctx.pawn_attack_left(from);
    let right = ctx.pawn_attack_right(from);
    let both = ctx.pawn_attack_targets(from);
    lemma_two_captures(forward, ctx.enemy_pieces.0, pin, ctx.capture_mask.0);
    let lefts = pawn_step_moves(player, from, left);
    let rights = pawn_step_moves(player, from, right);
    let captures = ctx.moves_from(PieceMove::PawnAttack, from, both);
    lemma_perft_over_empty(g, depth);
    assert(g.perft_over(captures, depth) == g.perft_over(lefts, depth) + g.perft_over(
        rights,
        depth,
    )) by {
        if right == 0 {
            lemma_one_step(ctx, PieceMove::PawnAttack, from, left);
            assert(rights =~= Seq::empty());
        } else if left == 0 {
            lemma_one_step(ctx, PieceMove::PawnAttack, from, right);
            assert(lefts =~= Seq::empty());
        } else {
            lemma_lowest(both);
            lemma_one_step(ctx, PieceMove::PawnAttack, from, left);
            lemma_one_step(ctx, PieceMove::PawnAttack, from, right);
            lemma_at_most_one(right, right);
            lemma_one_square(right);
            lemma_lowest(right);
            assert(ctx.moves_from(PieceMove::PawnAttack, from, 0) =~= Seq::empty());
            assert(ctx.moves_to_square(PieceMove::PawnAttack, from, right) =~= rights);
            assert(captures =~= rights + lefts);
            lemma_perft_over_concat(g, rights, lefts, depth);
        }
    }
    // The double push.
    let two = ctx.pawn_double_target(from);
    let doubles = ctx.double_push_moves(from);
    assert(ctx.moves_from(PieceMove::PawnDoubleMove, from, two) =~= doubles) by {
        let rank = if player {
            crate::movegen::RANK_3
        } else {
            crate::movegen::RANK_6
        };
        lemma_at_most_one(forward, rank);
        lemma_at_most_one(forward & rank, rank);
        let ahead = ctx.forward(forward & rank);
        lemma_at_most_one(ahead, ctx.empty_squares.0);
        lemma_at_most_one(ahead & ctx.empty_squares.0, ctx.forward(ctx.empty_squares.0));
        lemma_at_most_one(ahead & ctx.empty_squares.0 & ctx.forward(ctx.empty_squares.0), pin);
        lemma_at_most_one(
            ahead & ctx.empty_squares.0 & ctx.forward(ctx.empty_squares.0) & pin,
            ctx.push_mask.0,
        );
        if two != 0 {
            lemma_at_most_one(two, two);
            lemma_one_square(two);
            lemma_lowest(two);
            assert(ctx.moves_from(PieceMove::PawnDoubleMove, from, 0) =~= Seq::empty());
        }
    }
    // The en-passant capture.
    let passing = ctx.en_passant_moves(from);
    assert(ctx.moves_from(PieceMove::PawnEnPassant, from, ctx.pawn_en_passant_target(from))
        =~= passing);
    // Put the five parts together.
    lemma_perft_over_concat(g, steps, lefts, depth);
    lemma_perft_over_concat(g, steps + lefts, rights, depth);
    lemma_perft_over_concat(g, steps + lefts + rights, doubles, depth);
    lemma_perft_over_concat(g, steps + lefts + rights + doubles, passing, depth);
}

/// The pawns' moves count the same whether they are listed pawn by pawn or
/// kind by kind.
proof fn lemma_pawn_counts(g: GameView, ctx: MoveContext, pawns: u64, depth: nat)
    ensures
        g.perft_over(ctx.pawn_moves(pawns), depth) == g.perft_over(
            ctx.moves_of_pieces(PieceMove::PawnSingleMove, pawns),
            depth,
        ) + g.perft_over(ctx.moves_of_pieces(PieceMove::PawnAttack, pawns), depth) + g.perft_over(
            ctx.moves_of_pieces(PieceMove::PawnDoubleMove, pawns),
            depth,
        ) + g.perft_over(ctx.moves_of_pieces(PieceMove::PawnEnPassant, pawns), depth),
    decreases pawns,
{
    lemma_perft_over_empty(g, depth);
    if pawns != 0 {
        lemma_lowest(pawns);
        let from = lowest_square(pawns);
        let rest = without_lowest(pawns);
        lemma_pawn_counts(g, ctx, rest, depth);
        lemma_one_pawn(g, ctx, from, depth);
        lemma_perft_over_concat(g, ctx.moves_of_pawn(from), ctx.pawn_moves(rest), depth);
        lemma_perft_over_concat(
            g,
            ctx.moves_from(
                PieceMove::PawnSingleMove,
                from,
                ctx.kind_targets(PieceMove::PawnSingleMove, from),
            ),
            ctx.moves_of_pieces(PieceMove::PawnSingleMove, rest),
            depth,
        );
        lemma_perft_over_concat(
            g,
            ctx.moves_from(
                PieceMove::PawnAttack,
                from,
                ctx.kind_targets(PieceMove::PawnAttack, from),
            ),
            ctx.moves_of_pieces(PieceMove::PawnAttack, rest),
            depth,
        );
        lemma_perft_over_concat(
            g,
            ctx.moves_from(
                PieceMove::PawnDoubleMove,
                from,
                ctx.kind_targets(PieceMove::PawnDoubleMove, from),
            ),
            ctx.moves_of_pieces(PieceMove::PawnDoubleMove, rest),
            depth,
        );
        lemma_perft_over_concat(
            g,
            ctx.moves_from(
                PieceMove::PawnEnPassant,
                from,
                ctx.kind_targets(PieceMove::PawnEnPassant, from),
            ),
            ctx.moves_of_pieces(PieceMove::PawnEnPassant, rest),
            depth,
        );
    }
}

/// The castling moves are the same in both lists.
proof fn lemma_castle_kinds(ctx: MoveContext)
    ensures
        ctx.moves_of_kind(PieceMove::KingsideCastle) + ctx.moves_of_kind(
            PieceMove::QueensideCastle,
        ) =~= ctx.castle_moves(),
{
    lemma_castle_squares();
    let k = ctx.kingside_castle_target();
    let q = ctx.queenside_castle_target();
    if k != 0 {
        lemma_one_square(k);
        lemma_lowest(k);
    }
    if q != 0 {
        lemma_one_square(q);
        lemma_lowest(q);
    }
    assert(ctx.moves_from(PieceMove::KingsideCastle, ctx.king.0, 0) =~= Seq::empty());
    assert(ctx.moves_from(PieceMove::QueensideCastle, ctx.king.0, 0) =~= Seq::empty());
    assert(ctx.moves_of_pieces(PieceMove::KingsideCastle, 0) =~= Seq::empty());
    assert(ctx.moves_of_pieces(PieceMove::QueensideCastle, 0) =~= Seq::empty());
}

/// What comes after the king's steps, when at most one piece gives check,
/// counts as the sum over the ten kinds that follow.
proof fn lemma_after_counts(g: GameView, ctx: MoveContext, depth: nat)
    requires
        count_squares(ctx.attackers.0) <= 1,
    ensures
        g.perft_over(ctx.moves_after(PieceMove::King), depth) == g.perft_over(
            ctx.moves_of_kind(PieceMove::Queen),
            depth,
        ) + g.perft_over(ctx.moves_of_kind(PieceMove::Rook), depth) + g.perft_over(
            ctx.moves_of_kind(PieceMove::Bishop),
            depth,
        ) + g.perft_over(ctx.moves_of_kind(PieceMove::Knight), depth) + g.perft_over(
            ctx.moves_of_kind(PieceMove::PawnSingleMove),
            depth,
        ) + g.perft_over(ctx.moves_of_kind(PieceMove::PawnAttack), depth) + g.perft_over(
            ctx.moves_of_kind(PieceMove::PawnDoubleMove),
            depth,
        ) + g.perft_over(ctx.moves_of_kind(PieceMove::PawnEnPassant), depth) + g.perft_over(
            ctx.moves_of_kind(PieceMove::KingsideCastle),
            depth,
        ) + g.perft_over(ctx.moves_of_kind(PieceMove::QueensideCastle), depth),
{
    lemma_after_step(g, ctx, PieceMove::King, depth);
    lemma_after_step(g, ctx, PieceMove::Queen, depth);
    lemma_after_step(g, ctx, PieceMove::Rook, depth);
    lemma_after_step(g, ctx, PieceMove::Bishop, depth);
    lemma_after_step(g, ctx, PieceMove::Knight, depth);
    lemma_after_step(g, ctx, PieceMove::PawnSingleMove, depth);
    lemma_after_step(g, ctx, PieceMove::PawnAttack, depth);
    lemma_after_step(g, ctx, PieceMove::PawnDoubleMove, depth);
    lemma_after_step(g, ctx, PieceMove::PawnEnPassant, depth);
    lemma_after_step(g, ctx, PieceMove::KingsideCastle, depth);
    assert(ctx.moves_after(PieceMove::QueensideCastle) =~= Seq::empty());
    lemma_perft_over_empty(g, depth);
}

proof fn lemma_after_step(g: GameView, ctx: MoveContext, kind: PieceMove, depth: nat)
    requires
        kind != PieceMove::QueensideCastle,
        kind == PieceMove::King ==> count_squares(ctx.attackers.0) <= 1,
    ensures
        g.perft_over(ctx.moves_after(kind), depth) == g.perft_over(
            ctx.moves_of_kind(kind.following()),
            depth,
        ) + g.perft_over(ctx.moves_after(kind.following()), depth),
{
    lemma_perft_over_concat(
        g,
        ctx.moves_of_kind(kind.following()),
        ctx.moves_after(kind.following()),
        depth,
    );
}

/// A kind of move that is made piece by piece has no moves of the king.
proof fn lemma_kind_of_pieces(ctx: MoveContext, kind: PieceMove)
    requires
        1 <= kind.rank() <= 8,
    ensures
        ctx.moves_of_kind(kind) == ctx.moves_of_pieces(kind, ctx.kind_pieces(kind)),
{
    assert(ctx.moves_from(kind, ctx.king.0, 0) =~= Seq::empty());
    assert(ctx.moves_of_kind(kind) =~= ctx.moves_of_pieces(kind, ctx.kind_pieces(kind)));
}

/// The list made at once, when at most one piece gives check, counts as the
/// sum over its seven parts.
pub proof fn lemma_eager_counts(g: GameView, ctx: MoveContext, depth: nat)
    requires
        count_squares(ctx.attackers.0) <= 1,
    ensures
        g.perft_over(ctx.all_moves(), depth) == g.perft_over(
            plain_moves(ctx.player, Piece::King, ctx.king.0, ctx.king_targets()),
            depth,
        ) + g.perft_over(
            ctx.piece_moves(Piece::Queen, ctx.position.side(ctx.player).queen.0),
            depth,
        ) + g.perft_over(
            ctx.piece_moves(Piece::Rook, ctx.position.side(ctx.player).rook.0),
            depth,
        ) + g.perft_over(
            ctx.piece_moves(Piece::Bishop, ctx.position.side(ctx.player).bishop.0),
            depth,
        ) + g.perft_over(
            ctx.piece_moves(Piece::Knight, ctx.position.side(ctx.player).knight.0),
            depth,
        ) + g.perft_over(ctx.pawn_moves(ctx.position.side(ctx.player).pawn.0), depth)
            + g.perft_over(ctx.castle_moves(), depth),
{
    let own = ctx.position.side(ctx.player);
    let king = plain_moves(ctx.player, Piece::King, ctx.king.0, ctx.king_targets());
    let queens = ctx.piece_moves(Piece::Queen, own.queen.0);
    let rooks = ctx.piece_moves(Piece::Rook, own.rook.0);
    let bishops = ctx.piece_moves(Piece::Bishop, own.bishop.0);
    let knights = ctx.piece_moves(Piece::Knight, own.knight.0);
    let pawns = ctx.pawn_moves(own.pawn.0);
    let castles = ctx.castle_moves();
    lemma_perft_over_concat(g, king, queens, depth);
    lemma_perft_over_concat(g, king + queens, rooks, depth);
    lemma_perft_over_concat(g, king + queens + rooks, bishops, depth);
    lemma_perft_over_concat(g, king + queens + rooks + bishops, knights, depth);
    lemma_perft_over_concat(g, king + queens + rooks + bishops + knights, pawns, depth);
    lemma_perft_over_concat(
        g,
        king + queens + rooks + bishops + knights + pawns,
        castles,
        depth,
    );
}

/// Counting over the moves as they are handed out one at a time gives the
/// same as counting over the moves as they are listed at once.
pub proof fn lemma_lazy_counts(g: GameView, ctx: MoveContext, depth: nat)
    ensures
        g.perft_over(ctx.lazy_moves(), depth) == g.perft_over(ctx.all_moves(), depth),
{
    let own = ctx.position.side(ctx.player);
    let king = plain_moves(ctx.player, Piece::King, ctx.king.0, ctx.king_targets());
    lemma_plain_kind(ctx, PieceMove::King, ctx.king.0, ctx.king_targets());
    assert(ctx.moves_of_pieces(PieceMove::King, 0) =~= Seq::empty());
    assert(ctx.moves_of_kind(PieceMove::King) =~= king);
    lemma_perft_over_concat(g, king, ctx.moves_after(PieceMove::King), depth);
    if count_squares(ctx.attackers.0) > 1 {
        assert(ctx.moves_after(PieceMove::King) =~= Seq::empty());
        lemma_perft_over_empty(g, depth);
    } else {
        lemma_after_counts(g, ctx, depth);
        lemma_eager_counts(g, ctx, depth);
        lemma_kind_of_pieces(ctx, PieceMove::Queen);
        lemma_kind_of_pieces(ctx, PieceMove::Rook);
        lemma_kind_of_pieces(ctx, PieceMove::Bishop);
        lemma_kind_of_pieces(ctx, PieceMove::Knight);
        lemma_kind_of_pieces(ctx, PieceMove::PawnSingleMove);
        lemma_kind_of_pieces(ctx, PieceMove::PawnAttack);
        lemma_kind_of_pieces(ctx, PieceMove::PawnDoubleMove);
        lemma_kind_of_pieces(ctx, PieceMove::PawnEnPassant);
        lemma_pieces_kind(ctx, PieceMove::Queen, own.queen.0);
        lemma_pieces_kind(ctx, PieceMove::Rook, own.rook.0);
        lemma_pieces_kind(ctx, PieceMove::Bishop, own.bishop.0);
        lemma_pieces_kind(ctx, PieceMove::Knight, own.knight.0);
        lemma_pawn_counts(g, ctx, own.pawn.0, depth);
        lemma_castle_kinds(ctx);
        lemma_perft_over_concat(
            g,
            ctx.moves_of_kind(PieceMove::KingsideCastle),
            ctx.moves_of_kind(PieceMove::QueensideCastle),
            depth,
        );
    }
}

impl Game {
    /// Counts the ways to play `depth` plies from here, taking the moves one
    /// at a time instead of listing them first. The count is the same as
    /// that of `count_legal_moves`, and stops at the largest `u64`.
    pub fn count_legal_moves2(&self, depth: u64) -> (r: u64)
        ensures
            r == saturated(self@.perft(depth as nat)),
        decreases depth,
    {
        proof {
            lemma_perft_unfold(self@, depth as nat);
            lemma_perft_over_empty(self@, (depth - 1) as nat);
        }
        if depth == 0 {
            return 1;
        }
        let mut walk = LegalMoves::new(self);
        let ghost all = walk@;
        let ghost mut seen: Seq<Move> = Seq::empty();
        let mut total: u64 = 0;
        loop
            invariant
                depth > 0,
                all == seen + walk@,
                total == saturated(self@.perft_over(seen, (depth - 1) as nat)),
            ensures
                all == seen,
                total == saturated(self@.perft_over(seen, (depth - 1) as nat)),
            decreases walk@.len(),
        {
            match walk.next() {
                Some(m) => {
                    let child = self.make_move(&m);
                    let below = child.count_legal_moves2(depth - 1);
                    proof {
                        lemma_perft_over_push(self@, seen, m, (depth - 1) as nat);
                        assert(all =~= seen.push(m) + walk@);
                        seen = seen.push(m);
                    }
                    total = total.saturating_add(below);
                },
                None => {
                    assert(all =~= seen);
                    break ;
                },
            }
        }
        proof {
            lemma_lazy_counts(
                self@,
                MoveContext::of(
                    self.position,
                    self.player,
                    self.en_passant_square,
                    self.possible_castles,
                ),
                (depth - 1) as nat,
            );
        }
        total
    }
}

} // verus!
