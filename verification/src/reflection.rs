//! The count of move sequences is the same for a game and for its mirror.

use vstd::prelude::*;
use crate::bitboard::{
    count_squares, lemma_lowest, lemma_lowest_of_empty, lowest_square, single, without_lowest,
    Bitboard,
};
use crate::chess_move::{Castle, Move};
use crate::counting::{lemma_eager_counts, lemma_perft_over_concat};
use crate::game::{lemma_perft_over_empty, lemma_perft_over_push, lemma_perft_unfold, GameView};
use crate::legality::{
    lemma_concat_contains, lemma_context_facts, lemma_count_facts,
    lemma_listed_move_keeps_well_formed, lemma_not_lowest, lemma_pawn_block_listed,
    lemma_position_facts, lemma_set_algebra,
};
use crate::mirror::{flip, lemma_flip_algebra, lemma_flip_constants, lemma_lowest_mirror};
use crate::movegen::{pawn_step_moves, plain_moves, MoveContext, RANK_1, RANK_8};
use crate::piece::{Piece};
use crate::symmetry::{
    lemma_after_move_mirror, lemma_board_mirror, lemma_context_mirror, lemma_en_passant_mirror,
    lemma_king_targets_mirror, lemma_pawn_targets_mirror, lemma_piece_targets_mirror,
    lemma_pin_of_mirror, mirrors,
};

verus! {

/// The sum of `h` over the squares of `b`, lowest bit index first.
pub open spec fn sum_over(h: spec_fn(u64) -> nat, b: u64) -> nat
    decreases b,
{
    if b == 0 {
        0
    } else {
        proof {
            lemma_lowest(b);
        }
        h(lowest_square(b)) + sum_over(h, without_lowest(b))
    }
}

/// The sum over a set is the term of any one of its squares and the sum
/// over the rest: the order in which the squares are taken does not matter.
pub proof fn lemma_sum_removal(h: spec_fn(u64) -> nat, b: u64, c: u64)
    requires
        single(c),
        c & b == c,
    ensures
        sum_over(h, b) == h(c) + sum_over(h, b & !c),
    decreases b,
{
    lemma_lowest_mirror(b, c, 0);
    lemma_lowest(b);
    lemma_lowest_of_empty();
    let low = lowest_square(b);
    let rest = without_lowest(b);
    if c != low {
        lemma_sum_removal(h, rest, c);
        if b & !c != 0 {
            lemma_lowest(b & !c);
        }
    }
}

/// The sum over a set upside down of the terms upside down is the sum over
/// the set.
pub proof fn lemma_sum_mirror(h: spec_fn(u64) -> nat, h2: spec_fn(u64) -> nat, b: u64)
    requires
        forall|c: u64| single(c) && c & b == c ==> #[trigger] h2(flip(c)) == h(c),
    ensures
        sum_over(h2, flip(b)) == sum_over(h, b),
    decreases b,
{
    lemma_flip_algebra(b, 0, 0);
    lemma_flip_constants();
    if b != 0 {
        let low2 = lowest_square(flip(b));
        let c = flip(low2);
        lemma_lowest(flip(b));
        lemma_lowest_mirror(b, c, 0);
        lemma_flip_algebra(low2, 0, 0);
        assert(h2(flip(c)) == h(c));
        assert forall|x: u64| single(x) && x & (b & !c) == x implies #[trigger] h2(flip(x)) == h(
            x,
        ) by {
            lemma_lowest_mirror(b, c, x);
        }
        lemma_sum_mirror(h, h2, b & !c);
        lemma_sum_removal(h, b, c);
    }
}

/// The count of the game after the plain move of `piece` from `from` to a
/// square, as a function of that square.
pub open spec fn plain_count(g: GameView, player: bool, piece: Piece, from: u64, depth: nat)
    -> spec_fn(u64) -> nat {
    |to: u64| g.after_move(Move::plain(player, piece, from, to)).perft(depth)
}

/// The count over the plain moves of one piece is the sum, over its
/// squares, of the counts after each move.
pub proof fn lemma_plain_moves_sum(
    g: GameView,
    player: bool,
    piece: Piece,
    from: u64,
    targets: u64,
    depth: nat,
)
    ensures
        g.perft_over(plain_moves(player, piece, from, targets), depth) == sum_over(
            plain_count(g, player, piece, from, depth),
            targets,
        ),
    decreases targets,
{
    lemma_perft_over_empty(g, depth);
    if targets != 0 {
        lemma_lowest(targets);
        let first = Move::plain(player, piece, from, lowest_square(targets));
        let rest = plain_moves(player, piece, from, without_lowest(targets));
        lemma_plain_moves_sum(g, player, piece, from, without_lowest(targets), depth);
        lemma_perft_over_push(g, Seq::empty(), first, depth);
        assert(Seq::<Move>::empty().push(first) =~= seq![first]);
        lemma_perft_over_concat(g, seq![first], rest, depth);
    }
}

/// The plain move to a square of the set is among the plain moves to the
/// squares of the set.
pub proof fn lemma_plain_move_listed(
    player: bool,
    piece: Piece,
    from: u64,
    targets: u64,
    to: u64,
)
    requires
        single(to),
        to & targets == to,
    ensures
        plain_moves(player, piece, from, targets).contains(Move::plain(player, piece, from, to)),
    decreases targets,
{
    lemma_set_algebra(to, targets, 0);
    lemma_lowest(targets);
    let first = seq![Move::plain(player, piece, from, lowest_square(targets))];
    let rest = plain_moves(player, piece, from, without_lowest(targets));
    let m = Move::plain(player, piece, from, to);
    if to == lowest_square(targets) {
        assert(first[0] == m);
    } else {
        lemma_not_lowest(targets, to);
        lemma_plain_move_listed(player, piece, from, without_lowest(targets), to);
    }
    lemma_concat_contains(first, rest, m);
}

/// The statement of the law for one depth: a well-formed game and a mirror
/// of it count the same.
pub open spec fn mirror_law(depth: nat) -> bool {
    forall|a: GameView, b: GameView|
        #![trigger a.perft(depth), b.perft(depth)]
        a.well_formed() && mirrors(a, b) ==> a.perft(depth) == b.perft(depth)
}

/// The games after a move and after its mirror are mirrors of each other.
pub proof fn lemma_game_after_mirror(a: GameView, b: GameView, m: Move)
    requires
        mirrors(a, b),
    ensures
        mirrors(a.after_move(m), b.after_move(m.mirrored())),
{
    lemma_after_move_mirror(a.position, m);
    lemma_flip_constants();
    lemma_flip_algebra(m.from_square.0, 0, 0);
    lemma_flip_algebra(m.to_square.0, 0, 0);
}

/// After a listed move and after its mirror the counts are the same, when
/// the law holds for the depth that is left.
pub proof fn lemma_child_counts(a: GameView, b: GameView, m: Move, depth: nat)
    requires
        a.well_formed(),
        mirrors(a, b),
        a.legal_moves(a.player).contains(m),
        mirror_law(depth),
    ensures
        b.after_move(m.mirrored()).perft(depth) == a.after_move(m).perft(depth),
{
    lemma_listed_move_keeps_well_formed(a, m);
    lemma_game_after_mirror(a, b, m);
}


/// A list of moves with every move mirrored.
pub open spec fn mirrored_list(moves: Seq<Move>) -> Seq<Move> {
    Seq::new(moves.len(), |i: int| moves[i].mirrored())
}

/// A list of listed moves and the list of their mirrors count the same,
/// when the law holds for the depth that is left.
pub proof fn lemma_list_mirror(a: GameView, b: GameView, moves: Seq<Move>, depth: nat)
    requires
        a.well_formed(),
        mirrors(a, b),
        mirror_law(depth),
        forall|i: int| 0 <= i < moves.len() ==> a.legal_moves(a.player).contains(#[trigger] moves[i]),
    ensures
        b.perft_over(mirrored_list(moves), depth) == a.perft_over(moves, depth),
    decreases moves.len(),
{
    lemma_perft_over_empty(a, depth);
    lemma_perft_over_empty(b, depth);
    if moves.len() == 0 {
        assert(mirrored_list(moves) =~= Seq::<Move>::empty());
        assert(moves =~= Seq::<Move>::empty());
    } else {
        let front = moves.drop_last();
        let last = moves.last();
        assert forall|i: int| 0 <= i < front.len() implies a.legal_moves(a.player).contains(
            #[trigger] front[i],
        ) by {
            assert(front[i] == moves[i]);
        }
        lemma_list_mirror(a, b, front, depth);
        assert(moves =~= front.push(last));
        assert(mirrored_list(moves) =~= mirrored_list(front).push(last.mirrored()));
        lemma_perft_over_push(a, front, last, depth);
        lemma_perft_over_push(b, mirrored_list(front), last.mirrored(), depth);
        assert(moves[moves.len() - 1] == last);
        lemma_child_counts(a, b, last, depth);
    }
}

/// A move that is in one of the parts of the list is in the list.
pub proof fn lemma_in_all_moves(ctx: MoveContext, m: Move)
    requires
        ({
            let own = ctx.position.side(ctx.player);
            ||| plain_moves(ctx.player, Piece::King, ctx.king.0, ctx.king_targets()).contains(m)
            ||| (count_squares(ctx.attackers.0) <= 1 && {
                ||| ctx.piece_moves(Piece::Queen, own.queen.0).contains(m)
                ||| ctx.piece_moves(Piece::Rook, own.rook.0).contains(m)
                ||| ctx.piece_moves(Piece::Bishop, own.bishop.0).contains(m)
                ||| ctx.piece_moves(Piece::Knight, own.knight.0).contains(m)
                ||| ctx.pawn_moves(own.pawn.0).contains(m)
                ||| ctx.castle_moves().contains(m)
            })
        }),
    ensures
        ctx.all_moves().contains(m),
{
    let own = ctx.position.side(ctx.player);
    let king = plain_moves(ctx.player, Piece::King, ctx.king.0, ctx.king_targets());
    let queens = ctx.piece_moves(Piece::Queen, own.queen.0);
    let rooks = ctx.piece_moves(Piece::Rook, own.rook.0);
    let bishops = ctx.piece_moves(Piece::Bishop, own.bishop.0);
    let knights = ctx.piece_moves(Piece::Knight, own.knight.0);
    let pawns = ctx.pawn_moves(own.pawn.0);
    let castles = ctx.castle_moves();
    if count_squares(ctx.attackers.0) <= 1 {
        if king.contains(m) || queens.contains(m) {
            lemma_concat_contains(king, queens, m);
        }
        if (king + queens).contains(m) || rooks.contains(m) {
            lemma_concat_contains(king + queens, rooks, m);
        }
        if (king + queens + rooks).contains(m) || bishops.contains(m) {
            lemma_concat_contains(king + queens + rooks, bishops, m);
        }
        if (king + queens + rooks + bishops).contains(m) || knights.contains(m) {
            lemma_concat_contains(king + queens + rooks + bishops, knights, m);
        }
        if (king + queens + rooks + bishops + knights).contains(m) || pawns.contains(m) {
            lemma_concat_contains(king + queens + rooks + bishops + knights, pawns, m);
        }
        lemma_concat_contains(king + queens + rooks + bishops + knights + pawns, castles, m);
    }
}

/// The plain moves of one piece are among the plain moves of its kind.
pub proof fn lemma_piece_block_listed(
    ctx: MoveContext,
    piece: Piece,
    pieces: u64,
    from: u64,
    m: Move,
)
    requires
        single(from),
        from & pieces == from,
        plain_moves(ctx.player, piece, from, ctx.targets(piece, from)).contains(m),
    ensures
        ctx.piece_moves(piece, pieces).contains(m),
    decreases pieces,
{
    lemma_set_algebra(from, pieces, 0);
    lemma_lowest(pieces);
    let low = lowest_square(pieces);
    let first = plain_moves(ctx.player, piece, low, ctx.targets(piece, low));
    let rest = ctx.piece_moves(piece, without_lowest(pieces));
    if from != low {
        lemma_not_lowest(pieces, from);
        lemma_piece_block_listed(ctx, piece, without_lowest(pieces), from, m);
    }
    lemma_concat_contains(first, rest, m);
}

/// The plain moves of one piece to a set of squares, and those of the
/// piece upside down to the set upside down in the mirror, count the same.
pub proof fn lemma_plain_block_mirror(
    a: GameView,
    b: GameView,
    piece: Piece,
    from: u64,
    targets: u64,
    depth: nat,
)
    requires
        a.well_formed(),
        mirrors(a, b),
        mirror_law(depth),
        forall|to: u64|
            single(to) && to & targets == to ==> a.legal_moves(a.player).contains(
                #[trigger] Move::plain(a.player, piece, from, to),
            ),
    ensures
        b.perft_over(plain_moves(!a.player, piece, flip(from), flip(targets)), depth)
            == a.perft_over(plain_moves(a.player, piece, from, targets), depth),
{
    let h = plain_count(a, a.player, piece, from, depth);
    let h2 = plain_count(b, !a.player, piece, flip(from), depth);
    lemma_plain_moves_sum(a, a.player, piece, from, targets, depth);
    lemma_plain_moves_sum(b, !a.player, piece, flip(from), flip(targets), depth);
    lemma_flip_constants();
    assert forall|c: u64| single(c) && c & targets == c implies #[trigger] h2(flip(c)) == h(
        c,
    ) by {
        let m = Move::plain(a.player, piece, from, c);
        assert(Move::plain(!a.player, piece, flip(from), flip(c)) == m.mirrored());
        lemma_child_counts(a, b, m, depth);
    }
    lemma_sum_mirror(h, h2, targets);
}

/// The count over the plain moves of one piece, as a function of its
/// square.
pub open spec fn piece_count(g: GameView, ctx: MoveContext, piece: Piece, depth: nat) -> spec_fn(
    u64,
) -> nat {
    |from: u64| g.perft_over(plain_moves(ctx.player, piece, from, ctx.targets(piece, from)), depth)
}

/// The count over the moves of the pieces of one kind is the sum, over
/// their squares, of the counts over the moves of each.
pub proof fn lemma_piece_moves_sum(
    g: GameView,
    ctx: MoveContext,
    piece: Piece,
    pieces: u64,
    depth: nat,
)
    ensures
        g.perft_over(ctx.piece_moves(piece, pieces), depth) == sum_over(
            piece_count(g, ctx, piece, depth),
            pieces,
        ),
    decreases pieces,
{
    lemma_perft_over_empty(g, depth);
    if pieces != 0 {
        lemma_lowest(pieces);
        let low = lowest_square(pieces);
        lemma_piece_moves_sum(g, ctx, piece, without_lowest(pieces), depth);
        lemma_perft_over_concat(
            g,
            plain_moves(ctx.player, piece, low, ctx.targets(piece, low)),
            ctx.piece_moves(piece, without_lowest(pieces)),
            depth,
        );
    }
}

/// The moves of one queen, rook, bishop or knight, and its moves in the
/// mirror, count the same.
pub proof fn lemma_one_piece_mirror(
    a: GameView,
    b: GameView,
    piece: Piece,
    from: u64,
    depth: nat,
)
    requires
        a.well_formed(),
        mirrors(a, b),
        mirror_law(depth),
        count_squares(a.context().attackers.0) <= 1,
        piece == Piece::Queen || piece == Piece::Rook || piece == Piece::Bishop || piece
            == Piece::Knight,
        single(from),
        from & a.position.side(a.player).board(piece) == from,
    ensures
        piece_count(b, a.context().mirrored(), piece, depth)(flip(from)) == piece_count(
            a,
            a.context(),
            piece,
            depth,
        )(from),
{
    let c1 = a.context();
    let own = a.position.side(a.player);
    let pieces = own.board(piece);
    lemma_context_facts(a);
    lemma_position_facts(a.position, a.player);
    lemma_set_algebra(from, pieces, own.all.0);
    lemma_set_algebra(from, pieces, own.king.0);
    lemma_pin_of_mirror(a, from);
    lemma_piece_targets_mirror(c1, from);
    let targets = c1.targets(piece, from);
    assert forall|to: u64| single(to) && to & targets == to implies a.legal_moves(
        a.player,
    ).contains(#[trigger] Move::plain(a.player, piece, from, to)) by {
        let m = Move::plain(a.player, piece, from, to);
        lemma_plain_move_listed(a.player, piece, from, targets, to);
        lemma_piece_block_listed(c1, piece, pieces, from, m);
        lemma_in_all_moves(c1, m);
    }
    lemma_plain_block_mirror(a, b, piece, from, targets, depth);
}

/// The moves of the queens, rooks, bishops or knights, and their moves in
/// the mirror, count the same.
pub proof fn lemma_pieces_block_mirror(a: GameView, b: GameView, piece: Piece, depth: nat)
    requires
        a.well_formed(),
        mirrors(a, b),
        mirror_law(depth),
        count_squares(a.context().attackers.0) <= 1,
        piece == Piece::Queen || piece == Piece::Rook || piece == Piece::Bishop || piece
            == Piece::Knight,
    ensures
        b.perft_over(
            a.context().mirrored().piece_moves(
                piece,
                flip(a.position.side(a.player).board(piece)),
            ),
            depth,
        ) == a.perft_over(
            a.context().piece_moves(piece, a.position.side(a.player).board(piece)),
            depth,
        ),
{
    let c1 = a.context();
    let c2 = c1.mirrored();
    let pieces = a.position.side(a.player).board(piece);
    let h = piece_count(a, c1, piece, depth);
    let h2 = piece_count(b, c2, piece, depth);
    lemma_piece_moves_sum(a, c1, piece, pieces, depth);
    lemma_piece_moves_sum(b, c2, piece, flip(pieces), depth);
    assert forall|from: u64| single(from) && from & pieces == from implies #[trigger] h2(
        flip(from),
    ) == h(from) by {
        lemma_one_piece_mirror(a, b, piece, from, depth);
    }
    lemma_sum_mirror(h, h2, pieces);
}

/// The steps of the king, and its steps in the mirror, count the same.
pub proof fn lemma_king_block_mirror(a: GameView, b: GameView, depth: nat)
    requires
        a.well_formed(),
        mirrors(a, b),
        mirror_law(depth),
    ensures
        b.perft_over(
            plain_moves(
                !a.player,
                Piece::King,
                flip(a.context().king.0),
                a.context().mirrored().king_targets(),
            ),
            depth,
        ) == a.perft_over(
            plain_moves(a.player, Piece::King, a.context().king.0, a.context().king_targets()),
            depth,
        ),
{
    let c1 = a.context();
    let targets = c1.king_targets();
    lemma_context_facts(a);
    lemma_king_targets_mirror(c1);
    assert forall|to: u64| single(to) && to & targets == to implies a.legal_moves(
        a.player,
    ).contains(#[trigger] Move::plain(a.player, Piece::King, c1.king.0, to)) by {
        let m = Move::plain(a.player, Piece::King, c1.king.0, to);
        lemma_plain_move_listed(a.player, Piece::King, c1.king.0, targets, to);
        lemma_in_all_moves(c1, m);
    }
    lemma_plain_block_mirror(a, b, Piece::King, c1.king.0, targets, depth);
}


proof fn lemma_mirrored_concat(x: Seq<Move>, y: Seq<Move>)
    ensures
        mirrored_list(x + y) =~= mirrored_list(x) + mirrored_list(y),
{
}

/// The moves of one pawn step in the mirror are the mirrors of the moves
/// of the step.
proof fn lemma_step_moves_mirror(player: bool, from: u64, to: u64)
    ensures
        pawn_step_moves(!player, flip(from), flip(to)) =~= mirrored_list(
            pawn_step_moves(player, from, to),
        ),
{
    lemma_flip_constants();
    lemma_board_mirror(to, RANK_8, 0);
    lemma_board_mirror(to, RANK_1, 0);
    lemma_flip_algebra(to, 0, 0);
}

/// The moves of one pawn in the mirror are the mirrors of its moves.
proof fn lemma_moves_of_pawn_mirror(c1: MoveContext, from: u64)
    requires
        c1.mirrored().pin(flip(from)) == flip(c1.pin(from)),
    ensures
        c1.mirrored().moves_of_pawn(flip(from)) =~= mirrored_list(c1.moves_of_pawn(from)),
{
    let c2 = c1.mirrored();
    let p = c1.player;
    lemma_pawn_targets_mirror(c1, from);
    lemma_en_passant_mirror(c1, from);
    lemma_flip_constants();
    let one = c1.pawn_single_target(from);
    let left = c1.pawn_attack_left(from);
    let right = c1.pawn_attack_right(from);
    let two = c1.pawn_double_target(from);
    let passing = c1.pawn_en_passant_target(from);
    lemma_step_moves_mirror(p, from, one);
    lemma_step_moves_mirror(p, from, left);
    lemma_step_moves_mirror(p, from, right);
    lemma_flip_algebra(two, 0, 0);
    lemma_flip_algebra(passing, 0, 0);
    let s1 = pawn_step_moves(p, from, one);
    let s2 = pawn_step_moves(p, from, left);
    let s3 = pawn_step_moves(p, from, right);
    let s4 = c1.double_push_moves(from);
    let s5 = c1.en_passant_moves(from);
    assert(c2.double_push_moves(flip(from)) =~= mirrored_list(s4));
    assert(c2.en_passant_moves(flip(from)) =~= mirrored_list(s5));
    lemma_mirrored_concat(s1, s2);
    lemma_mirrored_concat(s1 + s2, s3);
    lemma_mirrored_concat(s1 + s2 + s3, s4);
    lemma_mirrored_concat(s1 + s2 + s3 + s4, s5);
}

/// The count over the moves of one pawn, as a function of its square.
pub open spec fn pawn_count(g: GameView, ctx: MoveContext, depth: nat) -> spec_fn(u64) -> nat {
    |from: u64| g.perft_over(ctx.moves_of_pawn(from), depth)
}

/// The count over the moves of the pawns is the sum, over their squares,
/// of the counts over the moves of each.
pub proof fn lemma_pawn_moves_sum(g: GameView, ctx: MoveContext, pawns: u64, depth: nat)
    ensures
        g.perft_over(ctx.pawn_moves(pawns), depth) == sum_over(pawn_count(g, ctx, depth), pawns),
    decreases pawns,
{
    lemma_perft_over_empty(g, depth);
    if pawns != 0 {
        lemma_lowest(pawns);
        let low = lowest_square(pawns);
        lemma_pawn_moves_sum(g, ctx, without_lowest(pawns), depth);
        lemma_perft_over_concat(
            g,
            ctx.moves_of_pawn(low),
            ctx.pawn_moves(without_lowest(pawns)),
            depth,
        );
    }
}

/// The moves of one pawn, and its moves in the mirror, count the same.
pub proof fn lemma_one_pawn_mirror(a: GameView, b: GameView, from: u64, depth: nat)
    requires
        a.well_formed(),
        mirrors(a, b),
        mirror_law(depth),
        count_squares(a.context().attackers.0) <= 1,
        single(from),
        from & a.position.side(a.player).pawn.0 == from,
    ensures
        pawn_count(b, a.context().mirrored(), depth)(flip(from)) == pawn_count(
            a,
            a.context(),
            depth,
        )(from),
{
    let c1 = a.context();
    let own = a.position.side(a.player);
    lemma_context_facts(a);
    lemma_position_facts(a.position, a.player);
    lemma_set_algebra(from, own.pawn.0, own.all.0);
    lemma_set_algebra(from, own.pawn.0, own.king.0);
    lemma_pin_of_mirror(a, from);
    lemma_moves_of_pawn_mirror(c1, from);
    let moves = c1.moves_of_pawn(from);
    assert forall|i: int| 0 <= i < moves.len() implies a.legal_moves(a.player).contains(
        #[trigger] moves[i],
    ) by {
        let m = moves[i];
        assert(moves.contains(m));
        lemma_pawn_block_listed(c1, own.pawn.0, from, m);
        lemma_in_all_moves(c1, m);
    }
    lemma_list_mirror(a, b, moves, depth);
}

/// The moves of the pawns, and their moves in the mirror, count the same.
pub proof fn lemma_pawns_block_mirror(a: GameView, b: GameView, depth: nat)
    requires
        a.well_formed(),
        mirrors(a, b),
        mirror_law(depth),
        count_squares(a.context().attackers.0) <= 1,
    ensures
        b.perft_over(
            a.context().mirrored().pawn_moves(flip(a.position.side(a.player).pawn.0)),
            depth,
        ) == a.perft_over(a.context().pawn_moves(a.position.side(a.player).pawn.0), depth),
{
    let c1 = a.context();
    let c2 = c1.mirrored();
    let pawns = a.position.side(a.player).pawn.0;
    let h = pawn_count(a, c1, depth);
    let h2 = pawn_count(b, c2, depth);
    lemma_pawn_moves_sum(a, c1, pawns, depth);
    lemma_pawn_moves_sum(b, c2, flip(pawns), depth);
    assert forall|from: u64| single(from) && from & pawns == from implies #[trigger] h2(
        flip(from),
    ) == h(from) by {
        lemma_one_pawn_mirror(a, b, from, depth);
    }
    lemma_sum_mirror(h, h2, pawns);
}

/// The castling moves, and the castling moves in the mirror, count the
/// same.
pub proof fn lemma_castles_block_mirror(a: GameView, b: GameView, depth: nat)
    requires
        a.well_formed(),
        mirrors(a, b),
        mirror_law(depth),
        count_squares(a.context().attackers.0) <= 1,
    ensures
        b.perft_over(a.context().mirrored().castle_moves(), depth) == a.perft_over(
            a.context().castle_moves(),
            depth,
        ),
{
    let c1 = a.context();
    let c2 = c1.mirrored();
    lemma_context_facts(a);
    lemma_king_targets_mirror(c1);
    lemma_flip_constants();
    let moves = c1.castle_moves();
    assert(Move::castling(!c1.player, Castle::Kingside) == Move::castling(
        c1.player,
        Castle::Kingside,
    ).mirrored());
    assert(Move::castling(!c1.player, Castle::Queenside) == Move::castling(
        c1.player,
        Castle::Queenside,
    ).mirrored());
    assert(c2.castle_moves() =~= mirrored_list(moves));
    assert forall|i: int| 0 <= i < moves.len() implies a.legal_moves(a.player).contains(
        #[trigger] moves[i],
    ) by {
        let m = moves[i];
        assert(moves.contains(m));
        lemma_in_all_moves(c1, m);
    }
    lemma_list_mirror(a, b, moves, depth);
}

/// One ply more: a well-formed game and a mirror of it count the same for
/// one ply more than a depth for which the law holds.
proof fn lemma_mirror_step(a: GameView, b: GameView, depth: nat)
    requires
        a.well_formed(),
        mirrors(a, b),
        mirror_law(depth),
    ensures
        a.perft(depth + 1) == b.perft(depth + 1),
{
    let c1 = a.context();
    let c2 = c1.mirrored();
    let own = a.position.side(a.player);
    lemma_context_mirror(a.position, a.player, a.en_passant_square, a.possible_castles);
    assert(b.en_passant_square == Bitboard(flip(a.en_passant_square.0)));
    assert(b.context() == c2);
    lemma_perft_unfold(a, depth + 1);
    lemma_perft_unfold(b, depth + 1);
    lemma_context_facts(a);
    lemma_count_facts(c1.attackers.0);
    lemma_count_facts(c2.attackers.0);
    lemma_flip_algebra(c1.attackers.0, 0, 0);
    lemma_king_block_mirror(a, b, depth);
    if count_squares(c1.attackers.0) <= 1 {
        lemma_eager_counts(a, c1, depth);
        lemma_eager_counts(b, c2, depth);
        lemma_pieces_block_mirror(a, b, Piece::Queen, depth);
        lemma_pieces_block_mirror(a, b, Piece::Rook, depth);
        lemma_pieces_block_mirror(a, b, Piece::Bishop, depth);
        lemma_pieces_block_mirror(a, b, Piece::Knight, depth);
        lemma_pawns_block_mirror(a, b, depth);
        lemma_castles_block_mirror(a, b, depth);
    }
}

/// A well-formed game and a mirror of it (the board upside down, the
/// colours changed, the other side to move) count the same number of move
/// sequences at every depth.
pub proof fn lemma_mirror_counts(a: GameView, b: GameView, depth: nat)
    requires
        a.well_formed(),
        mirrors(a, b),
    ensures
        a.perft(depth) == b.perft(depth),
    decreases depth,
{
    if depth == 0 {
        lemma_perft_unfold(a, 0);
        lemma_perft_unfold(b, 0);
    } else {
        let less = (depth - 1) as nat;
        assert(mirror_law(less)) by {
            assert forall|x: GameView, y: GameView|
                #![trigger x.perft(less), y.perft(less)]
                x.well_formed() && mirrors(x, y) implies x.perft(less) == y.perft(less) by {
                lemma_mirror_counts(x, y, less);
            }
        }
        lemma_mirror_step(a, b, less);
    }
}

/// The mirror of a well-formed game counts as many move sequences as the
/// game, at every depth.
pub proof fn lemma_mirrored_game_counts(g: GameView, depth: nat)
    requires
        g.well_formed(),
    ensures
        g.mirrored().perft(depth) == g.perft(depth),
{
    lemma_mirror_counts(g, g.mirrored(), depth);
}

} // verus!
