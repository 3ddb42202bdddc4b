//! The generated moves are legal: each of them fits the position, leaves
//! the own king unattacked, and leads to a game that is well formed again.

use vstd::prelude::*;
use crate::attacks::{
    answer_mask, attacked_among, lemma_answered_check, lemma_castle_safe, lemma_king_step_safe,
    lemma_moves_miss_the_king, lemma_pinned_move_uncovers_nothing, lemma_sliders_attack_closed,
};
use crate::bitboard::{
    count_low, count_squares, king_span, knight_span, lemma_lowest, lowest_square, shift_bottom, shift_left,
    shift_right, shift_top, single, without_lowest, ALL_SQUARES,
};
use crate::chess_move::{Castle, Move};
use crate::counting::{at_most_one, lemma_at_most_one, lemma_one_square};
use crate::game::GameView;
use crate::invariants::{
    castle_between, king_home, lemma_move_keeps_well_formed, lemma_single_in_or_out, rook_home,
    sound, sound_position, struck_board, EDGE_RANKS,
};
use crate::movegen::{
    diagonal_moves, pawn_step_moves, plain_moves, promotion_rank, rank_and_file_moves, MoveContext,
    RANK_1, RANK_3, RANK_6, RANK_8,
};
use crate::piece::{CapturedPiece, Piece, PromotionPiece};
use crate::position::{attackers_among, Pieces, Position};

verus! {

/// A set inside a set without its lowest square is inside the set.
pub proof fn lemma_rest_subset(b: u64, x: u64)
    requires
        x & without_lowest(b) == x,
    ensures
        x & b == x,
{
    crate::mirror::lemma_lowest_mirror(b, 0, x);
}

/// What is in two lists in a row is in one of them.
pub proof fn lemma_contains_concat(a: Seq<Move>, b: Seq<Move>, m: Move)
    requires
        (a + b).contains(m),
    ensures
        a.contains(m) || b.contains(m),
{
    let i = choose|i: int| 0 <= i < (a + b).len() && (a + b)[i] == m;
    if i < a.len() {
        assert(a[i] == m);
    } else {
        assert(b[i - a.len()] == m);
    }
}

impl MoveContext {
    /// True when `m` is one of the moves listed for the pawn on `from`.
    pub open spec fn lists_for_pawn(self, from: u64, m: Move) -> bool {
        ||| pawn_step_moves(self.player, from, self.pawn_single_target(from)).contains(m)
        ||| pawn_step_moves(self.player, from, self.pawn_attack_left(from)).contains(m)
        ||| pawn_step_moves(self.player, from, self.pawn_attack_right(from)).contains(m)
        ||| self.double_push_moves(from).contains(m)
        ||| self.en_passant_moves(from).contains(m)
    }

    /// True when `m` has the shape of a listed move: a step of the king to
    /// one of its squares; or, unless two pieces give check, a move of a
    /// queen, rook, bishop or knight from its square to one of its squares,
    /// a move of a pawn, or a castling move that is allowed.
    pub open spec fn lists(self, m: Move) -> bool {
        let own = self.position.side(self.player);
        let from = m.from_square.0;
        let to = m.to_square.0;
        ||| (m == Move::plain(self.player, Piece::King, self.king.0, to) && single(to) && to
            & self.king_targets() == to)
        ||| (count_squares(self.attackers.0) <= 1 && {
            ||| ((m.piece == Piece::Queen || m.piece == Piece::Rook || m.piece == Piece::Bishop
                || m.piece == Piece::Knight) && m == Move::plain(self.player, m.piece, from, to)
                && single(from) && from & own.board(m.piece) == from && single(to) && to
                & self.targets(m.piece, from) == to)
            ||| (single(from) && from & own.pawn.0 == from && self.lists_for_pawn(from, m))
            ||| self.castle_moves().contains(m)
        })
    }
}

/// A move among the plain moves of a piece is the plain move of that
/// piece to one of its squares.
pub proof fn lemma_in_plain_moves(player: bool, piece: Piece, from: u64, targets: u64, m: Move)
    requires
        plain_moves(player, piece, from, targets).contains(m),
    ensures
        m == Move::plain(player, piece, from, m.to_square.0),
        single(m.to_square.0),
        m.to_square.0 & targets == m.to_square.0,
    decreases targets,
{
    if targets != 0 {
        lemma_lowest(targets);
        let first = seq![Move::plain(player, piece, from, lowest_square(targets))];
        let rest = plain_moves(player, piece, from, without_lowest(targets));
        lemma_contains_concat(first, rest, m);
        if first.contains(m) {
            assert(first[0] == m);
        } else {
            lemma_in_plain_moves(player, piece, from, without_lowest(targets), m);
            lemma_rest_subset(targets, m.to_square.0);
        }
    }
}

/// A move among the plain moves of the pieces of one kind is the plain
/// move of one of them to one of its squares.
pub proof fn lemma_in_piece_moves(ctx: MoveContext, piece: Piece, pieces: u64, m: Move)
    requires
        ctx.piece_moves(piece, pieces).contains(m),
    ensures
        m == Move::plain(ctx.player, piece, m.from_square.0, m.to_square.0),
        single(m.from_square.0),
        m.from_square.0 & pieces == m.from_square.0,
        single(m.to_square.0),
        m.to_square.0 & ctx.targets(piece, m.from_square.0) == m.to_square.0,
    decreases pieces,
{
    if pieces != 0 {
        lemma_lowest(pieces);
        let from = lowest_square(pieces);
        let first = plain_moves(ctx.player, piece, from, ctx.targets(piece, from));
        let rest = ctx.piece_moves(piece, without_lowest(pieces));
        lemma_contains_concat(first, rest, m);
        if first.contains(m) {
            lemma_in_plain_moves(ctx.player, piece, from, ctx.targets(piece, from), m);
        } else {
            lemma_in_piece_moves(ctx, piece, without_lowest(pieces), m);
            lemma_rest_subset(pieces, m.from_square.0);
        }
    }
}

/// A move of one pawn step goes from the pawn to the square of the step,
/// and promotes exactly on the last rank.
pub proof fn lemma_in_pawn_step(player: bool, from: u64, to: u64, m: Move)
    requires
        pawn_step_moves(player, from, to).contains(m),
    ensures
        m.from_square.0 == from,
        m.to_square.0 == to,
        to != 0,
        m.player == player,
        m.piece == Piece::Pawn,
        !m.is_capturing_en_passant,
        m.is_castling.is_none(),
        m.en_passant_square.0 == 0,
        m.is_promoting_to.is_some() <==> to & promotion_rank(player) != 0,
{
    let s = pawn_step_moves(player, from, to);
    let i = choose|i: int| 0 <= i < s.len() && s[i] == m;
    assert(s[i] == m);
}

/// A move among the moves of one pawn starts from that pawn and is one of
/// the five kinds of pawn move.
pub proof fn lemma_pawn_move_from(ctx: MoveContext, from: u64, m: Move)
    requires
        ctx.moves_of_pawn(from).contains(m),
    ensures
        m.from_square.0 == from,
        ctx.lists_for_pawn(from, m),
{
    let a = pawn_step_moves(ctx.player, from, ctx.pawn_single_target(from));
    let b = pawn_step_moves(ctx.player, from, ctx.pawn_attack_left(from));
    let c = pawn_step_moves(ctx.player, from, ctx.pawn_attack_right(from));
    let d = ctx.double_push_moves(from);
    let e = ctx.en_passant_moves(from);
    lemma_contains_concat(a + b + c + d, e, m);
    if e.contains(m) {
        assert(e[0] == m);
    } else {
        lemma_contains_concat(a + b + c, d, m);
        if d.contains(m) {
            assert(d[0] == m);
        } else {
            lemma_contains_concat(a + b, c, m);
            if c.contains(m) {
                lemma_in_pawn_step(ctx.player, from, ctx.pawn_attack_right(from), m);
            } else {
                lemma_contains_concat(a, b, m);
                if b.contains(m) {
                    lemma_in_pawn_step(ctx.player, from, ctx.pawn_attack_left(from), m);
                } else {
                    lemma_in_pawn_step(ctx.player, from, ctx.pawn_single_target(from), m);
                }
            }
        }
    }
}

/// A move among the moves of the pawns is a move of one of them.
pub proof fn lemma_in_pawn_moves(ctx: MoveContext, pawns: u64, m: Move)
    requires
        ctx.pawn_moves(pawns).contains(m),
    ensures
        single(m.from_square.0),
        m.from_square.0 & pawns == m.from_square.0,
        ctx.lists_for_pawn(m.from_square.0, m),
    decreases pawns,
{
    if pawns != 0 {
        lemma_lowest(pawns);
        let from = lowest_square(pawns);
        let first = ctx.moves_of_pawn(from);
        let rest = ctx.pawn_moves(without_lowest(pawns));
        lemma_contains_concat(first, rest, m);
        if first.contains(m) {
            lemma_pawn_move_from(ctx, from, m);
        } else {
            lemma_in_pawn_moves(ctx, without_lowest(pawns), m);
            lemma_rest_subset(pawns, m.from_square.0);
        }
    }
}

/// Every move in the list has the shape of a listed move.
pub proof fn lemma_listed(ctx: MoveContext, m: Move)
    requires
        ctx.all_moves().contains(m),
    ensures
        ctx.lists(m),
{
    let own = ctx.position.side(ctx.player);
    let king = plain_moves(ctx.player, Piece::King, ctx.king.0, ctx.king_targets());
    if king.contains(m) {
        lemma_in_plain_moves(ctx.player, Piece::King, ctx.king.0, ctx.king_targets(), m);
    } else {
        let queens = ctx.piece_moves(Piece::Queen, own.queen.0);
        let rooks = ctx.piece_moves(Piece::Rook, own.rook.0);
        let bishops = ctx.piece_moves(Piece::Bishop, own.bishop.0);
        let knights = ctx.piece_moves(Piece::Knight, own.knight.0);
        let pawns = ctx.pawn_moves(own.pawn.0);
        let castles = ctx.castle_moves();
        assert(count_squares(ctx.attackers.0) <= 1);
        lemma_contains_concat(king + queens + rooks + bishops + knights + pawns, castles, m);
        if !castles.contains(m) {
            lemma_contains_concat(king + queens + rooks + bishops + knights, pawns, m);
            if pawns.contains(m) {
                lemma_in_pawn_moves(ctx, own.pawn.0, m);
            } else {
                lemma_contains_concat(king + queens + rooks + bishops, knights, m);
                if knights.contains(m) {
                    lemma_in_piece_moves(ctx, Piece::Knight, own.knight.0, m);
                } else {
                    lemma_contains_concat(king + queens + rooks, bishops, m);
                    if bishops.contains(m) {
                        lemma_in_piece_moves(ctx, Piece::Bishop, own.bishop.0, m);
                    } else {
                        lemma_contains_concat(king + queens, rooks, m);
                        if rooks.contains(m) {
                            lemma_in_piece_moves(ctx, Piece::Rook, own.rook.0, m);
                        } else {
                            lemma_contains_concat(king, queens, m);
                            lemma_in_piece_moves(ctx, Piece::Queen, own.queen.0, m);
                        }
                    }
                }
            }
        }
    }
}


/// The position as it was before the pawn that stands behind `target`,
/// seen from `player`, made its double push over `target`.
pub open spec fn before_push(position: Position, player: bool, target: u64) -> Position {
    let behind = Position::behind(player, target);
    let origin = Position::behind(!player, target);
    let other = position.side(!player);
    let back = Pieces {
        pawn: crate::bitboard::Bitboard((other.pawn.0 & !behind) | origin),
        all: crate::bitboard::Bitboard((other.all.0 & !behind) | origin),
        ..other
    };
    Position::assembled(!player, back, position.side(player), (position.all.0 & !behind) | origin)
}

/// True when king and rook of `player` stand where castling on `side`
/// starts.
pub open spec fn castle_ready(position: Position, player: bool, side: Castle) -> bool {
    &&& position.side(player).king.0 == king_home(player)
    &&& position.side(player).rook.0 & rook_home(player, side) != 0
}

impl GameView {
    /// What holds of every game that starts from a legal position and goes
    /// on by listed moves: the position is well formed; the side that just
    /// moved is not in check; a castling right is only there while king and
    /// rook stand on their home squares; and the en-passant target, if there
    /// is one, is one empty square, not on rank 1 or 8, behind which a pawn
    /// of the side that just moved stands and beyond which the square is
    /// empty, and the side to move was not in check before that pawn made
    /// its double push.
    pub open spec fn well_formed(self) -> bool {
        let target = self.en_passant_square.0;
        &&& self.position.well_formed()
        &&& !self.position.in_check(!self.player)
        &&& self.possible_castles.white_kingside ==> castle_ready(
            self.position,
            true,
            Castle::Kingside,
        )
        &&& self.possible_castles.white_queenside ==> castle_ready(
            self.position,
            true,
            Castle::Queenside,
        )
        &&& self.possible_castles.black_kingside ==> castle_ready(
            self.position,
            false,
            Castle::Kingside,
        )
        &&& self.possible_castles.black_queenside ==> castle_ready(
            self.position,
            false,
            Castle::Queenside,
        )
        &&& target != 0 ==> {
            &&& single(target)
            &&& target & self.position.all.0 == 0
            &&& target & EDGE_RANKS == 0
            &&& Position::behind(self.player, target) & self.position.side(!self.player).pawn.0
                != 0
            &&& Position::behind(!self.player, target) & self.position.all.0 == 0
            &&& !before_push(self.position, self.player, target).in_check(self.player)
        }
    }

    /// The context from which the moves of the side to move are listed.
    pub open spec fn context(self) -> MoveContext {
        MoveContext::of(self.position, self.player, self.en_passant_square, self.possible_castles)
    }
}

/// Facts about meets, joins and differences of sets of squares.
#[verifier::rlimit(100)]
pub proof fn lemma_set_algebra(a: u64, b: u64, c: u64)
    by (bit_vector)
    ensures
        a & a == a,
        a & b == b & a,
        a | b == b | a,
        a & b == a && b & c == 0 ==> a & c == 0 && c & a == 0,
        a & b == a && b & !c == 0 ==> a & c == a,
        a & b == a && b & c == b ==> a & c == a,
        a & b == a && a != 0 ==> a & b != 0 && b != 0,
        a & b == a ==> a & (b | c) == a && a & (c | b) == a,
        a & b == 0 ==> b & !a == b,
        a & (ALL_SQUARES ^ b) == a ==> a & b == 0,
        a & b == 0 && a & c == 0 ==> a & (b | c) == 0,
        a & (b | c) == 0 ==> a & b == 0 && a & c == 0,
        (b | c) & a == 0 ==> b & a == 0 && c & a == 0,
        a & b == a && a & (b ^ c) == a ==> a & c == 0,
        single(b) && a != 0 && a & b == a ==> a == b,
        single(a) && a & b != 0 ==> a & b == a,
        at_most_one(a) && a != 0 ==> single(a),
        (a & !a) | b == b,
{
}

/// A set inside the meet of some sets is inside each of them.
#[verifier::rlimit(100)]
pub proof fn lemma_subset_of_meet(t: u64, a: u64, b: u64, c: u64, d: u64, e: u64)
    by (bit_vector)
    ensures
        t & ((a & b) & c) == t ==> t & a == t && t & b == t && t & c == t,
        t & (((a & b) & c) & d) == t ==> t & a == t && t & b == t && t & c == t && t & d == t,
        t & ((((a & b) & c) & d) & e) == t ==> t & a == t && t & b == t && t & c == t && t & d
            == t && t & e == t,
        ({
            let free = a & (ALL_SQUARES ^ b);
            t & (free ^ (free & c)) == t ==> t & a == t && t & b == 0 && t & c == 0
        }),
{
}

#[verifier::rlimit(100)]
proof fn lemma_sound_consequences(
    mk: u64,
    mq: u64,
    mr: u64,
    mb: u64,
    mn: u64,
    mp: u64,
    mall: u64,
    ok: u64,
    oq: u64,
    or: u64,
    ob: u64,
    on: u64,
    op: u64,
    oall: u64,
    all: u64,
)
    by (bit_vector)
    requires
        sound_position(mk, mq, mr, mb, mn, mp, mall, ok, oq, or, ob, on, op, oall, all),
    ensures
        (ok | oq | or | ob | on | op) & !all == 0,
        (ok | oq | or | ob | on | op) & mall == 0,
        mall & !all == 0,
        mall & oall == 0,
        mk & mall == mk,
        mk & all == mk,
        ok & all == ok,
        mq & mall == mq && mr & mall == mr && mb & mall == mb && mn & mall == mn && mp & mall
            == mp,
        mq & mk == 0 && mr & mk == 0 && mb & mk == 0 && mn & mk == 0 && mp & mk == 0,
        (oq | or) & !all == 0,
        (oq | ob) & !all == 0,
        (oq | or) & mall == 0,
        (oq | ob) & mall == 0,
        mq & (mq | mr) == mq && mr & (mq | mr) == mr && mq & (mq | mb) == mq && mb & (mq | mb)
            == mb,
{
}

#[verifier::rlimit(100)]
proof fn lemma_struck_cleared(
    ok: u64,
    oq: u64,
    or: u64,
    ob: u64,
    on: u64,
    op: u64,
    oall: u64,
    to: u64,
)
    by (bit_vector)
    requires
        sound(ok, oq, or, ob, on, op, oall),
        to & ok == 0,
        to & oq == 0 || to & oq == to,
        to & or == 0 || to & or == to,
        to & ob == 0 || to & ob == to,
        to & on == 0 || to & on == to,
        to & op == 0 || to & op == to,
    ensures
        ({
            let hp = to & op != 0;
            let hn = !hp && to & on != 0;
            let hb = !hp && !hn && to & ob != 0;
            let hr = !hp && !hn && !hb && to & or != 0;
            let hq = !hp && !hn && !hb && !hr && to & oq != 0;
            &&& struck_board(oq, hq, to) == oq & !to
            &&& struck_board(or, hr, to) == or & !to
            &&& struck_board(ob, hb, to) == ob & !to
            &&& struck_board(on, hn, to) == on & !to
            &&& struck_board(op, hp, to) == op & !to
            &&& ok & !to == ok
        }),
{
}

/// How the lowest bit and the rest of a set tell whether it holds no
/// square or one.
#[verifier::rlimit(100)]
pub proof fn lemma_count_step(b: u64, w: u64)
    by (bit_vector)
    ensures
        w == 0 && b >> w == 0 ==> b == 0,
        1 <= w <= 63 && b >> w == 0 ==> (b >> 1) >> ((w - 1) as u64) == 0,
        (b >> 1) >> 63 == 0,
        at_most_one(b) <==> (b == 0 || single(b)),
        b & 1 <= 1,
        b == 0 <==> (b & 1 == 0 && b >> 1 == 0),
        single(b) <==> ((b & 1 == 1 && b >> 1 == 0) || (b & 1 == 0 && single(b >> 1))),
{
}

proof fn lemma_count_low_facts(b: u64, w: nat)
    requires
        w <= 63,
        b >> (w as u64) == 0,
    ensures
        count_low(b, w) == 0 <==> b == 0,
        count_low(b, w) == 1 <==> single(b),
    decreases w,
{
    lemma_count_step(b, w as u64);
    if w > 0 {
        lemma_count_low_facts(b >> 1, (w - 1) as nat);
        crate::bitboard::lemma_count_low_bound(b >> 1, (w - 1) as nat);
    }
}

/// One square is in a set exactly when its count is one, and at most one
/// when its count is at most one.
pub proof fn lemma_count_facts(c: u64)
    ensures
        count_squares(c) == 1 <==> single(c),
        count_squares(c) <= 1 <==> at_most_one(c),
        count_squares(c) == 0 <==> c == 0,
{
    lemma_count_step(c, 0);
    lemma_count_low_facts(c >> 1, 63);
    crate::bitboard::lemma_count_low_bound(c >> 1, 63);
}

/// The plain boards of a well-formed position, seen from `player`.
pub proof fn lemma_position_facts(position: Position, player: bool)
    requires
        position.well_formed(),
    ensures
        ({
            let own = position.side(player);
            let enemy = position.side(!player);
            let all = position.all.0;
            let theirs = enemy.king.0 | enemy.queen.0 | enemy.rook.0 | enemy.bishop.0
                | enemy.knight.0 | enemy.pawn.0;
            &&& sound_position(
                own.king.0,
                own.queen.0,
                own.rook.0,
                own.bishop.0,
                own.knight.0,
                own.pawn.0,
                own.all.0,
                enemy.king.0,
                enemy.queen.0,
                enemy.rook.0,
                enemy.bishop.0,
                enemy.knight.0,
                enemy.pawn.0,
                enemy.all.0,
                all,
            )
            &&& theirs & !all == 0
            &&& theirs & own.all.0 == 0
            &&& own.all.0 & !all == 0
            &&& own.all.0 & enemy.all.0 == 0
            &&& own.king.0 & own.all.0 == own.king.0
            &&& own.king.0 & all == own.king.0
            &&& enemy.king.0 & all == enemy.king.0
            &&& own.queen.0 & own.all.0 == own.queen.0
            &&& own.rook.0 & own.all.0 == own.rook.0
            &&& own.bishop.0 & own.all.0 == own.bishop.0
            &&& own.knight.0 & own.all.0 == own.knight.0
            &&& own.pawn.0 & own.all.0 == own.pawn.0
            &&& own.queen.0 & own.king.0 == 0
            &&& own.rook.0 & own.king.0 == 0
            &&& own.bishop.0 & own.king.0 == 0
            &&& own.knight.0 & own.king.0 == 0
            &&& own.pawn.0 & own.king.0 == 0
            &&& (enemy.queen.0 | enemy.rook.0) & !all == 0
            &&& (enemy.queen.0 | enemy.bishop.0) & !all == 0
            &&& (enemy.queen.0 | enemy.rook.0) & own.all.0 == 0
            &&& (enemy.queen.0 | enemy.bishop.0) & own.all.0 == 0
            &&& own.queen.0 & (own.queen.0 | own.rook.0) == own.queen.0
            &&& own.rook.0 & (own.queen.0 | own.rook.0) == own.rook.0
            &&& own.queen.0 & (own.queen.0 | own.bishop.0) == own.queen.0
            &&& own.bishop.0 & (own.queen.0 | own.bishop.0) == own.bishop.0
        }),
{
    let own = position.side(player);
    let enemy = position.side(!player);
    lemma_set_algebra(position.white.all.0, position.black.all.0, 0);
    lemma_sound_consequences(
        own.king.0,
        own.queen.0,
        own.rook.0,
        own.bishop.0,
        own.knight.0,
        own.pawn.0,
        own.all.0,
        enemy.king.0,
        enemy.queen.0,
        enemy.rook.0,
        enemy.bishop.0,
        enemy.knight.0,
        enemy.pawn.0,
        enemy.all.0,
        position.all.0,
    );
}

/// What a capture on `to` leaves of the side that does not move: every
/// board without the square `to`, the king's board as it was.
pub proof fn lemma_struck(other: Pieces, to: u64)
    requires
        other.sound(),
        single(to),
        to & other.king.0 == 0,
    ensures
        ({
            let left = other.without(other.taken_at(to), to);
            &&& left.king.0 == other.king.0
            &&& other.king.0 & !to == other.king.0
            &&& left.queen.0 == other.queen.0 & !to
            &&& left.rook.0 == other.rook.0 & !to
            &&& left.bishop.0 == other.bishop.0 & !to
            &&& left.knight.0 == other.knight.0 & !to
            &&& left.pawn.0 == other.pawn.0 & !to
        }),
{
    lemma_single_in_or_out(to, other.queen.0);
    lemma_single_in_or_out(to, other.rook.0);
    lemma_single_in_or_out(to, other.bishop.0);
    lemma_single_in_or_out(to, other.knight.0);
    lemma_single_in_or_out(to, other.pawn.0);
    lemma_struck_cleared(
        other.king.0,
        other.queen.0,
        other.rook.0,
        other.bishop.0,
        other.knight.0,
        other.pawn.0,
        other.all.0,
        to,
    );
}

/// The squares that the side not to move attacks, as the context holds
/// them, are the squares that its pieces attack all at once.
pub proof fn lemma_attacked_closed(position: Position, player: bool)
    ensures
        ({
            let own = position.side(player);
            let enemy = position.side(!player);
            position.attacked_by(!player) == attacked_among(
                position.all.0 ^ own.king.0,
                enemy.king.0,
                enemy.queen.0,
                enemy.rook.0,
                enemy.bishop.0,
                enemy.knight.0,
                enemy.pawn.0,
                !player,
            )
        }),
{
    reveal(Position::attacked_by);
    let own = position.side(player);
    let enemy = position.side(!player);
    let occ = position.all.0 ^ own.king.0;
    let by_king = king_span(enemy.king.0);
    let by_queens = crate::position::sliders_attack(occ, by_king, enemy.queen.0, true, true);
    let by_rooks = crate::position::sliders_attack(occ, by_queens, enemy.rook.0, true, false);
    lemma_sliders_attack_closed(occ, by_king, enemy.queen.0, true, true);
    lemma_sliders_attack_closed(occ, by_queens, enemy.rook.0, true, false);
    lemma_sliders_attack_closed(occ, by_rooks, enemy.bishop.0, false, true);
}


/// What follows for a move from the placement of the pieces of a
/// well-formed position.
#[verifier::rlimit(100)]
pub proof fn lemma_move_premises(
    from: u64,
    to: u64,
    board: u64,
    own: u64,
    all: u64,
    theirs: u64,
    king: u64,
    x1: u64,
    x2: u64,
)
    by (bit_vector)
    requires
        from != 0,
        from & board == from,
        board & own == board,
        board & king == 0,
        own & !all == 0,
        theirs & own == 0,
        king & own == king,
        to & own == 0,
        x1 & own == 0,
        x2 & own == 0,
    ensures
        from & king == 0,
        to & king == 0,
        from & all == from,
        from & own == from,
        from & x1 == 0,
        from & x2 == 0,
        king & x1 == 0,
        king & x2 == 0,
        theirs & (from | king) == 0,
        theirs & king == 0,
        from & board != 0,
{
}

/// A square among squares that hold no own piece and not the other king
/// holds none of them.
#[verifier::rlimit(100)]
pub proof fn lemma_target_clear(to: u64, first: u64, second: u64, f: u64, ek: u64, all: u64)
    by (bit_vector)
    ensures
        to & (first | second) == to && first & (f | ek) == 0 && second & (f | ek) == 0 ==> to & f == 0 && to
            & ek == 0,
        to & first == to && first & (f | ek) == 0 ==> to & f == 0 && to & ek == 0,
        to & first == to && first & ek == 0 ==> to & ek == 0,
        to & first == to && to & (first ^ f) == to ==> to & f == 0,
        to & (ALL_SQUARES ^ all) == to && f & !all == 0 && ek & all == ek ==> to & all == 0 && to
            & f == 0 && to & ek == 0,
        to & all == 0 && f & !all == 0 && ek & all == ek ==> to & f == 0 && to & ek == 0,
        to & first == to && first & f == 0 ==> to & f == 0,
        to != 0 && to & first == to ==> to & (second | first) != 0 && to & (first | second) != 0 && to & first != 0,
{
}

/// What the context of a well-formed game holds, in plain boards.
pub proof fn lemma_context_facts(g: GameView)
    requires
        g.well_formed(),
    ensures
        ({
            let ctx = g.context();
            let own = g.position.side(g.player);
            let enemy = g.position.side(!g.player);
            let all = g.position.all.0;
            let c = ctx.attackers.0;
            &&& ctx.player == g.player
            &&& ctx.position == g.position
            &&& ctx.en_passant_square == g.en_passant_square
            &&& ctx.possible_castles == g.possible_castles
            &&& ctx.king == own.king
            &&& ctx.friendly_pieces == own.all
            &&& ctx.enemy_pieces == enemy.all
            &&& ctx.empty_squares.0 == ALL_SQUARES ^ all
            &&& ctx.enemy_queens_and_rooks.0 == enemy.queen.0 | enemy.rook.0
            &&& ctx.enemy_queens_and_bishops.0 == enemy.queen.0 | enemy.bishop.0
            &&& ctx.attacked_squares.0 == attacked_among(
                all ^ own.king.0,
                enemy.king.0,
                enemy.queen.0,
                enemy.rook.0,
                enemy.bishop.0,
                enemy.knight.0,
                enemy.pawn.0,
                !g.player,
            )
            &&& c == attackers_among(
                all,
                enemy.king.0,
                enemy.queen.0,
                enemy.rook.0,
                enemy.bishop.0,
                enemy.knight.0,
                enemy.pawn.0,
                !g.player,
                own.king.0,
            )
            &&& count_squares(c) <= 1 <==> at_most_one(c)
            &&& c != 0 && at_most_one(c) ==> {
                &&& ctx.capture_mask.0 == c
                &&& ctx.capture_or_push_mask.0 == ctx.capture_mask.0 | ctx.push_mask.0
                &&& ctx.capture_or_push_mask.0 == answer_mask(
                    own.king.0,
                    c,
                    enemy.knight.0,
                    enemy.pawn.0,
                )
            }
            &&& attackers_among(
                all,
                own.king.0,
                own.queen.0,
                own.rook.0,
                own.bishop.0,
                own.knight.0,
                own.pawn.0,
                g.player,
                enemy.king.0,
            ) == 0
        }),
{
    reveal(MoveContext::of);
    reveal(Position::attackers_of);
    lemma_attacked_closed(g.position, g.player);
    let c = g.context().attackers.0;
    lemma_count_facts(c);
    lemma_count_step(c, 0);
}

/// A move of one piece other than the king that neither castles nor takes
/// en passant leaves the own king unattacked, if the piece stays on the
/// squares its pin allows and the move answers the check that is on.
proof fn lemma_plain_move_safe(g: GameView, m: Move)
    requires
        g.well_formed(),
        m.is_castling.is_none(),
        !m.is_capturing_en_passant,
        m.player == g.player,
        m.piece != Piece::King,
        single(m.from_square.0),
        m.from_square.0 & g.position.side(g.player).board(m.piece) == m.from_square.0,
        single(m.to_square.0),
        m.to_square.0 & g.position.side(g.player).all.0 == 0,
        m.to_square.0 & g.position.side(!g.player).king.0 == 0,
        m.to_square.0 & g.context().pin(m.from_square.0) == m.to_square.0,
        count_squares(g.context().attackers.0) <= 1,
        g.context().attackers.0 != 0 ==> m.to_square.0 & g.context().capture_or_push_mask.0 != 0,
    ensures
        !g.position.after_move(m).0.in_check(g.player),
{
    let ctx = g.context();
    let position = g.position;
    let own = position.side(g.player);
    let enemy = position.side(!g.player);
    let all = position.all.0;
    let from = m.from_square.0;
    let to = m.to_square.0;
    let king = own.king.0;
    let x1 = enemy.queen.0 | enemy.rook.0;
    let x2 = enemy.queen.0 | enemy.bishop.0;
    let theirs = enemy.king.0 | enemy.queen.0 | enemy.rook.0 | enemy.bishop.0 | enemy.knight.0
        | enemy.pawn.0;
    lemma_context_facts(g);
    lemma_position_facts(position, g.player);
    lemma_move_premises(from, to, own.board(m.piece), own.all.0, all, theirs, king, x1, x2);
    reveal(MoveContext::pin);
    lemma_target_clear(to, ctx.pin(from), 0, 0, 0, 0);
    lemma_pinned_move_uncovers_nothing(all, king, x1, x2, from, to);
    lemma_answered_check(
        all,
        king,
        enemy.king.0,
        enemy.queen.0,
        enemy.rook.0,
        enemy.bishop.0,
        enemy.knight.0,
        enemy.pawn.0,
        !g.player,
        from,
        to,
        ctx.attackers.0,
    );
    reveal(Position::after_move);
    reveal(Position::attackers_of);
    lemma_struck(enemy, to);
}

/// A listed step of the king fits the position and leaves the king
/// unattacked.
proof fn lemma_king_move_legal(g: GameView, m: Move)
    requires
        g.well_formed(),
        m == Move::plain(g.player, Piece::King, g.context().king.0, m.to_square.0),
        single(m.to_square.0),
        m.to_square.0 & g.context().king_targets() == m.to_square.0,
    ensures
        m.fits(g.position),
        !g.position.after_move(m).0.in_check(g.player),
{
    let ctx = g.context();
    let position = g.position;
    let own = position.side(g.player);
    let enemy = position.side(!g.player);
    let all = position.all.0;
    let to = m.to_square.0;
    let king = own.king.0;
    let theirs = enemy.king.0 | enemy.queen.0 | enemy.rook.0 | enemy.bishop.0 | enemy.knight.0
        | enemy.pawn.0;
    lemma_context_facts(g);
    lemma_position_facts(position, g.player);
    lemma_subset_of_meet(to, king_span(king), ctx.attacked_squares.0, own.all.0, 0, 0);
    lemma_set_algebra(king, king, 0);
    lemma_moves_miss_the_king(
        all,
        own.king.0,
        own.queen.0,
        own.rook.0,
        own.bishop.0,
        own.knight.0,
        own.pawn.0,
        own.all.0,
        enemy.all.0,
        enemy.king.0,
        g.player,
        king,
    );
    lemma_target_clear(to, king_span(king), 0, 0, enemy.king.0, 0);
    lemma_set_algebra(theirs, own.all.0, 0);
    lemma_set_algebra(king, own.all.0, theirs);
    lemma_king_step_safe(
        all,
        king,
        enemy.king.0,
        enemy.queen.0,
        enemy.rook.0,
        enemy.bishop.0,
        enemy.knight.0,
        enemy.pawn.0,
        !g.player,
        to,
    );
    reveal(Position::after_move);
    reveal(Position::attackers_of);
    lemma_struck(enemy, to);
    lemma_set_algebra(king, to, 0);
}

/// A listed move of a queen, rook, bishop or knight fits the position and
/// leaves the king unattacked.
proof fn lemma_piece_move_legal(g: GameView, m: Move)
    requires
        g.well_formed(),
        count_squares(g.context().attackers.0) <= 1,
        m.piece == Piece::Queen || m.piece == Piece::Rook || m.piece == Piece::Bishop || m.piece
            == Piece::Knight,
        m == Move::plain(g.player, m.piece, m.from_square.0, m.to_square.0),
        single(m.from_square.0),
        m.from_square.0 & g.position.side(g.player).board(m.piece) == m.from_square.0,
        single(m.to_square.0),
        m.to_square.0 & g.context().targets(m.piece, m.from_square.0) == m.to_square.0,
    ensures
        m.fits(g.position),
        !g.position.after_move(m).0.in_check(g.player),
{
    let ctx = g.context();
    let position = g.position;
    let own = position.side(g.player);
    let enemy = position.side(!g.player);
    let all = position.all.0;
    let from = m.from_square.0;
    let to = m.to_square.0;
    let king = own.king.0;
    let mask = ctx.capture_or_push_mask.0;
    let pin = ctx.pin(from);
    lemma_context_facts(g);
    lemma_position_facts(position, g.player);
    lemma_set_algebra(from, own.board(m.piece), own.queen.0 | own.rook.0);
    lemma_set_algebra(from, own.board(m.piece), own.queen.0 | own.bishop.0);
    lemma_set_algebra(from, own.queen.0, own.queen.0 | own.rook.0);
    lemma_set_algebra(from, own.queen.0, own.queen.0 | own.bishop.0);
    lemma_set_algebra(from, own.rook.0, own.queen.0 | own.rook.0);
    lemma_set_algebra(from, own.bishop.0, own.queen.0 | own.bishop.0);
    lemma_moves_miss_the_king(
        all,
        own.king.0,
        own.queen.0,
        own.rook.0,
        own.bishop.0,
        own.knight.0,
        own.pawn.0,
        own.all.0,
        enemy.all.0,
        enemy.king.0,
        g.player,
        from,
    );
    let straight = rank_and_file_moves(all, enemy.all.0, from);
    let diagonal = diagonal_moves(all, enemy.all.0, from);
    let jumps = knight_span(from);
    match m.piece {
        Piece::Queen => {
            reveal(MoveContext::queen_targets);
            lemma_subset_of_meet(to, mask, straight | diagonal, pin, 0, 0);
            lemma_target_clear(to, straight, diagonal, own.all.0, enemy.king.0, 0);
        },
        Piece::Rook => {
            reveal(MoveContext::rook_targets);
            lemma_subset_of_meet(to, mask, straight, pin, 0, 0);
            lemma_target_clear(to, straight, 0, own.all.0, enemy.king.0, 0);
        },
        Piece::Bishop => {
            reveal(MoveContext::bishop_targets);
            lemma_subset_of_meet(to, mask, diagonal, pin, 0, 0);
            lemma_target_clear(to, diagonal, 0, own.all.0, enemy.king.0, 0);
        },
        _ => {
            lemma_subset_of_meet(to, mask, jumps, jumps ^ own.all.0, pin, 0);
            lemma_target_clear(to, jumps, 0, own.all.0, enemy.king.0, 0);
        },
    }
    lemma_target_clear(to, mask, 0, 0, 0, 0);
    lemma_set_algebra(from, own.board(m.piece), 0);
    lemma_plain_move_safe(g, m);
}


/// The ranks that a pawn step can reach.
#[verifier::rlimit(100)]
pub proof fn lemma_pawn_ranks(from: u64, t: u64)
    by (bit_vector)
    ensures
        t & shift_top(from) == t ==> t & RANK_1 == 0,
        t & shift_left(shift_top(from)) == t ==> t & RANK_1 == 0,
        t & shift_right(shift_top(from)) == t ==> t & RANK_1 == 0,
        t & shift_bottom(from) == t ==> t & RANK_8 == 0,
        t & shift_left(shift_bottom(from)) == t ==> t & RANK_8 == 0,
        t & shift_right(shift_bottom(from)) == t ==> t & RANK_8 == 0,
        t & shift_top(shift_top(from) & RANK_3) == t ==> t & EDGE_RANKS == 0,
        t & shift_bottom(shift_bottom(from) & RANK_6) == t ==> t & EDGE_RANKS == 0,
        t & RANK_1 == 0 ==> (t & RANK_8 != 0 <==> t & EDGE_RANKS != 0),
        t & RANK_8 == 0 ==> (t & RANK_1 != 0 <==> t & EDGE_RANKS != 0),
        t & RANK_8 != 0 ==> t & EDGE_RANKS != 0,
        t & RANK_1 != 0 ==> t & EDGE_RANKS != 0,
{
}

/// A listed single push or capture of a pawn fits the position and leaves
/// the king unattacked.
proof fn lemma_pawn_step_legal(g: GameView, m: Move, from: u64, target: u64)
    requires
        g.well_formed(),
        count_squares(g.context().attackers.0) <= 1,
        single(from),
        from & g.position.side(g.player).pawn.0 == from,
        target == g.context().pawn_single_target(from) || target == g.context().pawn_attack_left(
            from,
        ) || target == g.context().pawn_attack_right(from),
        pawn_step_moves(g.player, from, target).contains(m),
    ensures
        m.player == g.player,
        m.fits(g.position),
        !g.position.after_move(m).0.in_check(g.player),
        m.en_passant_square.0 == 0,
{
    let ctx = g.context();
    let position = g.position;
    let own = position.side(g.player);
    let enemy = position.side(!g.player);
    let all = position.all.0;
    let to = target;
    let forward = ctx.forward(from);
    let pin = ctx.pin(from);
    lemma_context_facts(g);
    lemma_position_facts(position, g.player);
    lemma_in_pawn_step(g.player, from, target, m);
    lemma_one_square(from);
    lemma_at_most_one(from, 0);
    lemma_set_algebra(to, 0, 0);
    lemma_set_algebra(enemy.all.0, own.all.0, 0);
    lemma_moves_miss_the_king(
        all,
        own.king.0,
        own.queen.0,
        own.rook.0,
        own.bishop.0,
        own.knight.0,
        own.pawn.0,
        own.all.0,
        enemy.all.0,
        enemy.king.0,
        g.player,
        from,
    );
    lemma_set_algebra(from, own.pawn.0, 0);
    lemma_pawn_ranks(from, to);
    if target == ctx.pawn_single_target(from) {
        lemma_at_most_one(forward, ctx.empty_squares.0);
        lemma_at_most_one(forward & ctx.empty_squares.0, pin);
        lemma_at_most_one(forward & ctx.empty_squares.0 & pin, ctx.push_mask.0);
        lemma_subset_of_meet(to, forward, ctx.empty_squares.0, pin, ctx.push_mask.0, 0);
        lemma_target_clear(to, 0, 0, own.all.0, enemy.king.0, all);
        lemma_target_clear(to, ctx.push_mask.0, ctx.capture_mask.0, 0, 0, 0);
    } else if target == ctx.pawn_attack_left(from) {
        let side = shift_left(forward);
        lemma_at_most_one(forward, 0);
        lemma_at_most_one(side, ctx.enemy_pieces.0);
        lemma_at_most_one(side & ctx.enemy_pieces.0, pin);
        lemma_at_most_one(side & ctx.enemy_pieces.0 & pin, ctx.capture_mask.0);
        lemma_subset_of_meet(to, side, ctx.enemy_pieces.0, pin, ctx.capture_mask.0, 0);
        lemma_target_clear(to, ctx.enemy_pieces.0, 0, own.all.0, 0, 0);
        lemma_target_clear(to, side, 0, 0, enemy.king.0, 0);
        lemma_target_clear(to, ctx.capture_mask.0, ctx.push_mask.0, 0, 0, 0);
    } else {
        let side = shift_right(forward);
        lemma_at_most_one(forward, 0);
        lemma_at_most_one(side, ctx.enemy_pieces.0);
        lemma_at_most_one(side & ctx.enemy_pieces.0, pin);
        lemma_at_most_one(side & ctx.enemy_pieces.0 & pin, ctx.capture_mask.0);
        lemma_subset_of_meet(to, side, ctx.enemy_pieces.0, pin, ctx.capture_mask.0, 0);
        lemma_target_clear(to, ctx.enemy_pieces.0, 0, own.all.0, 0, 0);
        lemma_target_clear(to, side, 0, 0, enemy.king.0, 0);
        lemma_target_clear(to, ctx.capture_mask.0, ctx.push_mask.0, 0, 0, 0);
    }
    lemma_set_algebra(to, 0, 0);
    lemma_plain_move_safe(g, m);
}

/// A listed double push of a pawn fits the position and leaves the king
/// unattacked.
proof fn lemma_double_push_legal(g: GameView, m: Move, from: u64)
    requires
        g.well_formed(),
        count_squares(g.context().attackers.0) <= 1,
        single(from),
        from & g.position.side(g.player).pawn.0 == from,
        g.context().double_push_moves(from).contains(m),
    ensures
        m.player == g.player,
        m.fits(g.position),
        !g.position.after_move(m).0.in_check(g.player),
        m == Move::double_push(
            g.player,
            from,
            g.context().pawn_double_target(from),
            Position::behind(g.player, g.context().pawn_double_target(from)),
        ),
        single(m.to_square.0),
{
    let ctx = g.context();
    let position = g.position;
    let own = position.side(g.player);
    let enemy = position.side(!g.player);
    let all = position.all.0;
    let to = ctx.pawn_double_target(from);
    let forward = ctx.forward(from);
    let pin = ctx.pin(from);
    let empty = ctx.empty_squares.0;
    let rank = if g.player {
        RANK_3
    } else {
        RANK_6
    };
    let ahead = ctx.forward(forward & rank);
    lemma_context_facts(g);
    lemma_position_facts(position, g.player);
    assert(ctx.double_push_moves(from)[0] == m);
    lemma_one_square(from);
    lemma_at_most_one(from, 0);
    lemma_at_most_one(forward, rank);
    lemma_at_most_one(forward & rank, 0);
    lemma_at_most_one(ahead, empty);
    lemma_at_most_one(ahead & empty, ctx.forward(empty));
    lemma_at_most_one(ahead & empty & ctx.forward(empty), pin);
    lemma_at_most_one(ahead & empty & ctx.forward(empty) & pin, ctx.push_mask.0);
    lemma_set_algebra(to, 0, 0);
    lemma_subset_of_meet(to, ahead, empty, ctx.forward(empty), pin, ctx.push_mask.0);
    lemma_target_clear(to, 0, 0, own.all.0, enemy.king.0, all);
    lemma_target_clear(to, ctx.push_mask.0, ctx.capture_mask.0, 0, 0, 0);
    lemma_set_algebra(from, own.pawn.0, 0);
    lemma_pawn_ranks(from, to);
    lemma_plain_move_safe(g, m);
}

/// A listed en-passant capture fits the position and leaves the king
/// unattacked.
proof fn lemma_en_passant_legal(g: GameView, m: Move, from: u64)
    requires
        g.well_formed(),
        single(from),
        from & g.position.side(g.player).pawn.0 == from,
        g.context().en_passant_moves(from).contains(m),
    ensures
        m.player == g.player,
        m.fits(g.position),
        !g.position.after_move(m).0.in_check(g.player),
        m.en_passant_square.0 == 0,
{
    let ctx = g.context();
    let position = g.position;
    let own = position.side(g.player);
    let enemy = position.side(!g.player);
    let all = position.all.0;
    let to = ctx.pawn_en_passant_target(from);
    let forward = ctx.forward(from);
    let pin = ctx.pin(from);
    let target = g.en_passant_square.0;
    lemma_context_facts(g);
    lemma_position_facts(position, g.player);
    assert(ctx.en_passant_moves(from)[0] == m);
    lemma_set_algebra(to, 0, 0);
    lemma_subset_of_meet(
        to,
        shift_left(forward) | shift_right(forward),
        target,
        pin,
        ctx.forward(ctx.capture_mask.0),
        0,
    );
    lemma_set_algebra(to, target, 0);
    lemma_target_clear(to, 0, 0, own.all.0, enemy.king.0, all);
    lemma_set_algebra(from, own.pawn.0, 0);
}

/// A listed castling move fits the position and leaves the king unattacked.
pub proof fn lemma_castle_legal(g: GameView, m: Move)
    requires
        g.well_formed(),
        g.context().castle_moves().contains(m),
    ensures
        m.player == g.player,
        m.fits(g.position),
        !g.position.after_move(m).0.in_check(g.player),
        m.is_castling.is_some(),
        m.en_passant_square.0 == 0,
{
    let ctx = g.context();
    let position = g.position;
    let own = position.side(g.player);
    let enemy = position.side(!g.player);
    let all = position.all.0;
    let theirs = enemy.king.0 | enemy.queen.0 | enemy.rook.0 | enemy.bishop.0 | enemy.knight.0
        | enemy.pawn.0;
    lemma_context_facts(g);
    lemma_position_facts(position, g.player);
    let kingside = if ctx.can_castle_kingside() {
        seq![Move::castling(ctx.player, Castle::Kingside)]
    } else {
        Seq::empty()
    };
    let queenside = if ctx.can_castle_queenside() {
        seq![Move::castling(ctx.player, Castle::Queenside)]
    } else {
        Seq::empty()
    };
    lemma_contains_concat(kingside, queenside, m);
    let side = if kingside.contains(m) {
        Castle::Kingside
    } else {
        Castle::Queenside
    };
    if kingside.contains(m) {
        assert(kingside[0] == m);
    } else {
        assert(queenside[0] == m);
    }
    let corner = rook_home(g.player, side);
    let path: u64 = match (side, g.player) {
        (Castle::Kingside, true) => 0x0000_0000_0000_000E,
        (Castle::Kingside, false) => 0x0E00_0000_0000_0000,
        (Castle::Queenside, true) => 0x0000_0000_0000_0038,
        (Castle::Queenside, false) => 0x3800_0000_0000_0000,
    };
    lemma_corner_squares();
    lemma_set_algebra(corner, own.rook.0, own.all.0);
    lemma_set_algebra(own.rook.0, corner, 0);
    lemma_set_algebra(corner, own.all.0, all);
    lemma_set_algebra(theirs, own.all.0, 0);
    lemma_set_algebra(corner, own.all.0, theirs);
    lemma_set_algebra(own.king.0, own.all.0, theirs);
    lemma_set_algebra(theirs, own.king.0, corner);
    lemma_castle_safe(
        all,
        own.king.0,
        enemy.king.0,
        enemy.queen.0,
        enemy.rook.0,
        enemy.bishop.0,
        enemy.knight.0,
        enemy.pawn.0,
        !g.player,
        corner,
        castle_between(g.player, side),
        path,
        crate::position::castle_king_to(g.player, side),
        crate::position::castle_all_flip(g.player, side),
    );
    reveal(Position::after_move);
    reveal(Position::attackers_of);
}

/// The home squares of kings and rooks are single squares.
pub proof fn lemma_corner_squares()
    ensures
        single(0x0000_0000_0000_0001u64),
        single(0x0000_0000_0000_0080u64),
        single(0x0100_0000_0000_0000u64),
        single(0x8000_0000_0000_0000u64),
        single(0x0000_0000_0000_0008u64),
        single(0x0800_0000_0000_0000u64),
{
    crate::mirror::lemma_flip_constants();
}

/// Every listed move of the side to move in a well-formed game is made by
/// that side, fits the position, and leaves the own king unattacked.
pub proof fn lemma_listed_move_is_legal(g: GameView, m: Move)
    requires
        g.well_formed(),
        g.legal_moves(g.player).contains(m),
    ensures
        m.player == g.player,
        m.fits(g.position),
        !g.position.after_move(m).0.in_check(g.player),
        m.en_passant_square.0 != 0 ==> single(m.from_square.0) && g.context().double_push_moves(
            m.from_square.0,
        ).contains(m),
{
    let ctx = g.context();
    let own = g.position.side(g.player);
    let from = m.from_square.0;
    lemma_listed(ctx, m);
    lemma_context_facts(g);
    if m == Move::plain(ctx.player, Piece::King, ctx.king.0, m.to_square.0) && single(
        m.to_square.0,
    ) && m.to_square.0 & ctx.king_targets() == m.to_square.0 {
        lemma_king_move_legal(g, m);
    } else if ctx.castle_moves().contains(m) {
        lemma_castle_legal(g, m);
    } else if single(from) && from & own.pawn.0 == from && ctx.lists_for_pawn(from, m) {
        if ctx.en_passant_moves(from).contains(m) {
            lemma_en_passant_legal(g, m, from);
        } else if ctx.double_push_moves(from).contains(m) {
            lemma_double_push_legal(g, m, from);
        } else if pawn_step_moves(g.player, from, ctx.pawn_single_target(from)).contains(m) {
            lemma_pawn_step_legal(g, m, from, ctx.pawn_single_target(from));
        } else if pawn_step_moves(g.player, from, ctx.pawn_attack_left(from)).contains(m) {
            lemma_pawn_step_legal(g, m, from, ctx.pawn_attack_left(from));
        } else {
            lemma_pawn_step_legal(g, m, from, ctx.pawn_attack_right(from));
        }
    } else {
        lemma_piece_move_legal(g, m);
    }
}


#[verifier::rlimit(100)]
proof fn lemma_home_kept(r: u64, corner: u64, from: u64, to: u64)
    by (bit_vector)
    requires
        single(corner),
        r & corner != 0,
    ensures
        single(from) && from != corner ==> ((r & !from) | to) & corner != 0 && (((r & !from) | to)
            | to) & corner != 0,
        (r | to) & corner != 0,
        single(to) && to != corner ==> (r & !to) & corner != 0,
{
}

/// A castling right that a move leaves in place still has king and rook on
/// their home squares after the move.
proof fn lemma_right_kept(g: GameView, m: Move, owner: bool, side: Castle)
    requires
        g.position.well_formed(),
        m.fits(g.position),
        m.player == g.player,
        castle_ready(g.position, owner, side),
        owner == g.player ==> m.piece != Piece::King && !(m.piece == Piece::Rook
            && m.from_square.0 == rook_home(owner, side)),
        owner != g.player ==> !(g.position.after_move(m).1 == CapturedPiece::Rook
            && m.to_square.0 == rook_home(owner, side)),
    ensures
        castle_ready(g.position.after_move(m).0, owner, side),
{
    reveal(Position::after_move);
    lemma_corner_squares();
    let before = g.position.side(owner);
    let corner = rook_home(owner, side);
    lemma_home_kept(before.rook.0, corner, m.from_square.0, m.to_square.0);
}

/// The square that a double push passes over, and the squares before
/// and behind it.
#[verifier::rlimit(100)]
pub proof fn lemma_passed_square(from: u64, to: u64, all: u64, pawn: u64, white: bool)
    by (bit_vector)
    requires
        single(to),
        to & (ALL_SQUARES ^ all) == to,
        white ==> to & shift_top(shift_top(from) & RANK_3) == to && to & shift_top(
            ALL_SQUARES ^ all,
        ) == to,
        !white ==> to & shift_bottom(shift_bottom(from) & RANK_6) == to && to & shift_bottom(
            ALL_SQUARES ^ all,
        ) == to,
    ensures
        ({
            let passed = if white {
                shift_bottom(to)
            } else {
                shift_top(to)
            };
            let back = if white {
                shift_top(passed)
            } else {
                shift_bottom(passed)
            };
            let origin = if white {
                shift_bottom(passed)
            } else {
                shift_top(passed)
            };
            &&& single(passed)
            &&& passed & ((all & !from) | to) == 0
            &&& passed & all == 0
            &&& passed & EDGE_RANKS == 0
            &&& back == to
            &&& back & ((pawn & !from) | to) != 0
            &&& single(from) ==> origin == from && from & ((all & !from) | to) == 0
            &&& from & pawn == from && to & pawn == 0 ==> ((((pawn & !from) | to) & !to) | from)
                == pawn
            &&& to & all == 0 && (pawn & !all == 0 || pawn & all == pawn) ==> to & pawn == 0
        }),
{
}

/// The square that a listed double push passes over is a sound en-passant
/// target in the game after the push.
proof fn lemma_double_push_target(g: GameView, m: Move)
    requires
        g.well_formed(),
        m.fits(g.position),
        m.player == g.player,
        single(m.from_square.0),
        g.context().double_push_moves(m.from_square.0).contains(m),
    ensures
        ({
            let next = g.position.after_move(m).0;
            let target = m.en_passant_square.0;
            &&& single(target)
            &&& target & next.all.0 == 0
            &&& target & EDGE_RANKS == 0
            &&& Position::behind(!g.player, target) & next.side(g.player).pawn.0 != 0
            &&& Position::behind(g.player, target) & next.all.0 == 0
            &&& before_push(next, !g.player, target) == g.position
        }),
{
    let ctx = g.context();
    let position = g.position;
    let own = position.side(g.player);
    let enemy = position.side(!g.player);
    let all = position.all.0;
    let from = m.from_square.0;
    let to = ctx.pawn_double_target(from);
    let forward = ctx.forward(from);
    let pin = ctx.pin(from);
    let empty = ctx.empty_squares.0;
    let rank = if g.player {
        RANK_3
    } else {
        RANK_6
    };
    let ahead = ctx.forward(forward & rank);
    lemma_context_facts(g);
    assert(ctx.double_push_moves(from)[0] == m);
    lemma_one_square(from);
    lemma_at_most_one(from, 0);
    lemma_at_most_one(forward, rank);
    lemma_at_most_one(forward & rank, 0);
    lemma_at_most_one(ahead, empty);
    lemma_at_most_one(ahead & empty, ctx.forward(empty));
    lemma_at_most_one(ahead & empty & ctx.forward(empty), pin);
    lemma_at_most_one(ahead & empty & ctx.forward(empty) & pin, ctx.push_mask.0);
    lemma_set_algebra(to, 0, 0);
    lemma_subset_of_meet(to, ahead, empty, ctx.forward(empty), pin, ctx.push_mask.0);
    assert(m.piece == Piece::Pawn);
    lemma_single_in_or_out(from, own.pawn.0);
    lemma_set_algebra(to, all, 0);
    lemma_set_algebra(all, 0, 0);
    lemma_position_facts(position, g.player);
    lemma_position_facts(position, !g.player);
    lemma_set_algebra(own.pawn.0, own.all.0, all);
    lemma_set_algebra(enemy.pawn.0, enemy.all.0, all);
    lemma_set_algebra(enemy.knight.0, enemy.all.0, all);
    lemma_set_algebra(enemy.bishop.0, enemy.all.0, all);
    lemma_set_algebra(enemy.rook.0, enemy.all.0, all);
    lemma_set_algebra(enemy.queen.0, enemy.all.0, all);
    lemma_set_algebra(from, own.pawn.0, own.all.0);
    lemma_set_algebra(from, own.all.0, all);
    lemma_passed_square(from, to, all, own.pawn.0, g.player);
    lemma_passed_square(from, to, all, own.all.0, g.player);
    lemma_passed_square(from, to, all, all, g.player);
    lemma_passed_square(from, to, all, enemy.pawn.0, g.player);
    lemma_passed_square(from, to, all, enemy.knight.0, g.player);
    lemma_passed_square(from, to, all, enemy.bishop.0, g.player);
    lemma_passed_square(from, to, all, enemy.rook.0, g.player);
    lemma_passed_square(from, to, all, enemy.queen.0, g.player);
    reveal(Position::after_move);
}

/// A listed move of the side to move in a well-formed game leads to a
/// well-formed game: the twelve boards share no square, the occupancies
/// are the unions, each side has one king, no pawn stands on rank 1 or 8,
/// the side that moved is not in check, and the castling rights and the
/// en-passant target agree with the position.
pub proof fn lemma_listed_move_keeps_well_formed(g: GameView, m: Move)
    requires
        g.well_formed(),
        g.legal_moves(g.player).contains(m),
    ensures
        g.after_move(m).well_formed(),
{
    lemma_listed_move_is_legal(g, m);
    lemma_move_keeps_well_formed(g.position, m);
    let next = g.after_move(m);
    let taken = g.position.after_move(m).1;
    if next.possible_castles.white_kingside {
        lemma_right_kept(g, m, true, Castle::Kingside);
    }
    if next.possible_castles.white_queenside {
        lemma_right_kept(g, m, true, Castle::Queenside);
    }
    if next.possible_castles.black_kingside {
        lemma_right_kept(g, m, false, Castle::Kingside);
    }
    if next.possible_castles.black_queenside {
        lemma_right_kept(g, m, false, Castle::Queenside);
    }
    if m.en_passant_square.0 != 0 {
        lemma_double_push_target(g, m);
    }
}


/// What is in one of two lists is in the two lists in a row.
pub proof fn lemma_concat_contains(a: Seq<Move>, b: Seq<Move>, m: Move)
    requires
        a.contains(m) || b.contains(m),
    ensures
        (a + b).contains(m),
{
    if a.contains(m) {
        let i = choose|i: int| 0 <= i < a.len() && a[i] == m;
        assert((a + b)[i] == m);
    } else {
        let i = choose|i: int| 0 <= i < b.len() && b[i] == m;
        assert((a + b)[a.len() + i] == m);
    }
}

/// A square of a set that is not its lowest square is in the set without
/// its lowest square.
pub proof fn lemma_not_lowest(b: u64, x: u64)
    requires
        single(x),
        x & b == x,
        x != lowest_square(b),
    ensures
        x & without_lowest(b) == x,
{
    crate::mirror::lemma_lowest_mirror(b, x, 0);
}

/// The moves of one pawn are among the moves of the pawns.
pub proof fn lemma_pawn_block_listed(ctx: MoveContext, pawns: u64, from: u64, m: Move)
    requires
        single(from),
        from & pawns == from,
        ctx.moves_of_pawn(from).contains(m),
    ensures
        ctx.pawn_moves(pawns).contains(m),
    decreases pawns,
{
    lemma_set_algebra(from, pawns, 0);
    lemma_lowest(pawns);
    let first = ctx.moves_of_pawn(lowest_square(pawns));
    let rest = ctx.pawn_moves(without_lowest(pawns));
    if from != lowest_square(pawns) {
        lemma_not_lowest(pawns, from);
        lemma_pawn_block_listed(ctx, without_lowest(pawns), from, m);
    }
    lemma_concat_contains(first, rest, m);
}

/// The moves of one step of a pawn are among the moves of that pawn.
pub proof fn lemma_step_in_block(ctx: MoveContext, from: u64, target: u64, m: Move)
    requires
        target == ctx.pawn_single_target(from) || target == ctx.pawn_attack_left(from) || target
            == ctx.pawn_attack_right(from),
        pawn_step_moves(ctx.player, from, target).contains(m),
    ensures
        ctx.moves_of_pawn(from).contains(m),
{
    let a = pawn_step_moves(ctx.player, from, ctx.pawn_single_target(from));
    let b = pawn_step_moves(ctx.player, from, ctx.pawn_attack_left(from));
    let c = pawn_step_moves(ctx.player, from, ctx.pawn_attack_right(from));
    let d = ctx.double_push_moves(from);
    let e = ctx.en_passant_moves(from);
    if a.contains(m) || b.contains(m) {
        lemma_concat_contains(a, b, m);
    }
    lemma_concat_contains(a + b, c, m);
    lemma_concat_contains(a + b + c, d, m);
    lemma_concat_contains(a + b + c + d, e, m);
}

/// A pawn that reaches the last rank promotes, and the list holds all four
/// promotions of that step: to queen, rook, bishop and knight.
pub proof fn lemma_promotions_come_in_fours(g: GameView, m: Move)
    requires
        g.well_formed(),
        g.legal_moves(g.player).contains(m),
        m.piece == Piece::Pawn,
        m.to_square.0 & promotion_rank(g.player) != 0,
    ensures
        m.is_promoting_to.is_some(),
        m == Move::promotion(
            g.player,
            m.from_square.0,
            m.to_square.0,
            m.is_promoting_to.unwrap(),
        ),
        forall|promotion: PromotionPiece|
            g.legal_moves(g.player).contains(
                #[trigger] Move::promotion(g.player, m.from_square.0, m.to_square.0, promotion),
            ),
{
    let ctx = g.context();
    let own = g.position.side(g.player);
    let from = m.from_square.0;
    let to = m.to_square.0;
    lemma_listed_move_is_legal(g, m);
    lemma_listed(ctx, m);
    lemma_context_facts(g);
    lemma_pawn_ranks(0, to);
    assert(!ctx.castle_moves().contains(m)) by {
        if ctx.castle_moves().contains(m) {
            lemma_castle_legal(g, m);
        }
    }
    assert(!ctx.double_push_moves(from).contains(m));
    assert(!ctx.en_passant_moves(from).contains(m));
    let target = if pawn_step_moves(g.player, from, ctx.pawn_single_target(from)).contains(m) {
        ctx.pawn_single_target(from)
    } else if pawn_step_moves(g.player, from, ctx.pawn_attack_left(from)).contains(m) {
        ctx.pawn_attack_left(from)
    } else {
        ctx.pawn_attack_right(from)
    };
    lemma_in_pawn_step(g.player, from, target, m);
    let block = pawn_step_moves(g.player, from, target);
    assert(block[0] == Move::promotion(g.player, from, to, PromotionPiece::Queen));
    assert(block[1] == Move::promotion(g.player, from, to, PromotionPiece::Rook));
    assert(block[2] == Move::promotion(g.player, from, to, PromotionPiece::Bishop));
    assert(block[3] == Move::promotion(g.player, from, to, PromotionPiece::Knight));
    let i = choose|i: int| 0 <= i < block.len() && block[i] == m;
    assert(block[i] == m);
    assert forall|promotion: PromotionPiece|
        g.legal_moves(g.player).contains(
            #[trigger] Move::promotion(g.player, from, to, promotion),
        ) by {
        let x = Move::promotion(g.player, from, to, promotion);
        assert(block.contains(x)) by {
            match promotion {
                PromotionPiece::Queen => {
                    assert(block[0] == x);
                },
                PromotionPiece::Rook => {
                    assert(block[1] == x);
                },
                PromotionPiece::Bishop => {
                    assert(block[2] == x);
                },
                PromotionPiece::Knight => {
                    assert(block[3] == x);
                },
            }
        }
        lemma_step_in_block(ctx, from, target, x);
        lemma_pawn_block_listed(ctx, own.pawn.0, from, x);
        let king = plain_moves(ctx.player, Piece::King, ctx.king.0, ctx.king_targets());
        let queens = ctx.piece_moves(Piece::Queen, own.queen.0);
        let rooks = ctx.piece_moves(Piece::Rook, own.rook.0);
        let bishops = ctx.piece_moves(Piece::Bishop, own.bishop.0);
        let knights = ctx.piece_moves(Piece::Knight, own.knight.0);
        let pawns = ctx.pawn_moves(own.pawn.0);
        lemma_concat_contains(king + queens + rooks + bishops + knights, pawns, x);
        lemma_concat_contains(
            king + queens + rooks + bishops + knights + pawns,
            ctx.castle_moves(),
            x,
        );
    }
}


} // verus!
