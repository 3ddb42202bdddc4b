//! The mirror of a game: the board upside down, the colours changed, and
//! with them the side to move and the castling rights. What one side can do
//! in a game, the other side can do in its mirror.

use vstd::prelude::*;
use crate::bitboard::{
    king_span, knight_span, shift_bottom, shift_left, shift_right, shift_top, single, Bitboard,
    ALL_SQUARES,
};
use crate::chess_move::{Move};
use crate::direction::Direction;
use crate::game::GameView;
use crate::legality::{
    lemma_attacked_closed, lemma_context_facts, lemma_count_facts, lemma_move_premises,
    lemma_position_facts, lemma_set_algebra,
};
use crate::mirror::{
    flip, lemma_attacked_mirror, lemma_flip_algebra, lemma_flip_constants, lemma_join_mirror,
    lemma_moves_on_ray_mirror, lemma_pin_mirror, lemma_pushes_mirror, lemma_rays_mirror,
};
use crate::movegen::{
    blocking_squares, diagonal_moves, moves_on_ray, rank_and_file_moves, MoveContext,
    PossibleCastles, RANK_3, RANK_6,
};
use crate::piece::{CapturedPiece, Piece, PromotionPiece};
use crate::position::{
    attacker_on_ray, attackers_among, castle_all_flip, castle_king_to, castle_rook_flip,
    push_squares, Pieces, Position,
};

verus! {

impl Pieces {
    /// The same pieces with every board turned upside down.
    pub open spec fn flipped(self) -> Pieces {
        Pieces {
            all: Bitboard(flip(self.all.0)),
            king: Bitboard(flip(self.king.0)),
            queen: Bitboard(flip(self.queen.0)),
            rook: Bitboard(flip(self.rook.0)),
            bishop: Bitboard(flip(self.bishop.0)),
            knight: Bitboard(flip(self.knight.0)),
            pawn: Bitboard(flip(self.pawn.0)),
        }
    }
}

impl Position {
    /// The position upside down with the colours changed.
    pub open spec fn mirrored(self) -> Position {
        Position {
            all: Bitboard(flip(self.all.0)),
            white: self.black.flipped(),
            black: self.white.flipped(),
        }
    }
}

impl Move {
    /// The same move made by the other side on the board upside down.
    pub open spec fn mirrored(self) -> Move {
        Move {
            player: !self.player,
            piece: self.piece,
            from_square: Bitboard(flip(self.from_square.0)),
            to_square: Bitboard(flip(self.to_square.0)),
            en_passant_square: Bitboard(flip(self.en_passant_square.0)),
            is_capturing_en_passant: self.is_capturing_en_passant,
            is_castling: self.is_castling,
            is_promoting_to: self.is_promoting_to,
        }
    }
}

impl PossibleCastles {
    /// The rights of white given to black and those of black to white.
    pub open spec fn mirrored(self) -> PossibleCastles {
        PossibleCastles {
            white_kingside: self.black_kingside,
            white_queenside: self.black_queenside,
            black_kingside: self.white_kingside,
            black_queenside: self.white_queenside,
        }
    }
}

/// True when `b` is a mirror of `a`: the position upside down with the
/// colours changed, the other side to move, the castling rights changed
/// over and the en-passant target upside down. The counters and the earlier
/// positions do not matter.
pub open spec fn mirrors(a: GameView, b: GameView) -> bool {
    &&& b.position == a.position.mirrored()
    &&& b.player == !a.player
    &&& b.possible_castles == a.possible_castles.mirrored()
    &&& b.en_passant_square.0 == flip(a.en_passant_square.0)
}

impl GameView {
    /// The mirror of this game with the same counters and earlier positions.
    pub open spec fn mirrored(self) -> GameView {
        GameView {
            position: self.position.mirrored(),
            player: !self.player,
            possible_castles: self.possible_castles.mirrored(),
            en_passant_square: Bitboard(flip(self.en_passant_square.0)),
            previous_positions: self.previous_positions,
            move_counter: self.move_counter,
            fifty_move_counter: self.fifty_move_counter,
        }
    }
}

/// What can happen to one board in a move happens upside down to the board
/// upside down.
pub proof fn lemma_board_mirror(b: u64, x: u64, y: u64)
    ensures
        flip((b & !x) | y) == (flip(b) & !flip(x)) | flip(y),
        flip(b & !x) == flip(b) & !flip(x),
        flip(b | x) == flip(b) | flip(x),
        flip(b ^ x) == flip(b) ^ flip(x),
        flip(b & x) == flip(b) & flip(x),
        (x & b != 0) == (flip(x) & flip(b) != 0),
        (b & x != 0) == (flip(b) & flip(x) != 0),
        (b == 0) == (flip(b) == 0),
        flip(flip(b)) == b,
{
    lemma_flip_algebra(b, x, y);
    lemma_flip_algebra(x, b, 0);
    lemma_flip_algebra(x & b, 0, 0);
    lemma_flip_algebra(b & x, 0, 0);
}

proof fn lemma_pieces_mirror(p: Pieces, x: u64, y: u64)
    ensures
        forall|piece: Piece| #[trigger]
            p.flipped().moved(piece, flip(x), flip(y)) == p.moved(piece, x, y).flipped(),
        forall|kind: CapturedPiece| #[trigger]
            p.flipped().without(kind, flip(x)) == p.without(kind, x).flipped(),
        forall|promotion: PromotionPiece| #[trigger]
            p.flipped().promoted(promotion, flip(x)) == p.promoted(promotion, x).flipped(),
        p.flipped().taken_at(flip(x)) == p.taken_at(x),
        p.flipped().castled(flip(x), flip(y), flip(y)) == p.castled(x, y, y).flipped(),
        forall|z: u64| #[trigger]
            p.flipped().castled(flip(x), flip(y), flip(z)) == p.castled(x, y, z).flipped(),
{
    lemma_board_mirror(p.all.0, x, y);
    lemma_board_mirror(p.king.0, x, y);
    lemma_board_mirror(p.queen.0, x, y);
    lemma_board_mirror(p.rook.0, x, y);
    lemma_board_mirror(p.bishop.0, x, y);
    lemma_board_mirror(p.knight.0, x, y);
    lemma_board_mirror(p.pawn.0, x, y);
    lemma_board_mirror(p.rook.0, y, 0);
    assert forall|z: u64| #[trigger]
        p.flipped().castled(flip(x), flip(y), flip(z)) == p.castled(x, y, z).flipped() by {
        lemma_board_mirror(p.all.0, z, 0);
    }
}

/// The mirror of a move in the mirror of a position leads to the mirror of
/// the position that the move leads to, and takes the same.
pub proof fn lemma_after_move_mirror(position: Position, m: Move)
    ensures
        position.mirrored().after_move(m.mirrored()) == (
            position.after_move(m).0.mirrored(),
            position.after_move(m).1,
        ),
{
    reveal(Position::after_move);
    let mover = position.side(m.player);
    let other = position.side(!m.player);
    let from = m.from_square.0;
    let to = m.to_square.0;
    lemma_flip_constants();
    match m.is_castling {
        Some(side) => {
            lemma_pieces_mirror(
                mover,
                castle_king_to(m.player, side),
                castle_rook_flip(m.player, side),
            );
            lemma_board_mirror(position.all.0, castle_all_flip(m.player, side), 0);
            assert(mover.flipped().castled(
                flip(castle_king_to(m.player, side)),
                flip(castle_rook_flip(m.player, side)),
                flip(castle_all_flip(m.player, side)),
            ) == mover.castled(
                castle_king_to(m.player, side),
                castle_rook_flip(m.player, side),
                castle_all_flip(m.player, side),
            ).flipped());
        },
        None => {
            let behind = Position::behind(m.player, to);
            let taken = other.taken_at(to);
            lemma_board_mirror(to, 0, 0);
            lemma_flip_algebra(to, 0, 0);
            lemma_pieces_mirror(mover, from, to);
            lemma_pieces_mirror(other, to, 0);
            lemma_pieces_mirror(other.without(taken, to), behind, 0);
            lemma_pieces_mirror(mover.moved(m.piece, from, to), to, 0);
            lemma_board_mirror(position.all.0, from, to);
            lemma_board_mirror((position.all.0 & !from) | to, behind, 0);
        },
    }
}

/// The pieces of one side that attack a square are, upside down, the
/// pieces of the other side that attack the square upside down in the
/// mirror of the position.
pub proof fn lemma_attackers_mirror(position: Position, player: bool, sq: u64)
    ensures
        position.mirrored().attackers_of(!player, flip(sq)) == flip(
            position.attackers_of(player, sq),
        ),
        position.mirrored().in_check(!player) == position.in_check(player),
{
    reveal(Position::attackers_of);
    lemma_attackers_among_mirror(position.all.0, position.side(player), player, sq);
    let king = position.side(player).king.0;
    lemma_attackers_among_mirror(position.all.0, position.side(!player), !player, king);
    lemma_board_mirror(position.attackers_of(!player, king), 0, 0);
}

proof fn lemma_attackers_among_mirror(all: u64, pieces: Pieces, player: bool, sq: u64)
    ensures
        attackers_among(
            flip(all),
            flip(pieces.king.0),
            flip(pieces.queen.0),
            flip(pieces.rook.0),
            flip(pieces.bishop.0),
            flip(pieces.knight.0),
            flip(pieces.pawn.0),
            !player,
            flip(sq),
        ) == flip(
            attackers_among(
                all,
                pieces.king.0,
                pieces.queen.0,
                pieces.rook.0,
                pieces.bishop.0,
                pieces.knight.0,
                pieces.pawn.0,
                player,
                sq,
            ),
        ),
{
    let qr = pieces.queen.0 | pieces.rook.0;
    let qb = pieces.queen.0 | pieces.bishop.0;
    let forward = if player {
        shift_bottom(sq)
    } else {
        shift_top(sq)
    };
    lemma_board_mirror(pieces.queen.0, pieces.rook.0, 0);
    lemma_board_mirror(pieces.queen.0, pieces.bishop.0, 0);
    lemma_rays_mirror(all, qr, sq, flip(all), flip(qr), flip(sq));
    lemma_rays_mirror(all, qb, sq, flip(all), flip(qb), flip(sq));
    lemma_flip_algebra(sq, 0, 0);
    lemma_flip_algebra(forward, 0, 0);
    lemma_board_mirror(crate::bitboard::king_span(sq), pieces.king.0, 0);
    lemma_board_mirror(crate::bitboard::knight_span(sq), pieces.knight.0, 0);
    lemma_board_mirror(shift_left(forward), pieces.pawn.0, 0);
    lemma_board_mirror(shift_right(forward), pieces.pawn.0, 0);
    lemma_join_mirror(
        crate::bitboard::king_span(sq) & pieces.king.0,
        attacker_on_ray(all, qr, sq, Direction::Top),
        attacker_on_ray(all, qr, sq, Direction::Bottom),
        attacker_on_ray(all, qr, sq, Direction::Left),
        attacker_on_ray(all, qr, sq, Direction::Right),
        attacker_on_ray(all, qb, sq, Direction::TopLeft),
        attacker_on_ray(all, qb, sq, Direction::TopRight),
        attacker_on_ray(all, qb, sq, Direction::BottomLeft),
        attacker_on_ray(all, qb, sq, Direction::BottomRight),
        crate::bitboard::knight_span(sq) & pieces.knight.0,
        shift_left(forward) & pieces.pawn.0,
        shift_right(forward) & pieces.pawn.0,
    );
}

/// The squares that one side attacks are, upside down, the squares that
/// the other side attacks in the mirror of the position.
pub proof fn lemma_attacked_by_mirror(position: Position, player: bool)
    ensures
        position.mirrored().attacked_by(!player) == flip(position.attacked_by(player)),
{
    let own = position.side(player);
    let other = position.side(!player);
    lemma_attacked_closed(position, !player);
    lemma_attacked_closed(position.mirrored(), player);
    lemma_board_mirror(position.all.0, other.king.0, 0);
    lemma_attacked_mirror(
        position.all.0 ^ other.king.0,
        own.king.0,
        own.queen.0,
        own.rook.0,
        own.bishop.0,
        own.knight.0,
        own.pawn.0,
        player,
        flip(position.all.0 ^ other.king.0),
        flip(own.king.0),
        flip(own.queen.0),
        flip(own.rook.0),
        flip(own.bishop.0),
        flip(own.knight.0),
        flip(own.pawn.0),
        position.attacked_by(player),
    );
}


impl MoveContext {
    /// The same context seen in the mirror.
    pub open spec fn mirrored(self) -> MoveContext {
        MoveContext {
            player: !self.player,
            position: self.position.mirrored(),
            en_passant_square: Bitboard(flip(self.en_passant_square.0)),
            possible_castles: self.possible_castles.mirrored(),
            friendly_pieces: Bitboard(flip(self.friendly_pieces.0)),
            enemy_pieces: Bitboard(flip(self.enemy_pieces.0)),
            empty_squares: Bitboard(flip(self.empty_squares.0)),
            attacked_squares: Bitboard(flip(self.attacked_squares.0)),
            attackers: Bitboard(flip(self.attackers.0)),
            capture_mask: Bitboard(flip(self.capture_mask.0)),
            push_mask: Bitboard(flip(self.push_mask.0)),
            capture_or_push_mask: Bitboard(flip(self.capture_or_push_mask.0)),
            king: Bitboard(flip(self.king.0)),
            enemy_queens_and_rooks: Bitboard(flip(self.enemy_queens_and_rooks.0)),
            enemy_queens_and_bishops: Bitboard(flip(self.enemy_queens_and_bishops.0)),
        }
    }
}

/// Where a rook or a bishop can go is, upside down, where it can go upside
/// down; and so for the squares between a king and a checking piece.
pub proof fn lemma_lines_mirror(all: u64, enemy: u64, sq: u64)
    ensures
        rank_and_file_moves(flip(all), flip(enemy), flip(sq)) == flip(
            rank_and_file_moves(all, enemy, sq),
        ),
        diagonal_moves(flip(all), flip(enemy), flip(sq)) == flip(diagonal_moves(all, enemy, sq)),
        blocking_squares(flip(sq), flip(enemy)) == flip(blocking_squares(sq, enemy)),
{
    lemma_moves_on_ray_mirror(all, enemy, sq, Direction::Top);
    lemma_moves_on_ray_mirror(all, enemy, sq, Direction::Bottom);
    lemma_moves_on_ray_mirror(all, enemy, sq, Direction::Left);
    lemma_moves_on_ray_mirror(all, enemy, sq, Direction::Right);
    lemma_moves_on_ray_mirror(all, enemy, sq, Direction::TopLeft);
    lemma_moves_on_ray_mirror(all, enemy, sq, Direction::TopRight);
    lemma_moves_on_ray_mirror(all, enemy, sq, Direction::BottomLeft);
    lemma_moves_on_ray_mirror(all, enemy, sq, Direction::BottomRight);
    lemma_join_mirror(
        0,
        moves_on_ray(all, enemy, sq, Direction::Top),
        moves_on_ray(all, enemy, sq, Direction::Bottom),
        moves_on_ray(all, enemy, sq, Direction::Left),
        moves_on_ray(all, enemy, sq, Direction::Right),
        moves_on_ray(all, enemy, sq, Direction::TopLeft),
        moves_on_ray(all, enemy, sq, Direction::TopRight),
        moves_on_ray(all, enemy, sq, Direction::BottomLeft),
        moves_on_ray(all, enemy, sq, Direction::BottomRight),
        0,
        0,
        0,
    );
    lemma_pushes_mirror(sq, enemy, flip(sq), flip(enemy));
    lemma_join_mirror(
        0,
        push_squares(sq, enemy, Direction::Top),
        push_squares(sq, enemy, Direction::Bottom),
        push_squares(sq, enemy, Direction::Left),
        push_squares(sq, enemy, Direction::Right),
        push_squares(sq, enemy, Direction::TopLeft),
        push_squares(sq, enemy, Direction::TopRight),
        push_squares(sq, enemy, Direction::BottomLeft),
        push_squares(sq, enemy, Direction::BottomRight),
        0,
        0,
        0,
    );
}

/// The context of the mirror of a game is the mirror of its context.
pub proof fn lemma_context_mirror(
    position: Position,
    player: bool,
    target: Bitboard,
    rights: PossibleCastles,
)
    ensures
        MoveContext::of(
            position.mirrored(),
            !player,
            Bitboard(flip(target.0)),
            rights.mirrored(),
        ) == MoveContext::of(position, player, target, rights).mirrored(),
{
    reveal(MoveContext::of);
    let own = position.side(player);
    let enemy = position.side(!player);
    let attackers = position.attackers_of(!player, own.king.0);
    lemma_attackers_mirror(position, !player, own.king.0);
    lemma_attacked_by_mirror(position, !player);
    lemma_count_facts(attackers);
    lemma_count_facts(flip(attackers));
    lemma_flip_algebra(attackers, 0, 0);
    lemma_flip_constants();
    lemma_board_mirror(attackers, enemy.knight.0, 0);
    lemma_board_mirror(attackers, enemy.pawn.0, 0);
    lemma_lines_mirror(0, attackers, own.king.0);
    lemma_board_mirror(ALL_SQUARES, position.all.0, 0);
    lemma_board_mirror(enemy.queen.0, enemy.rook.0, 0);
    lemma_board_mirror(enemy.queen.0, enemy.bishop.0, 0);
    let ctx = MoveContext::of(position, player, target, rights);
    lemma_board_mirror(ctx.capture_mask.0, ctx.push_mask.0, 0);
}


/// One step ahead for a pawn is, upside down, one step ahead for a pawn of
/// the other side.
pub proof fn lemma_forward_mirror(ctx: MoveContext, b: u64)
    ensures
        ctx.mirrored().forward(flip(b)) == flip(ctx.forward(b)),
{
    lemma_flip_algebra(b, 0, 0);
}

/// Where the king may step and castle is, upside down, where the king of
/// the other side may step and castle in the mirror.
pub proof fn lemma_king_targets_mirror(ctx: MoveContext)
    ensures
        ctx.mirrored().king_targets() == flip(ctx.king_targets()),
        ctx.mirrored().can_castle_kingside() == ctx.can_castle_kingside(),
        ctx.mirrored().can_castle_queenside() == ctx.can_castle_queenside(),
        ctx.mirrored().kingside_castle_target() == flip(ctx.kingside_castle_target()),
        ctx.mirrored().queenside_castle_target() == flip(ctx.queenside_castle_target()),
{
    lemma_flip_constants();
    let span = king_span(ctx.king.0);
    let free = span & (ALL_SQUARES ^ ctx.attacked_squares.0);
    lemma_flip_algebra(ctx.king.0, 0, 0);
    lemma_board_mirror(ALL_SQUARES, ctx.attacked_squares.0, 0);
    lemma_board_mirror(span, ALL_SQUARES ^ ctx.attacked_squares.0, 0);
    lemma_board_mirror(free, ctx.friendly_pieces.0, 0);
    lemma_board_mirror(free, free & ctx.friendly_pieces.0, 0);
    lemma_board_mirror(ctx.position.all.0, 0x0000_0000_0000_0006, 0);
    lemma_board_mirror(ctx.position.all.0, 0x0600_0000_0000_0000, 0);
    lemma_board_mirror(ctx.position.all.0, 0x0000_0000_0000_0070, 0);
    lemma_board_mirror(ctx.position.all.0, 0x7000_0000_0000_0000, 0);
    lemma_board_mirror(ctx.attacked_squares.0, 0x0000_0000_0000_000E, 0);
    lemma_board_mirror(ctx.attacked_squares.0, 0x0E00_0000_0000_0000, 0);
    lemma_board_mirror(ctx.attacked_squares.0, 0x0000_0000_0000_0038, 0);
    lemma_board_mirror(ctx.attacked_squares.0, 0x3800_0000_0000_0000, 0);
}

/// The squares a pin allows are, upside down, the squares that the pin
/// allows in the mirror.
pub proof fn lemma_pin_of_mirror(g: GameView, from: u64)
    requires
        g.well_formed(),
        single(from),
        from & g.position.side(g.player).all.0 == from,
        from & g.position.side(g.player).king.0 == 0,
    ensures
        g.context().mirrored().pin(flip(from)) == flip(g.context().pin(from)),
{
    let c1 = g.context();
    let position = g.position;
    let own = position.side(g.player);
    let enemy = position.side(!g.player);
    let all = position.all.0;
    let king = own.king.0;
    let x1 = enemy.queen.0 | enemy.rook.0;
    let x2 = enemy.queen.0 | enemy.bishop.0;
    let theirs = enemy.king.0 | enemy.queen.0 | enemy.rook.0 | enemy.bishop.0 | enemy.knight.0
        | enemy.pawn.0;
    lemma_context_facts(g);
    lemma_position_facts(position, g.player);
    lemma_set_algebra(from, 0, 0);
    lemma_move_premises(from, x1, from, own.all.0, all, theirs, king, x1, x2);
    reveal(MoveContext::pin);
    lemma_pin_mirror(
        all,
        from,
        king,
        x1,
        x2,
        flip(all),
        flip(from),
        flip(king),
        flip(x1),
        flip(x2),
        c1.pin(from),
    );
}

/// Where a queen, rook, bishop or knight may go is, upside down, where it
/// may go in the mirror, if that holds of the squares its pin allows.
pub proof fn lemma_piece_targets_mirror(c1: MoveContext, from: u64)
    requires
        c1.mirrored().pin(flip(from)) == flip(c1.pin(from)),
    ensures
        c1.mirrored().queen_targets(flip(from)) == flip(c1.queen_targets(from)),
        c1.mirrored().rook_targets(flip(from)) == flip(c1.rook_targets(from)),
        c1.mirrored().bishop_targets(flip(from)) == flip(c1.bishop_targets(from)),
        c1.mirrored().knight_targets(flip(from)) == flip(c1.knight_targets(from)),
        forall|piece: Piece|
            piece != Piece::King ==> #[trigger] c1.mirrored().targets(piece, flip(from)) == flip(
                c1.targets(piece, from),
            ),
{
    reveal(MoveContext::queen_targets);
    reveal(MoveContext::rook_targets);
    reveal(MoveContext::bishop_targets);
    let all = c1.position.all.0;
    let pin = c1.pin(from);
    let mask = c1.capture_or_push_mask.0;
    let straight = rank_and_file_moves(all, c1.enemy_pieces.0, from);
    let diagonal = diagonal_moves(all, c1.enemy_pieces.0, from);
    let jumps = knight_span(from);
    lemma_lines_mirror(all, c1.enemy_pieces.0, from);
    lemma_flip_algebra(from, 0, 0);
    lemma_flip_constants();
    lemma_board_mirror(straight, diagonal, 0);
    lemma_board_mirror(mask, straight | diagonal, 0);
    lemma_board_mirror(mask & (straight | diagonal), pin, 0);
    lemma_board_mirror(mask, straight, 0);
    lemma_board_mirror(mask & straight, pin, 0);
    lemma_board_mirror(mask, diagonal, 0);
    lemma_board_mirror(mask & diagonal, pin, 0);
    lemma_board_mirror(mask, jumps, 0);
    lemma_board_mirror(jumps, c1.friendly_pieces.0, 0);
    lemma_board_mirror(mask & jumps, jumps ^ c1.friendly_pieces.0, 0);
    lemma_board_mirror(mask & jumps & (jumps ^ c1.friendly_pieces.0), pin, 0);
}

/// Where a pawn may push and capture is, upside down, where the pawn of
/// the other side may push and capture in the mirror, if that holds of the
/// squares its pin allows.
pub proof fn lemma_pawn_targets_mirror(c1: MoveContext, from: u64)
    requires
        c1.mirrored().pin(flip(from)) == flip(c1.pin(from)),
    ensures
        c1.mirrored().pawn_single_target(flip(from)) == flip(c1.pawn_single_target(from)),
        c1.mirrored().pawn_attack_left(flip(from)) == flip(c1.pawn_attack_left(from)),
        c1.mirrored().pawn_attack_right(flip(from)) == flip(c1.pawn_attack_right(from)),
        c1.mirrored().pawn_double_target(flip(from)) == flip(c1.pawn_double_target(from)),
        c1.mirrored().en_passant_candidate(flip(from)) == flip(c1.en_passant_candidate(from)),
{
    let pin = c1.pin(from);
    let forward = c1.forward(from);
    let empty = c1.empty_squares.0;
    lemma_flip_constants();
    lemma_forward_mirror(c1, from);
    lemma_forward_mirror(c1, empty);
    lemma_forward_mirror(c1, c1.capture_mask.0);
    lemma_board_mirror(forward, empty, 0);
    lemma_board_mirror(forward & empty, pin, 0);
    lemma_board_mirror(forward & empty & pin, c1.push_mask.0, 0);
    lemma_flip_algebra(forward, 0, 0);
    let left = shift_left(forward);
    let right = shift_right(forward);
    lemma_board_mirror(left, c1.enemy_pieces.0, 0);
    lemma_board_mirror(left & c1.enemy_pieces.0, pin, 0);
    lemma_board_mirror(left & c1.enemy_pieces.0 & pin, c1.capture_mask.0, 0);
    lemma_board_mirror(right, c1.enemy_pieces.0, 0);
    lemma_board_mirror(right & c1.enemy_pieces.0, pin, 0);
    lemma_board_mirror(right & c1.enemy_pieces.0 & pin, c1.capture_mask.0, 0);
    let rank = if c1.player {
        RANK_3
    } else {
        RANK_6
    };
    lemma_board_mirror(forward, rank, 0);
    lemma_forward_mirror(c1, forward & rank);
    let ahead = c1.forward(forward & rank);
    lemma_board_mirror(ahead, empty, 0);
    lemma_board_mirror(ahead & empty, c1.forward(empty), 0);
    lemma_board_mirror(ahead & empty & c1.forward(empty), pin, 0);
    lemma_board_mirror(ahead & empty & c1.forward(empty) & pin, c1.push_mask.0, 0);
    let target = c1.en_passant_square.0;
    lemma_board_mirror(left, right, 0);
    lemma_board_mirror(left | right, target, 0);
    lemma_board_mirror((left | right) & target, pin, 0);
    lemma_board_mirror((left | right) & target & pin, c1.forward(c1.capture_mask.0), 0);
}

/// Whether a pawn may capture en passant is the same in the mirror.
pub proof fn lemma_en_passant_mirror(c1: MoveContext, from: u64)
    requires
        c1.mirrored().en_passant_candidate(flip(from)) == flip(c1.en_passant_candidate(from)),
    ensures
        c1.mirrored().pawn_en_passant_target(flip(from)) == flip(
            c1.pawn_en_passant_target(from),
        ),
{
    let to = c1.en_passant_candidate(from);
    lemma_flip_constants();
    lemma_flip_algebra(to, 0, 0);
    let m = Move::en_passant(c1.player, from, to);
    assert(Move::en_passant(!c1.player, flip(from), flip(to)) == m.mirrored());
    lemma_after_move_mirror(c1.position, m);
    lemma_attackers_mirror(c1.position.after_move(m).0, c1.player, 0);
}

} // verus!
