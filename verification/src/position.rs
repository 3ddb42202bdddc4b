//! The placement of the pieces, and what follows from it alone: applying a
//! move, who attacks a square, which squares a side attacks, pins, and
//! whether mate is still possible.

use vstd::prelude::*;
use crate::bitboard::{
    count_squares, king_span, knight_span, lemma_lowest, lemma_within_end, lemma_within_first,
    lemma_within_empty, lemma_within_step, lowest_square, shift, shift_bottom, shift_left, shift_right, shift_top,
    within, without_lowest, Bitboard, ALL_SQUARES,
};
use crate::chess_move::{Castle, Move};
use crate::direction::Direction;
use crate::piece::{CapturedPiece, Piece, PromotionPiece};

verus! {

/// The squares of one colour: light squares are those outside this mask.
pub const DARK_SQUARES: u64 = 0xAA55_AA55_AA55_AA55;

/// Walking from `running` in direction `d` for at most `n` steps: the first
/// occupied square met, if it holds one of `pieces`; empty otherwise.
pub open spec fn first_hit(all: u64, pieces: u64, running: u64, d: Direction, n: nat) -> u64
    decreases n,
{
    if n == 0 || running == 0 {
        0
    } else if pieces & running != 0 {
        running
    } else if all & running == 0 {
        first_hit(all, pieces, shift(running, d), d, (n - 1) as nat)
    } else {
        0
    }
}

/// The piece among `pieces` that looks at `sq` along the ray leaving `sq` in
/// direction `d`, with `all` as the occupied squares.
pub open spec fn attacker_on_ray(all: u64, pieces: u64, sq: u64, d: Direction) -> u64 {
    first_hit(all, pieces, shift(sq, d), d, 7)
}

/// Walking from `running` in direction `d` for at most `n` steps: `acc`
/// together with every square passed, up to and including the first square
/// of `occ`.
pub open spec fn sweep(occ: u64, acc: u64, running: u64, d: Direction, n: nat) -> u64
    decreases n,
{
    if n == 0 || running == 0 {
        acc
    } else {
        sweep(
            occ,
            acc | running,
            if occ & running == 0 {
                shift(running, d)
            } else {
                0
            },
            d,
            (n - 1) as nat,
        )
    }
}

/// The squares a slider on `sq` attacks in direction `d`: every square up to
/// and including the first one of `occ`.
pub open spec fn ray_attacks(occ: u64, sq: u64, d: Direction) -> u64 {
    sweep(occ, 0, shift(sq, d), d, 7)
}

/// The squares a rook on `sq` attacks.
pub open spec fn straight_attacks(occ: u64, sq: u64) -> u64 {
    ray_attacks(occ, sq, Direction::Top) | ray_attacks(occ, sq, Direction::Bottom) | ray_attacks(
        occ,
        sq,
        Direction::Left,
    ) | ray_attacks(occ, sq, Direction::Right)
}

/// The squares a bishop on `sq` attacks.
pub open spec fn diagonal_attacks(occ: u64, sq: u64) -> u64 {
    ray_attacks(occ, sq, Direction::TopLeft) | ray_attacks(occ, sq, Direction::TopRight)
        | ray_attacks(occ, sq, Direction::BottomLeft) | ray_attacks(
        occ,
        sq,
        Direction::BottomRight,
    )
}

/// `acc` together with what the sliders on `pieces` attack, each along the
/// straight lines if `straight` and along the diagonals if `diagonal`.
pub open spec fn sliders_attack(
    occ: u64,
    acc: u64,
    pieces: u64,
    straight: bool,
    diagonal: bool,
) -> u64
    decreases pieces,
{
    if pieces == 0 {
        acc
    } else {
        proof {
            lemma_lowest(pieces);
        }
        let sq = lowest_square(pieces);
        let with_straight = if straight {
            acc | straight_attacks(occ, sq)
        } else {
            acc
        };
        let with_diagonal = if diagonal {
            with_straight | diagonal_attacks(occ, sq)
        } else {
            with_straight
        };
        sliders_attack(occ, with_diagonal, without_lowest(pieces), straight, diagonal)
    }
}

/// Walking from `running` in direction `d`: true when the first piece met is
/// the king.
pub open spec fn probe_king(
    all: u64,
    king: u64,
    attackers: u64,
    running: u64,
    d: Direction,
    n: nat,
) -> bool
    decreases n,
{
    if n == 0 || running == 0 {
        false
    } else if king & running != 0 {
        true
    } else if attackers & running != 0 {
        false
    } else if all & running == 0 {
        probe_king(all, king, attackers, shift(running, d), d, (n - 1) as nat)
    } else {
        false
    }
}

/// Walking from `running` in direction `d`: true when the first piece met is
/// one of `attackers` (and not the king).
pub open spec fn probe_attacker(
    all: u64,
    king: u64,
    attackers: u64,
    running: u64,
    d: Direction,
    n: nat,
) -> bool
    decreases n,
{
    if n == 0 || running == 0 {
        false
    } else if king & running != 0 {
        false
    } else if attackers & running != 0 {
        true
    } else if all & running == 0 {
        probe_attacker(all, king, attackers, shift(running, d), d, (n - 1) as nat)
    } else {
        false
    }
}

/// Walking from `running` in direction `d`: `acc` with the empty squares
/// passed and, if the first piece met is one of `attackers`, its square.
pub open spec fn probe_squares(
    all: u64,
    king: u64,
    attackers: u64,
    acc: u64,
    running: u64,
    d: Direction,
    n: nat,
) -> u64
    decreases n,
{
    if n == 0 || running == 0 {
        acc
    } else if king & running != 0 {
        acc
    } else if attackers & running != 0 {
        acc | running
    } else if all & running == 0 {
        probe_squares(all, king, attackers, acc | running, shift(running, d), d, (n - 1) as nat)
    } else {
        acc
    }
}

/// The second half of a pin test, walking from `running` in direction `d`
/// after the first half found the king (`found_king`) or an attacker
/// (`found_attacker`) on the other side: true when the first piece met here is
/// the missing partner.
pub open spec fn pin_closes(
    all: u64,
    king: u64,
    attackers: u64,
    found_king: bool,
    found_attacker: bool,
    running: u64,
    d: Direction,
    n: nat,
) -> bool
    decreases n,
{
    if n == 0 || running == 0 {
        false
    } else if king & running != 0 && found_attacker {
        true
    } else if attackers & running != 0 && found_king {
        true
    } else if all & running == 0 {
        pin_closes(
            all,
            king,
            attackers,
            found_king,
            found_attacker,
            shift(running, d),
            d,
            (n - 1) as nat,
        )
    } else {
        false
    }
}

/// The squares gathered by the second half of a pin test: `acc` with the
/// empty squares passed and, if the partner met is an attacker, its square.
pub open spec fn pin_squares(
    all: u64,
    king: u64,
    attackers: u64,
    found_king: bool,
    found_attacker: bool,
    acc: u64,
    running: u64,
    d: Direction,
    n: nat,
) -> u64
    decreases n,
{
    if n == 0 || running == 0 {
        acc
    } else if king & running != 0 && found_attacker {
        acc
    } else if attackers & running != 0 && found_king {
        acc | running
    } else if all & running == 0 {
        pin_squares(
            all,
            king,
            attackers,
            found_king,
            found_attacker,
            acc | running,
            shift(running, d),
            d,
            (n - 1) as nat,
        )
    } else {
        acc
    }
}

/// True when the piece on `sq` stands between the king and one of
/// `attackers` on the line through `sq` in direction `d`, with nothing else
/// between them.
pub open spec fn pinned_along(all: u64, sq: u64, king: u64, attackers: u64, d: Direction) -> bool {
    let found_king = probe_king(all, king, attackers, shift(sq, d), d, 7);
    let found_attacker = probe_attacker(all, king, attackers, shift(sq, d), d, 7);
    (found_king || found_attacker) && pin_closes(
        all,
        king,
        attackers,
        found_king,
        found_attacker,
        shift(sq, d.reversed()),
        d.reversed(),
        7,
    )
}

/// For a piece pinned along the line through `sq` in direction `d`: the
/// squares of that line between the king and the attacker, with the
/// attacker's square and without the king's and `sq` itself.
pub open spec fn pin_line(all: u64, sq: u64, king: u64, attackers: u64, d: Direction) -> u64 {
    pin_squares(
        all,
        king,
        attackers,
        probe_king(all, king, attackers, shift(sq, d), d, 7),
        probe_attacker(all, king, attackers, shift(sq, d), d, 7),
        probe_squares(all, king, attackers, 0, shift(sq, d), d, 7),
        shift(sq, d.reversed()),
        d.reversed(),
        7,
    )
}

/// Where the piece on `sq` may go without uncovering the king: the pin line
/// if it is pinned along a file, a rank or a diagonal, every square otherwise.
pub open spec fn pinned_squares(
    all: u64,
    sq: u64,
    king: u64,
    queens_and_rooks: u64,
    queens_and_bishops: u64,
) -> u64 {
    if pinned_along(all, sq, king, queens_and_rooks, Direction::Top) {
        pin_line(all, sq, king, queens_and_rooks, Direction::Top)
    } else if pinned_along(all, sq, king, queens_and_rooks, Direction::Left) {
        pin_line(all, sq, king, queens_and_rooks, Direction::Left)
    } else if pinned_along(all, sq, king, queens_and_bishops, Direction::TopLeft) {
        pin_line(all, sq, king, queens_and_bishops, Direction::TopLeft)
    } else if pinned_along(all, sq, king, queens_and_bishops, Direction::TopRight) {
        pin_line(all, sq, king, queens_and_bishops, Direction::TopRight)
    } else {
        ALL_SQUARES
    }
}

/// Walking from `running` in direction `d`: the squares passed before the
/// first square of `attackers`; empty when the walk leaves the board without
/// meeting one.
pub open spec fn push_scan(attackers: u64, acc: u64, running: u64, d: Direction, n: nat) -> u64
    decreases n,
{
    if n == 0 || running == 0 {
        0
    } else if attackers & running != 0 {
        acc
    } else {
        push_scan(attackers, acc | running, shift(running, d), d, (n - 1) as nat)
    }
}

/// The squares strictly between `sq` and the nearest of `attackers` in
/// direction `d`; empty when there is none in that direction.
pub open spec fn push_squares(sq: u64, attackers: u64, d: Direction) -> u64 {
    push_scan(attackers, 0, shift(sq, d), d, 7)
}

/// The pieces among the given boards of one side (white if `player`) that
/// attack `sq`, with `all` as the occupied squares: king and knights by
/// their jumps, pawns from the two squares diagonally in front of them, and
/// queens, rooks and bishops along unblocked rays.
pub open spec fn attackers_among(
    all: u64,
    king: u64,
    queen: u64,
    rook: u64,
    bishop: u64,
    knight: u64,
    pawn: u64,
    player: bool,
    sq: u64,
) -> u64 {
    let forward = if player {
        shift_bottom(sq)
    } else {
        shift_top(sq)
    };
    (king_span(sq) & king) | attacker_on_ray(all, queen | rook, sq, Direction::Top)
        | attacker_on_ray(all, queen | rook, sq, Direction::Bottom) | attacker_on_ray(
        all,
        queen | rook,
        sq,
        Direction::Left,
    ) | attacker_on_ray(all, queen | rook, sq, Direction::Right) | attacker_on_ray(
        all,
        queen | bishop,
        sq,
        Direction::TopLeft,
    ) | attacker_on_ray(all, queen | bishop, sq, Direction::TopRight) | attacker_on_ray(
        all,
        queen | bishop,
        sq,
        Direction::BottomLeft,
    ) | attacker_on_ray(all, queen | bishop, sq, Direction::BottomRight) | (knight_span(sq)
        & knight) | (shift_left(forward) & pawn) | (shift_right(forward) & pawn)
}

/// The pieces of one side: one board per kind, and their union `all`.
#[derive(Clone, Copy, Debug, PartialEq, Eq, Structural)]
pub struct Pieces {
    pub all: Bitboard,
    pub king: Bitboard,
    pub queen: Bitboard,
    pub rook: Bitboard,
    pub bishop: Bitboard,
    pub knight: Bitboard,
    pub pawn: Bitboard,
}

/// The pieces of both sides, and `all`, the union of the two.
#[derive(Clone, Copy, Debug, PartialEq, Eq, Structural)]
pub struct Position {
    pub all: Bitboard,
    pub white: Pieces,
    pub black: Pieces,
}

impl Pieces {
    /// The board of the given kind.
    pub open spec fn board(self, piece: Piece) -> u64 {
        match piece {
            Piece::King => self.king.0,
            Piece::Queen => self.queen.0,
            Piece::Rook => self.rook.0,
            Piece::Bishop => self.bishop.0,
            Piece::Knight => self.knight.0,
            Piece::Pawn => self.pawn.0,
        }
    }

    /// These pieces with the board of the given kind replaced by `b`.
    pub open spec fn with_board(self, piece: Piece, b: u64) -> Pieces {
        match piece {
            Piece::King => Pieces { king: Bitboard(b), ..self },
            Piece::Queen => Pieces { queen: Bitboard(b), ..self },
            Piece::Rook => Pieces { rook: Bitboard(b), ..self },
            Piece::Bishop => Pieces { bishop: Bitboard(b), ..self },
            Piece::Knight => Pieces { knight: Bitboard(b), ..self },
            Piece::Pawn => Pieces { pawn: Bitboard(b), ..self },
        }
    }

    /// The kind of piece that a capture on `sq` takes, looking at pawns,
    /// knights, bishops, rooks and queens in this order.
    pub open spec fn taken_at(self, sq: u64) -> CapturedPiece {
        if sq & self.pawn.0 != 0 {
            CapturedPiece::Pawn
        } else if sq & self.knight.0 != 0 {
            CapturedPiece::Knight
        } else if sq & self.bishop.0 != 0 {
            CapturedPiece::Bishop
        } else if sq & self.rook.0 != 0 {
            CapturedPiece::Rook
        } else if sq & self.queen.0 != 0 {
            CapturedPiece::Queen
        } else {
            CapturedPiece::Nothing
        }
    }

    /// After a piece of the given kind went from `from` to `to`: `from` is
    /// cleared and `to` is set, on the board of that kind and on `all`.
    pub open spec fn moved(self, piece: Piece, from: u64, to: u64) -> Pieces {
        Pieces { all: Bitboard((self.all.0 & !from) | to), ..self }.with_board(
            piece,
            (self.board(piece) & !from) | to,
        )
    }

    /// After a piece of the given kind was taken on `sq`: `sq` is cleared on
    /// the board of that kind and on `all`. Nothing changes for `Nothing`.
    pub open spec fn without(self, kind: CapturedPiece, sq: u64) -> Pieces {
        match kind {
            CapturedPiece::Queen => Pieces {
                queen: Bitboard(self.queen.0 & !sq),
                all: Bitboard(self.all.0 & !sq),
                ..self
            },
            CapturedPiece::Rook => Pieces {
                rook: Bitboard(self.rook.0 & !sq),
                all: Bitboard(self.all.0 & !sq),
                ..self
            },
            CapturedPiece::Bishop => Pieces {
                bishop: Bitboard(self.bishop.0 & !sq),
                all: Bitboard(self.all.0 & !sq),
                ..self
            },
            CapturedPiece::Knight => Pieces {
                knight: Bitboard(self.knight.0 & !sq),
                all: Bitboard(self.all.0 & !sq),
                ..self
            },
            CapturedPiece::Pawn => Pieces {
                pawn: Bitboard(self.pawn.0 & !sq),
                all: Bitboard(self.all.0 & !sq),
                ..self
            },
            CapturedPiece::Nothing => self,
        }
    }

    /// After the pawn on `sq` turned into `promotion`: `sq` is cleared on the
    /// pawn board and set on the board of the new kind.
    pub open spec fn promoted(self, promotion: PromotionPiece, sq: u64) -> Pieces {
        let pawnless = Pieces { pawn: Bitboard(self.pawn.0 & !sq), ..self };
        pawnless.with_board(promotion.piece(), pawnless.board(promotion.piece()) | sq)
    }

    /// After castling: the king stands on `king_to`, and the squares of
    /// `rook_flip` and `all_flip` changed on the rook board and on `all`.
    pub open spec fn castled(self, king_to: u64, rook_flip: u64, all_flip: u64) -> Pieces {
        Pieces {
            king: Bitboard(king_to),
            rook: Bitboard(self.rook.0 ^ rook_flip),
            all: Bitboard(self.all.0 ^ all_flip),
            ..self
        }
    }
}

/// Where the king lands when `player` castles on `side`.
pub open spec fn castle_king_to(player: bool, side: Castle) -> u64 {
    match (side, player) {
        (Castle::Kingside, true) => 0x0000_0000_0000_0002,
        (Castle::Kingside, false) => 0x0200_0000_0000_0000,
        (Castle::Queenside, true) => 0x0000_0000_0000_0020,
        (Castle::Queenside, false) => 0x2000_0000_0000_0000,
    }
}

/// The rook's home square and landing square when `player` castles on `side`.
pub open spec fn castle_rook_flip(player: bool, side: Castle) -> u64 {
    match (side, player) {
        (Castle::Kingside, true) => 0x0000_0000_0000_0005,
        (Castle::Kingside, false) => 0x0500_0000_0000_0000,
        (Castle::Queenside, true) => 0x0000_0000_0000_0090,
        (Castle::Queenside, false) => 0x9000_0000_0000_0000,
    }
}

/// The four squares whose occupancy changes when `player` castles on `side`.
pub open spec fn castle_all_flip(player: bool, side: Castle) -> u64 {
    match (side, player) {
        (Castle::Kingside, true) => 0x0000_0000_0000_000F,
        (Castle::Kingside, false) => 0x0F00_0000_0000_0000,
        (Castle::Queenside, true) => 0x0000_0000_0000_00B8,
        (Castle::Queenside, false) => 0xB800_0000_0000_0000,
    }
}

impl Position {
    /// The pieces of `player` (true for white).
    pub open spec fn side(self, player: bool) -> Pieces {
        if player {
            self.white
        } else {
            self.black
        }
    }

    /// The position with the pieces of `player` replaced by `mover`, those of
    /// the other side by `other`, and the occupancy by `all`.
    pub open spec fn assembled(player: bool, mover: Pieces, other: Pieces, all: u64) -> Position {
        if player {
            Position { all: Bitboard(all), white: mover, black: other }
        } else {
            Position { all: Bitboard(all), white: other, black: mover }
        }
    }

    /// The square of the pawn that an en-passant capture by `player` on `to`
    /// removes: one rank behind `to`, seen from the capturing side.
    pub open spec fn behind(player: bool, to: u64) -> u64 {
        if player {
            shift_bottom(to)
        } else {
            shift_top(to)
        }
    }

    /// The position after `m`, and what `m` took.
    ///
    /// Castling moves king and rook of the mover and takes nothing. Any other
    /// move takes what stands on the target square, moves the piece, removes
    /// the pawn behind the target for an en-passant capture, and replaces
    /// the pawn on the target by the promotion piece.
    #[verifier::opaque]
    pub open spec fn after_move(self, m: Move) -> (Position, CapturedPiece) {
        let mover = self.side(m.player);
        let other = self.side(!m.player);
        match m.is_castling {
            Some(side) => (
                Position::assembled(
                    m.player,
                    mover.castled(
                        castle_king_to(m.player, side),
                        castle_rook_flip(m.player, side),
                        castle_all_flip(m.player, side),
                    ),
                    other,
                    self.all.0 ^ castle_all_flip(m.player, side),
                ),
                CapturedPiece::Nothing,
            ),
            None => {
                let from = m.from_square.0;
                let to = m.to_square.0;
                let taken = other.taken_at(to);
                let moved = mover.moved(m.piece, from, to);
                let struck = other.without(taken, to);
                let all = (self.all.0 & !from) | to;
                let behind = Position::behind(m.player, to);
                let struck = if m.is_capturing_en_passant {
                    struck.without(CapturedPiece::Pawn, behind)
                } else {
                    struck
                };
                let all = if m.is_capturing_en_passant {
                    all & !behind
                } else {
                    all
                };
                let moved = match m.is_promoting_to {
                    Some(promotion) => moved.promoted(promotion, to),
                    None => moved,
                };
                (Position::assembled(m.player, moved, struck, all), taken)
            },
        }
    }

    /// The pieces of `player` that attack `sq`.
    #[verifier::opaque]
    pub open spec fn attackers_of(self, player: bool, sq: u64) -> u64 {
        let pieces = self.side(player);
        attackers_among(
            self.all.0,
            pieces.king.0,
            pieces.queen.0,
            pieces.rook.0,
            pieces.bishop.0,
            pieces.knight.0,
            pieces.pawn.0,
            player,
            sq,
        )
    }

    /// The squares that the pieces of `player` attack. The other side's king
    /// does not block a ray, so the squares behind it count as attacked.
    #[verifier::opaque]
    pub open spec fn attacked_by(self, player: bool) -> u64 {
        let pieces = self.side(player);
        let occ = self.all.0 ^ self.side(!player).king.0;
        let by_king = king_span(pieces.king.0);
        let by_queens = sliders_attack(occ, by_king, pieces.queen.0, true, true);
        let by_rooks = sliders_attack(occ, by_queens, pieces.rook.0, true, false);
        let by_bishops = sliders_attack(occ, by_rooks, pieces.bishop.0, false, true);
        let by_knights = by_bishops | knight_span(pieces.knight.0);
        let forward = if player {
            shift_top(pieces.pawn.0)
        } else {
            shift_bottom(pieces.pawn.0)
        };
        by_knights | (shift_left(forward) | shift_right(forward))
    }

    /// True when the king of `player` is attacked.
    pub open spec fn in_check(self, player: bool) -> bool {
        self.attackers_of(!player, self.side(player).king.0) != 0
    }

    /// True when neither side can ever give mate: no queen, rook or pawn is
    /// left, and besides the kings the board holds nothing, or one bishop,
    /// or one knight, or one bishop each on squares of one colour.
    pub open spec fn dead(self) -> bool {
        let white_bishops = count_squares(self.white.bishop.0);
        let black_bishops = count_squares(self.black.bishop.0);
        let white_minors = white_bishops + count_squares(self.white.knight.0);
        let black_minors = black_bishops + count_squares(self.black.knight.0);
        &&& self.white.queen.0 == 0
        &&& self.black.queen.0 == 0
        &&& self.white.rook.0 == 0
        &&& self.black.rook.0 == 0
        &&& self.white.pawn.0 == 0
        &&& self.black.pawn.0 == 0
        &&& {
            ||| white_minors + black_minors <= 1
            ||| (white_bishops == 1 && black_bishops == 1 && white_minors == 1 && black_minors
                == 1 && ((self.white.bishop.0 & DARK_SQUARES == 0) == (self.black.bishop.0
                & DARK_SQUARES == 0)))
        }
    }
}


impl Pieces {
    /// The kind of piece that a capture on `sq` takes from these pieces.
    pub fn taken(self, sq: Bitboard) -> (r: CapturedPiece)
        ensures
            r == self.taken_at(sq.0),
    {
        if !(sq & self.pawn).is_empty() {
            CapturedPiece::Pawn
        } else if !(sq & self.knight).is_empty() {
            CapturedPiece::Knight
        } else if !(sq & self.bishop).is_empty() {
            CapturedPiece::Bishop
        } else if !(sq & self.rook).is_empty() {
            CapturedPiece::Rook
        } else if !(sq & self.queen).is_empty() {
            CapturedPiece::Queen
        } else {
            CapturedPiece::Nothing
        }
    }

    /// Moves a piece of the given kind from `from` to `to`.
    pub fn move_piece(self, piece: Piece, from: Bitboard, to: Bitboard) -> (r: Pieces)
        ensures
            r == self.moved(piece, from.0, to.0),
    {
        let mut next = self;
        next.all = Bitboard((self.all.0 & !from.0) | to.0);
        match piece {
            Piece::King => {
                next.king = Bitboard((self.king.0 & !from.0) | to.0);
            },
            Piece::Queen => {
                next.queen = Bitboard((self.queen.0 & !from.0) | to.0);
            },
            Piece::Rook => {
                next.rook = Bitboard((self.rook.0 & !from.0) | to.0);
            },
            Piece::Bishop => {
                next.bishop = Bitboard((self.bishop.0 & !from.0) | to.0);
            },
            Piece::Knight => {
                next.knight = Bitboard((self.knight.0 & !from.0) | to.0);
            },
            Piece::Pawn => {
                next.pawn = Bitboard((self.pawn.0 & !from.0) | to.0);
            },
        }
        next
    }

    /// Takes the piece of the given kind off `sq`.
    pub fn remove(self, kind: CapturedPiece, sq: Bitboard) -> (r: Pieces)
        ensures
            r == self.without(kind, sq.0),
    {
        let mut next = self;
        match kind {
            CapturedPiece::Queen => {
                next.queen = Bitboard(self.queen.0 & !sq.0);
            },
            CapturedPiece::Rook => {
                next.rook = Bitboard(self.rook.0 & !sq.0);
            },
            CapturedPiece::Bishop => {
                next.bishop = Bitboard(self.bishop.0 & !sq.0);
            },
            CapturedPiece::Knight => {
                next.knight = Bitboard(self.knight.0 & !sq.0);
            },
            CapturedPiece::Pawn => {
                next.pawn = Bitboard(self.pawn.0 & !sq.0);
            },
            CapturedPiece::Nothing => {
                return next;
            },
        }
        next.all = Bitboard(self.all.0 & !sq.0);
        next
    }

    /// Turns the pawn on `sq` into `promotion`.
    pub fn promote(self, promotion: PromotionPiece, sq: Bitboard) -> (r: Pieces)
        ensures
            r == self.promoted(promotion, sq.0),
    {
        let mut next = self;
        next.pawn = Bitboard(self.pawn.0 & !sq.0);
        match promotion {
            PromotionPiece::Queen => {
                next.queen = Bitboard(self.queen.0 | sq.0);
            },
            PromotionPiece::Rook => {
                next.rook = Bitboard(self.rook.0 | sq.0);
            },
            PromotionPiece::Bishop => {
                next.bishop = Bitboard(self.bishop.0 | sq.0);
            },
            PromotionPiece::Knight => {
                next.knight = Bitboard(self.knight.0 | sq.0);
            },
        }
        next
    }
}

impl Position {
    /// Applies `m` and reports what it took. A move that fits a
    /// well-formed position leads to a well-formed position.
    pub fn make_move(self, m: &Move) -> (r: (Position, CapturedPiece))
        ensures
            r == self.after_move(*m),
            self.well_formed() && m.fits(self) ==> r.0.well_formed(),
    {
        reveal(Position::after_move);
        proof {
            if self.well_formed() && m.fits(self) {
                crate::invariants::lemma_move_keeps_well_formed(self, *m);
            }
        }
        let mover = if m.player {
            self.white
        } else {
            self.black
        };
        let other = if m.player {
            self.black
        } else {
            self.white
        };
        match m.is_castling {
            Some(side) => {
                let (king_to, rook_flip, all_flip): (u64, u64, u64) = match (side, m.player) {
                    (Castle::Kingside, true) => (
                        0x0000_0000_0000_0002,
                        0x0000_0000_0000_0005,
                        0x0000_0000_0000_000F,
                    ),
                    (Castle::Kingside, false) => (
                        0x0200_0000_0000_0000,
                        0x0500_0000_0000_0000,
                        0x0F00_0000_0000_0000,
                    ),
                    (Castle::Queenside, true) => (
                        0x0000_0000_0000_0020,
                        0x0000_0000_0000_0090,
                        0x0000_0000_0000_00B8,
                    ),
                    (Castle::Queenside, false) => (
                        0x2000_0000_0000_0000,
                        0x9000_0000_0000_0000,
                        0xB800_0000_0000_0000,
                    ),
                };
                let mut castled = mover;
                castled.king = Bitboard(king_to);
                castled.rook = Bitboard(mover.rook.0 ^ rook_flip);
                castled.all = Bitboard(mover.all.0 ^ all_flip);
                let all = Bitboard(self.all.0 ^ all_flip);
                let next = if m.player {
                    Position { all, white: castled, black: other }
                } else {
                    Position { all, white: other, black: castled }
                };
                (next, CapturedPiece::Nothing)
            },
            None => {
                let from = m.from_square;
                let to = m.to_square;
                let taken = other.taken(to);
                let mut moved = mover.move_piece(m.piece, from, to);
                let mut struck = other.remove(taken, to);
                let mut all = Bitboard((self.all.0 & !from.0) | to.0);
                if m.is_capturing_en_passant {
                    let behind = if m.player {
                        to.get_bottom_square()
                    } else {
                        to.get_top_square()
                    };
                    struck = struck.remove(CapturedPiece::Pawn, behind);
                    all = Bitboard(all.0 & !behind.0);
                }
                match m.is_promoting_to {
                    Some(promotion) => {
                        moved = moved.promote(promotion, to);
                    },
                    None => {},
                }
                let next = if m.player {
                    Position { all, white: moved, black: struck }
                } else {
                    Position { all, white: struck, black: moved }
                };
                (next, taken)
            },
        }
    }

    fn attackers_in_direction(self, square: Bitboard, pieces: Bitboard, direction: Direction) -> (r:
        Bitboard)
        ensures
            r.0 == attacker_on_ray(self.all.0, pieces.0, square.0, direction),
    {
        let mut running = square.get_square_in_direction(direction);
        let ghost mut k: nat = 0;
        proof {
            lemma_within_first(square.0, direction);
        }
        while !running.is_empty()
            invariant
                k <= 7,
                within(running.0, direction, k + 1),
                attacker_on_ray(self.all.0, pieces.0, square.0, direction) == first_hit(
                    self.all.0,
                    pieces.0,
                    running.0,
                    direction,
                    (7 - k) as nat,
                ),
            decreases 7 - k,
        {
            proof {
                if k == 7 {
                    lemma_within_end(running.0, direction);
                }
                lemma_within_step(running.0, direction, k + 1);
            }
            if !(pieces & running).is_empty() {
                return running;
            } else if (self.all & running).is_empty() {
                running = running.get_square_in_direction(direction);
                proof {
                    k = k + 1;
                }
            } else {
                return Bitboard::empty();
            }
        }
        Bitboard::empty()
    }

    /// The pieces of `player` that attack `square`.
    pub fn attackers(self, player: bool, square: Bitboard) -> (r: Bitboard)
        ensures
            r.0 == self.attackers_of(player, square.0),
    {
        reveal(Position::attackers_of);
        let forward_square = if player {
            square.get_bottom_square()
        } else {
            square.get_top_square()
        };
        let pieces = if player {
            self.white
        } else {
            self.black
        };
        let queen_and_rook = pieces.queen | pieces.rook;
        let queen_and_bishop = pieces.queen | pieces.bishop;
        (square.king_moves() & pieces.king) | self.attackers_in_direction(
            square,
            queen_and_rook,
            Direction::Top,
        ) | self.attackers_in_direction(square, queen_and_rook, Direction::Bottom)
            | self.attackers_in_direction(square, queen_and_rook, Direction::Left)
            | self.attackers_in_direction(square, queen_and_rook, Direction::Right)
            | self.attackers_in_direction(square, queen_and_bishop, Direction::TopLeft)
            | self.attackers_in_direction(square, queen_and_bishop, Direction::TopRight)
            | self.attackers_in_direction(square, queen_and_bishop, Direction::BottomLeft)
            | self.attackers_in_direction(square, queen_and_bishop, Direction::BottomRight) | (
        square.knight_moves() & pieces.knight) | (forward_square.get_left_square() & pieces.pawn)
            | (forward_square.get_right_square() & pieces.pawn)
    }

    fn attacked_squares_in_direction(
        self,
        square: Bitboard,
        all_pieces: Bitboard,
        direction: Direction,
    ) -> (r: Bitboard)
        ensures
            r.0 == ray_attacks(all_pieces.0, square.0, direction),
    {
        let mut attacked_squares = Bitboard::empty();
        let mut running = square.get_square_in_direction(direction);
        let ghost mut k: nat = 0;
        proof {
            lemma_within_first(square.0, direction);
        }
        while !running.is_empty()
            invariant
                k <= 7,
                within(running.0, direction, k + 1),
                ray_attacks(all_pieces.0, square.0, direction) == sweep(
                    all_pieces.0,
                    attacked_squares.0,
                    running.0,
                    direction,
                    (7 - k) as nat,
                ),
            decreases 7 - k,
        {
            proof {
                if k == 7 {
                    lemma_within_end(running.0, direction);
                }
                lemma_within_step(running.0, direction, k + 1);
            }
            attacked_squares = attacked_squares | running;
            if (all_pieces & running).is_empty() {
                running = running.get_square_in_direction(direction);
                proof {
                    k = k + 1;
                }
            } else {
                assert(sweep(
                    all_pieces.0,
                    attacked_squares.0,
                    0,
                    direction,
                    (7 - k - 1) as nat,
                ) == attacked_squares.0);
                return attacked_squares;
            }
        }
        attacked_squares
    }

    fn straight_attacked_squares(self, square: Bitboard, all_pieces: Bitboard) -> (r: Bitboard)
        ensures
            r.0 == straight_attacks(all_pieces.0, square.0),
    {
        self.attacked_squares_in_direction(square, all_pieces, Direction::Top)
            | self.attacked_squares_in_direction(square, all_pieces, Direction::Bottom)
            | self.attacked_squares_in_direction(square, all_pieces, Direction::Left)
            | self.attacked_squares_in_direction(square, all_pieces, Direction::Right)
    }

    fn diagonal_attacked_squares(self, square: Bitboard, all_pieces: Bitboard) -> (r: Bitboard)
        ensures
            r.0 == diagonal_attacks(all_pieces.0, square.0),
    {
        self.attacked_squares_in_direction(square, all_pieces, Direction::TopLeft)
            | self.attacked_squares_in_direction(square, all_pieces, Direction::TopRight)
            | self.attacked_squares_in_direction(square, all_pieces, Direction::BottomLeft)
            | self.attacked_squares_in_direction(square, all_pieces, Direction::BottomRight)
    }

    fn attacked_by_sliders(
        self,
        start: Bitboard,
        pieces: Bitboard,
        all_pieces: Bitboard,
        straight: bool,
        diagonal: bool,
    ) -> (r: Bitboard)
        ensures
            r.0 == sliders_attack(all_pieces.0, start.0, pieces.0, straight, diagonal),
    {
        let mut attacked = start;
        let mut squares = pieces.into_iter();
        loop
            invariant
                sliders_attack(all_pieces.0, attacked.0, squares.n, straight, diagonal)
                    == sliders_attack(
                    all_pieces.0,
                    start.0,
                    pieces.0,
                    straight,
                    diagonal,
                ),
            decreases squares.n,
        {
            proof {
                if squares.n != 0 {
                    lemma_lowest(squares.n);
                }
            }
            match squares.next() {
                Some(square) => {
                    if straight {
                        attacked = attacked | self.straight_attacked_squares(square, all_pieces);
                    }
                    if diagonal {
                        attacked = attacked | self.diagonal_attacked_squares(square, all_pieces);
                    }
                },
                None => {
                    return attacked;
                },
            }
        }
    }

    /// The squares that the pieces of `player` attack, with the other side's
    /// king taken off the board first.
    pub fn attacked_squares(self, player: bool) -> (r: Bitboard)
        ensures
            r.0 == self.attacked_by(player),
    {
        reveal(Position::attacked_by);
        let pieces = if player {
            self.white
        } else {
            self.black
        };
        let all_pieces = self.all ^ if player {
            self.black.king
        } else {
            self.white.king
        };
        let mut attacked = pieces.king.king_moves();
        attacked = self.attacked_by_sliders(attacked, pieces.queen, all_pieces, true, true);
        attacked = self.attacked_by_sliders(attacked, pieces.rook, all_pieces, true, false);
        attacked = self.attacked_by_sliders(attacked, pieces.bishop, all_pieces, false, true);
        attacked = attacked | pieces.knight.knight_moves();
        let forward_square = if player {
            pieces.pawn.get_top_square()
        } else {
            pieces.pawn.get_bottom_square()
        };
        attacked | (forward_square.get_left_square() | forward_square.get_right_square())
    }

    /// True when the king of `player` is attacked.
    pub fn is_check(self, player: bool) -> (r: bool)
        ensures
            r == self.in_check(player),
    {
        let king = if player {
            self.white.king
        } else {
            self.black.king
        };
        !self.attackers(!player, king).is_empty()
    }
}


impl Position {
    fn pinned_movement_in_direction(
        self,
        square: Bitboard,
        king: Bitboard,
        attackers: Bitboard,
        direction: Direction,
    ) -> (r: Option<Bitboard>)
        ensures
            r.is_some() == pinned_along(self.all.0, square.0, king.0, attackers.0, direction),
            r.is_some() ==> r.unwrap().0 == pin_line(
                self.all.0,
                square.0,
                king.0,
                attackers.0,
                direction,
            ),
    {
        let opposite_direction = direction.opposite();
        let mut moves = Bitboard::empty();
        let mut running = square.get_square_in_direction(direction);
        let mut found_king = false;
        let mut found_attacker = false;
        let ghost start = shift(square.0, direction);
        let ghost mut k: nat = 0;
        proof {
            lemma_within_first(square.0, direction);
        }
        while !running.is_empty()
            invariant
                k <= 7,
                within(running.0, direction, k + 1),
                start == shift(square.0, direction),
                running.0 != 0 ==> !found_king && !found_attacker,
                probe_king(self.all.0, king.0, attackers.0, start, direction, 7) == (found_king
                    || probe_king(
                    self.all.0,
                    king.0,
                    attackers.0,
                    running.0,
                    direction,
                    (7 - k) as nat,
                )),
                probe_attacker(self.all.0, king.0, attackers.0, start, direction, 7) == (
                found_attacker || probe_attacker(
                    self.all.0,
                    king.0,
                    attackers.0,
                    running.0,
                    direction,
                    (7 - k) as nat,
                )),
                probe_squares(self.all.0, king.0, attackers.0, 0, start, direction, 7)
                    == probe_squares(
                    self.all.0,
                    king.0,
                    attackers.0,
                    moves.0,
                    running.0,
                    direction,
                    (7 - k) as nat,
                ),
            decreases 7 - k,
        {
            proof {
                if k == 7 {
                    lemma_within_end(running.0, direction);
                }
                lemma_within_step(running.0, direction, k + 1);
            }
            if !(king & running).is_empty() {
                found_king = true;
                running = Bitboard::empty();
                proof {
                    k = k + 1;
                    lemma_within_empty(direction, k + 1);
                }
            } else if !(attackers & running).is_empty() {
                found_attacker = true;
                moves = moves | running;
                running = Bitboard::empty();
                proof {
                    k = k + 1;
                    lemma_within_empty(direction, k + 1);
                }
            } else if (self.all & running).is_empty() {
                moves = moves | running;
                running = running.get_square_in_direction(direction);
                proof {
                    k = k + 1;
                }
            } else {
                // The first piece on this side is neither the king nor an attacker.
                return None;
            }
        }

        if !(found_king || found_attacker) {
            return None;
        }
        running = square.get_square_in_direction(opposite_direction);
        let ghost first = moves.0;
        let ghost back = shift(square.0, opposite_direction);
        proof {
            k = 0;
            lemma_within_first(square.0, opposite_direction);
        }
        while !running.is_empty()
            invariant
                k <= 7,
                within(running.0, opposite_direction, k + 1),
                back == shift(square.0, opposite_direction),
                opposite_direction == direction.reversed(),
                found_king || found_attacker,
                found_king == probe_king(
                    self.all.0,
                    king.0,
                    attackers.0,
                    shift(square.0, direction),
                    direction,
                    7,
                ),
                found_attacker == probe_attacker(
                    self.all.0,
                    king.0,
                    attackers.0,
                    shift(square.0, direction),
                    direction,
                    7,
                ),
                first == probe_squares(
                    self.all.0,
                    king.0,
                    attackers.0,
                    0,
                    shift(square.0, direction),
                    direction,
                    7,
                ),
                pin_closes(
                    self.all.0,
                    king.0,
                    attackers.0,
                    found_king,
                    found_attacker,
                    back,
                    opposite_direction,
                    7,
                ) == pin_closes(
                    self.all.0,
                    king.0,
                    attackers.0,
                    found_king,
                    found_attacker,
                    running.0,
                    opposite_direction,
                    (7 - k) as nat,
                ),
                pin_squares(
                    self.all.0,
                    king.0,
                    attackers.0,
                    found_king,
                    found_attacker,
                    first,
                    back,
                    opposite_direction,
                    7,
                ) == pin_squares(
                    self.all.0,
                    king.0,
                    attackers.0,
                    found_king,
                    found_attacker,
                    moves.0,
                    running.0,
                    opposite_direction,
                    (7 - k) as nat,
                ),
            decreases 7 - k,
        {
            proof {
                if k == 7 {
                    lemma_within_end(running.0, opposite_direction);
                }
                lemma_within_step(running.0, opposite_direction, k + 1);
            }
            if !(king & running).is_empty() && found_attacker {
                return Some(moves);
            } else if !(attackers & running).is_empty() && found_king {
                return Some(moves | running);
            } else if (self.all & running).is_empty() {
                moves = moves | running;
                running = running.get_square_in_direction(opposite_direction);
                proof {
                    k = k + 1;
                }
            } else {
                // The first piece on this side is neither the king nor an attacker.
                return None;
            }
        }
        None
    }

    /// Where the piece on `square` may go without uncovering `king` to the
    /// given enemy sliders: the pin line if it is pinned, every square if not.
    pub fn pinned_movement(
        self,
        square: Bitboard,
        king: Bitboard,
        enemy_queens_and_rooks: Bitboard,
        enemy_queens_and_bishops: Bitboard,
    ) -> (r: Bitboard)
        ensures
            r.0 == pinned_squares(
                self.all.0,
                square.0,
                king.0,
                enemy_queens_and_rooks.0,
                enemy_queens_and_bishops.0,
            ),
    {
        match self.pinned_movement_in_direction(
            square,
            king,
            enemy_queens_and_rooks,
            Direction::Top,
        ) {
            Some(moves) => return moves,
            None => {},
        }
        match self.pinned_movement_in_direction(
            square,
            king,
            enemy_queens_and_rooks,
            Direction::Left,
        ) {
            Some(moves) => return moves,
            None => {},
        }
        match self.pinned_movement_in_direction(
            square,
            king,
            enemy_queens_and_bishops,
            Direction::TopLeft,
        ) {
            Some(moves) => return moves,
            None => {},
        }
        match self.pinned_movement_in_direction(
            square,
            king,
            enemy_queens_and_bishops,
            Direction::TopRight,
        ) {
            Some(moves) => return moves,
            None => {},
        }
        Bitboard::all()
    }

    /// The squares strictly between `square` and the nearest of `attackers`
    /// in the given direction; empty when there is none in that direction.
    pub fn get_push_squares_in_direction(
        self,
        square: Bitboard,
        attackers: Bitboard,
        direction: Direction,
    ) -> (r: Bitboard)
        ensures
            r.0 == push_squares(square.0, attackers.0, direction),
    {
        let mut moves = Bitboard::empty();
        let mut running = square.get_square_in_direction(direction);
        let ghost mut k: nat = 0;
        proof {
            lemma_within_first(square.0, direction);
        }
        while !running.is_empty()
            invariant
                k <= 7,
                within(running.0, direction, k + 1),
                push_squares(square.0, attackers.0, direction) == push_scan(
                    attackers.0,
                    moves.0,
                    running.0,
                    direction,
                    (7 - k) as nat,
                ),
            decreases 7 - k,
        {
            proof {
                if k == 7 {
                    lemma_within_end(running.0, direction);
                }
                lemma_within_step(running.0, direction, k + 1);
            }
            if !(attackers & running).is_empty() {
                return moves;
            } else {
                moves = moves | running;
                running = running.get_square_in_direction(direction);
                proof {
                    k = k + 1;
                }
            }
        }
        Bitboard::empty()
    }

    /// True when neither side has the material to give mate.
    pub fn is_dead(self) -> (r: bool)
        ensures
            r == self.dead(),
    {
        if !self.white.queen.is_empty() || !self.black.queen.is_empty() {
            return false;
        }
        if !self.white.rook.is_empty() || !self.black.rook.is_empty() {
            return false;
        }
        if !self.white.pawn.is_empty() || !self.black.pawn.is_empty() {
            return false;
        }
        let white_bishops = self.white.bishop.count_ones();
        let black_bishops = self.black.bishop.count_ones();
        let white_minors: u32 = white_bishops + self.white.knight.count_ones();
        let black_minors: u32 = black_bishops + self.black.knight.count_ones();

        // Bare kings, or one lone bishop or knight.
        if white_minors + black_minors <= 1 {
            return true;
        }
        // A bishop each, both on squares of one colour.
        if white_minors == 1 && black_minors == 1 && white_bishops == 1 && black_bishops == 1 {
            let white_on_light = (self.white.bishop & Bitboard::new(DARK_SQUARES)).is_empty();
            let black_on_light = (self.black.bishop & Bitboard::new(DARK_SQUARES)).is_empty();
            return white_on_light == black_on_light;
        }
        false
    }
}

} // verus!
