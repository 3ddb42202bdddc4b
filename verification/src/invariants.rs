//! What holds of every position that a game can reach, and the proof that
//! a move which fits a position leads to such a position again.

use vstd::prelude::*;
use crate::bitboard::{shift_bottom, shift_top, single};
use crate::chess_move::{Castle, Move};
use crate::piece::{Piece, PromotionPiece};
use crate::position::{Pieces, Position};

verus! {

/// Ranks 1 and 8, where no pawn stands.
pub const EDGE_RANKS: u64 = 0xFF00_0000_0000_00FF;

/// The six boards of one side share no square, and `all` is their union.
pub open spec fn sound(king: u64, queen: u64, rook: u64, bishop: u64, knight: u64, pawn: u64, all: u64)
    -> bool {
    &&& king & queen == 0
    &&& king & rook == 0
    &&& king & bishop == 0
    &&& king & knight == 0
    &&& king & pawn == 0
    &&& queen & rook == 0
    &&& queen & bishop == 0
    &&& queen & knight == 0
    &&& queen & pawn == 0
    &&& rook & bishop == 0
    &&& rook & knight == 0
    &&& rook & pawn == 0
    &&& bishop & knight == 0
    &&& bishop & pawn == 0
    &&& knight & pawn == 0
    &&& all == king | queen | rook | bishop | knight | pawn
}

/// The boards of the two sides make a position in which every square holds
/// at most one piece, each side has one king, and no pawn stands on rank 1
/// or rank 8. `all` is the union of the two sides, whichever is named first.
pub open spec fn sound_position(
    mk: u64,
    mq: u64,
    mr: u64,
    mb: u64,
    mn: u64,
    mp: u64,
    mall: u64,
    ok: u64,
    oq: u64,
    or: u64,
    ob: u64,
    on: u64,
    op: u64,
    oall: u64,
    all: u64,
) -> bool {
    &&& sound(mk, mq, mr, mb, mn, mp, mall)
    &&& sound(ok, oq, or, ob, on, op, oall)
    &&& mall & oall == 0
    &&& all == mall | oall
    &&& single(mk)
    &&& single(ok)
    &&& mp & EDGE_RANKS == 0
    &&& op & EDGE_RANKS == 0
}

impl Pieces {
    /// The six boards share no square, and `all` is their union.
    pub open spec fn sound(self) -> bool {
        sound(
            self.king.0,
            self.queen.0,
            self.rook.0,
            self.bishop.0,
            self.knight.0,
            self.pawn.0,
            self.all.0,
        )
    }
}

impl Position {
    /// The twelve piece boards share no square; each side's `all` is the
    /// union of its six boards and `all` the union of the two; each side has
    /// exactly one king; no pawn stands on rank 1 or rank 8.
    pub open spec fn well_formed(self) -> bool {
        &&& self.white.sound()
        &&& self.black.sound()
        &&& self.white.all.0 & self.black.all.0 == 0
        &&& self.all.0 == self.white.all.0 | self.black.all.0
        &&& single(self.white.king.0)
        &&& single(self.black.king.0)
        &&& self.white.pawn.0 & EDGE_RANKS == 0
        &&& self.black.pawn.0 & EDGE_RANKS == 0
    }
}

/// The king's home square of `player`: e1 or e8.
pub open spec fn king_home(player: bool) -> u64 {
    if player {
        0x0000_0000_0000_0008
    } else {
        0x0800_0000_0000_0000
    }
}

/// The home square of the rook with which `player` castles on `side`.
pub open spec fn rook_home(player: bool, side: Castle) -> u64 {
    match (side, player) {
        (Castle::Kingside, true) => 0x0000_0000_0000_0001,
        (Castle::Kingside, false) => 0x0100_0000_0000_0000,
        (Castle::Queenside, true) => 0x0000_0000_0000_0080,
        (Castle::Queenside, false) => 0x8000_0000_0000_0000,
    }
}

/// The squares between king and rook when `player` castles on `side`.
pub open spec fn castle_between(player: bool, side: Castle) -> u64 {
    match (side, player) {
        (Castle::Kingside, true) => 0x0000_0000_0000_0006,
        (Castle::Kingside, false) => 0x0600_0000_0000_0000,
        (Castle::Queenside, true) => 0x0000_0000_0000_0070,
        (Castle::Queenside, false) => 0x7000_0000_0000_0000,
    }
}

impl Move {
    /// True when this move can be made in `position` as far as the placement
    /// of the pieces goes.
    ///
    /// Castling: the king and the rook stand on their home squares with
    /// nothing between them. Any other move: one piece of the stated kind
    /// goes from its square to one that holds no piece of its own side and
    /// not the other king; a pawn promotes exactly when it reaches rank 1 or
    /// rank 8, and nothing else promotes; an en-passant capture is a pawn's
    /// move to an empty square behind which an enemy pawn stands.
    pub open spec fn fits(self, position: Position) -> bool {
        let mover = position.side(self.player);
        let other = position.side(!self.player);
        match self.is_castling {
            Some(side) => {
                &&& self == Move::castling(self.player, side)
                &&& mover.king.0 == king_home(self.player)
                &&& mover.rook.0 & rook_home(self.player, side) != 0
                &&& position.all.0 & castle_between(self.player, side) == 0
            },
            None => {
                let from = self.from_square.0;
                let to = self.to_square.0;
                &&& single(from)
                &&& single(to)
                &&& from & mover.board(self.piece) != 0
                &&& to & mover.all.0 == 0
                &&& to & other.king.0 == 0
                &&& self.is_promoting_to.is_some() ==> self.piece == Piece::Pawn
                &&& self.piece == Piece::Pawn ==> (self.is_promoting_to.is_some() <==> to
                    & EDGE_RANKS != 0)
                &&& self.is_capturing_en_passant ==> {
                    &&& self.piece == Piece::Pawn
                    &&& to & position.all.0 == 0
                    &&& Position::behind(self.player, to) & other.pawn.0 != 0
                }
            },
        }
    }
}

/// The board `x` after a piece went from `from` to `to`, if `x` is the
/// board of that piece.
pub open spec fn moved_board(x: u64, selected: bool, from: u64, to: u64) -> u64 {
    if selected {
        (x & !from) | to
    } else {
        x
    }
}

/// The board `x` after a pawn promoted on `to`, if `x` is the board of the
/// new piece.
pub open spec fn promoted_board(x: u64, selected: bool, to: u64) -> u64 {
    if selected {
        x | to
    } else {
        x
    }
}

/// The board `y` after a capture on `to`, if `y` is the board of the piece
/// that was taken.
pub open spec fn struck_board(y: u64, selected: bool, to: u64) -> u64 {
    if selected {
        y & !to
    } else {
        y
    }
}

/// A set of one square lies inside any other set or outside it.
#[verifier::rlimit(100)]
pub proof fn lemma_single_in_or_out(a: u64, x: u64)
    by (bit_vector)
    requires
        single(a),
    ensures
        a & x == 0 || a & x == a,
        single(x) && a & x != 0 ==> a == x,
        shift_top(a) & a == 0,
        shift_bottom(a) & a == 0,
        shift_top(a) & x == 0 || shift_top(a) & x == shift_top(a),
        shift_bottom(a) & x == 0 || shift_bottom(a) & x == shift_bottom(a),
        (x & !x) | a == a,
{
}

#[verifier::rlimit(100)]
proof fn lemma_mover_sound(
    mk: u64,
    mq: u64,
    mr: u64,
    mb: u64,
    mn: u64,
    mp: u64,
    mall: u64,
    from: u64,
    to: u64,
    sk: bool,
    sq: bool,
    sr: bool,
    sb: bool,
    sn: bool,
    sp: bool,
    pq: bool,
    pr: bool,
    pb: bool,
    pn: bool,
)
    by (bit_vector)
    requires
        sound(mk, mq, mr, mb, mn, mp, mall),
        mp & EDGE_RANKS == 0,
        from != 0,
        sk || sq || sr || sb || sn || sp,
        sk ==> from & mk == from,
        sq ==> from & mq == from,
        sr ==> from & mr == from,
        sb ==> from & mb == from,
        sn ==> from & mn == from,
        sp ==> from & mp == from,
        to & mall == 0,
        !(pq && pr) && !(pq && pb) && !(pq && pn) && !(pr && pb) && !(pr && pn) && !(pb && pn),
        (pq || pr || pb || pn) ==> sp,
        sp && !(pq || pr || pb || pn) ==> to & EDGE_RANKS == 0,
    ensures
        sound(
            moved_board(mk, sk, from, to),
            promoted_board(moved_board(mq, sq, from, to), pq, to),
            promoted_board(moved_board(mr, sr, from, to), pr, to),
            promoted_board(moved_board(mb, sb, from, to), pb, to),
            promoted_board(moved_board(mn, sn, from, to), pn, to),
            struck_board(moved_board(mp, sp, from, to), pq || pr || pb || pn, to),
            (mall & !from) | to,
        ),
        struck_board(moved_board(mp, sp, from, to), pq || pr || pb || pn, to) & EDGE_RANKS == 0,
        from & mall == from,
{
}

#[verifier::rlimit(100)]
proof fn lemma_other_sound(
    ok: u64,
    oq: u64,
    or: u64,
    ob: u64,
    on: u64,
    op: u64,
    oall: u64,
    mall: u64,
    all: u64,
    to: u64,
    behind: u64,
    ep: bool,
)
    by (bit_vector)
    requires
        sound(ok, oq, or, ob, on, op, oall),
        op & EDGE_RANKS == 0,
        all == mall | oall,
        to & ok == 0,
        to & oq == 0 || to & oq == to,
        to & or == 0 || to & or == to,
        to & ob == 0 || to & ob == to,
        to & on == 0 || to & on == to,
        to & op == 0 || to & op == to,
        ep ==> to & all == 0 && behind & op == behind && behind & to == 0,
    ensures
        ({
            let hp = to & op != 0;
            let hn = !hp && to & on != 0;
            let hb = !hp && !hn && to & ob != 0;
            let hr = !hp && !hn && !hb && to & or != 0;
            let hq = !hp && !hn && !hb && !hr && to & oq != 0;
            let hit = hp || hn || hb || hr || hq;
            let oq2 = struck_board(oq, hq, to);
            let or2 = struck_board(or, hr, to);
            let ob2 = struck_board(ob, hb, to);
            let on2 = struck_board(on, hn, to);
            let op2 = struck_board(struck_board(op, hp, to), ep, behind);
            let oall2 = struck_board(struck_board(oall, hit, to), ep, behind);
            &&& sound(ok, oq2, or2, ob2, on2, op2, oall2)
            &&& op2 & EDGE_RANKS == 0
            &&& ep ==> oall2 == oall & !behind && behind & oall == behind && behind & to == 0 && to
                & oall == 0
            &&& !ep ==> oall2 == oall & !to
        }),
{
}

#[verifier::rlimit(100)]
proof fn lemma_sides_apart(
    mall: u64,
    oall: u64,
    all: u64,
    from: u64,
    to: u64,
    behind: u64,
    ep: bool,
    oall2: u64,
)
    by (bit_vector)
    requires
        mall & oall == 0,
        all == mall | oall,
        from & mall == from,
        to & mall == 0,
        ep ==> oall2 == oall & !behind && behind & oall == behind && behind & to == 0 && to & oall
            == 0,
        !ep ==> oall2 == oall & !to,
    ensures
        ((mall & !from) | to) & oall2 == 0,
        oall2 & ((mall & !from) | to) == 0,
        struck_board((all & !from) | to, ep, behind) == ((mall & !from) | to) | oall2,
        struck_board((all & !from) | to, ep, behind) == oall2 | ((mall & !from) | to),
{
}

#[verifier::rlimit(100)]
proof fn lemma_castle_sound(
    mk: u64,
    mq: u64,
    mr: u64,
    mb: u64,
    mn: u64,
    mp: u64,
    mall: u64,
    ok: u64,
    oq: u64,
    or: u64,
    ob: u64,
    on: u64,
    op: u64,
    oall: u64,
    all: u64,
    home: u64,
    corner: u64,
    between: u64,
    king_to: u64,
    rook_flip: u64,
    all_flip: u64,
)
    by (bit_vector)
    requires
        sound_position(mk, mq, mr, mb, mn, mp, mall, ok, oq, or, ob, on, op, oall, all),
        mk == home,
        mr & corner != 0,
        all & between == 0,
        (home == 0x08 && corner == 0x01 && between == 0x06 && king_to == 0x02 && rook_flip == 0x05
            && all_flip == 0x0F) || (home == 0x08 && corner == 0x80 && between == 0x70 && king_to
            == 0x20 && rook_flip == 0x90 && all_flip == 0xB8) || (home == 0x0800_0000_0000_0000
            && corner == 0x0100_0000_0000_0000 && between == 0x0600_0000_0000_0000 && king_to
            == 0x0200_0000_0000_0000 && rook_flip == 0x0500_0000_0000_0000 && all_flip
            == 0x0F00_0000_0000_0000) || (home == 0x0800_0000_0000_0000 && corner
            == 0x8000_0000_0000_0000 && between == 0x7000_0000_0000_0000 && king_to
            == 0x2000_0000_0000_0000 && rook_flip == 0x9000_0000_0000_0000 && all_flip
            == 0xB800_0000_0000_0000),
    ensures
        sound_position(
            king_to,
            mq,
            mr ^ rook_flip,
            mb,
            mn,
            mp,
            mall ^ all_flip,
            ok,
            oq,
            or,
            ob,
            on,
            op,
            oall,
            all ^ all_flip,
        ),
        oall & (mall ^ all_flip) == 0,
        all ^ all_flip == oall | (mall ^ all_flip),
{
}

proof fn lemma_swap_sides(a: u64, b: u64)
    ensures
        a & b == b & a,
        a | b == b | a,
{
    crate::legality::lemma_set_algebra(a, b, 0);
}

/// A move that fits a well-formed position leads to a well-formed position:
/// the twelve boards still share no square, the occupancies are still the
/// unions, each side still has one king, and no pawn stands on rank 1 or 8.
pub proof fn lemma_move_keeps_well_formed(position: Position, m: Move)
    requires
        position.well_formed(),
        m.fits(position),
    ensures
        position.after_move(m).0.well_formed(),
{
    reveal(Position::after_move);
    let mover = position.side(m.player);
    let other = position.side(!m.player);
    let next = position.after_move(m).0;
    lemma_swap_sides(position.white.all.0, position.black.all.0);
    match m.is_castling {
        Some(side) => {
            lemma_castle_sound(
                mover.king.0,
                mover.queen.0,
                mover.rook.0,
                mover.bishop.0,
                mover.knight.0,
                mover.pawn.0,
                mover.all.0,
                other.king.0,
                other.queen.0,
                other.rook.0,
                other.bishop.0,
                other.knight.0,
                other.pawn.0,
                other.all.0,
                position.all.0,
                king_home(m.player),
                rook_home(m.player, side),
                castle_between(m.player, side),
                crate::position::castle_king_to(m.player, side),
                crate::position::castle_rook_flip(m.player, side),
                crate::position::castle_all_flip(m.player, side),
            );
        },
        None => {
            let from = m.from_square.0;
            let to = m.to_square.0;
            let promotion = m.is_promoting_to;
            let behind = Position::behind(m.player, to);
            let ep = m.is_capturing_en_passant;
            lemma_single_in_or_out(from, mover.king.0);
            lemma_single_in_or_out(from, mover.queen.0);
            lemma_single_in_or_out(from, mover.rook.0);
            lemma_single_in_or_out(from, mover.bishop.0);
            lemma_single_in_or_out(from, mover.knight.0);
            lemma_single_in_or_out(from, mover.pawn.0);
            lemma_single_in_or_out(to, other.queen.0);
            lemma_single_in_or_out(to, other.rook.0);
            lemma_single_in_or_out(to, other.bishop.0);
            lemma_single_in_or_out(to, other.knight.0);
            lemma_single_in_or_out(to, other.pawn.0);
            lemma_single_in_or_out(mover.king.0, from);
            lemma_single_in_or_out(to, mover.king.0);
            lemma_mover_sound(
                mover.king.0,
                mover.queen.0,
                mover.rook.0,
                mover.bishop.0,
                mover.knight.0,
                mover.pawn.0,
                mover.all.0,
                from,
                to,
                m.piece == Piece::King,
                m.piece == Piece::Queen,
                m.piece == Piece::Rook,
                m.piece == Piece::Bishop,
                m.piece == Piece::Knight,
                m.piece == Piece::Pawn,
                promotion == Some(PromotionPiece::Queen),
                promotion == Some(PromotionPiece::Rook),
                promotion == Some(PromotionPiece::Bishop),
                promotion == Some(PromotionPiece::Knight),
            );
            lemma_swap_sides(mover.all.0, other.all.0);
            lemma_other_sound(
                other.king.0,
                other.queen.0,
                other.rook.0,
                other.bishop.0,
                other.knight.0,
                other.pawn.0,
                other.all.0,
                mover.all.0,
                position.all.0,
                to,
                behind,
                ep,
            );
            lemma_sides_apart(
                mover.all.0,
                other.all.0,
                position.all.0,
                from,
                to,
                behind,
                ep,
                next.side(!m.player).all.0,
            );
        },
    }
}

} // verus!
