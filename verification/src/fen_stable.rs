//! Whatever a description is read as can be written and read again as the
//! same game: the text written from a game that was read is the description
//! in its shortest form.

use vstd::prelude::*;
use crate::fen::{
    castling_rights, counter, empty_position, en_passant_target, field_end, parse_fen,
    piece_of_letter, placement, placement_from, side_to_move, square_at, with_piece, FenError,
};
use crate::fen_text::{
    as_bytes, describable_position, fen_text, lemma_description_round_trip, lemma_scan_step,
    lemma_square_index, masked, scan_mask,
};
use crate::game::GameView;
use crate::invariants::sound;
use crate::piece::Piece;
use crate::position::Position;

verus! {

/// True when every piece of the position stands on one of the first `n`
/// squares, counted from a8 along the ranks.
pub open spec fn within_scan(position: Position, n: nat) -> bool {
    masked(position, scan_mask(n)) == position
}

proof fn lemma_within_next(position: Position, n: nat)
    requires
        n < 64,
        within_scan(position, n),
    ensures
        within_scan(position, n + 1),
{
    lemma_scan_step(position.all.0, n as u64);
    lemma_scan_step(position.white.all.0, n as u64);
    lemma_scan_step(position.white.king.0, n as u64);
    lemma_scan_step(position.white.queen.0, n as u64);
    lemma_scan_step(position.white.rook.0, n as u64);
    lemma_scan_step(position.white.bishop.0, n as u64);
    lemma_scan_step(position.white.knight.0, n as u64);
    lemma_scan_step(position.white.pawn.0, n as u64);
    lemma_scan_step(position.black.all.0, n as u64);
    lemma_scan_step(position.black.king.0, n as u64);
    lemma_scan_step(position.black.queen.0, n as u64);
    lemma_scan_step(position.black.rook.0, n as u64);
    lemma_scan_step(position.black.bishop.0, n as u64);
    lemma_scan_step(position.black.knight.0, n as u64);
    lemma_scan_step(position.black.pawn.0, n as u64);
}

proof fn lemma_within_grows(position: Position, n: nat, m: nat)
    requires
        n <= m <= 64,
        within_scan(position, n),
    ensures
        within_scan(position, m),
    decreases m - n,
{
    if n < m {
        lemma_within_next(position, n);
        lemma_within_grows(position, n + 1, m);
    }
}

/// The board of one kind with a piece put on `sq`, if it is the board of
/// that piece.
pub open spec fn placed_board(x: u64, selected: bool, sq: u64) -> u64 {
    if selected {
        x | sq
    } else {
        x
    }
}

#[verifier::rlimit(100)]
proof fn lemma_piece_added(
    k: u64,
    q: u64,
    r: u64,
    b: u64,
    n: u64,
    p: u64,
    all: u64,
    other: u64,
    total: u64,
    sq: u64,
    sk: bool,
    sq_: bool,
    sr: bool,
    sb: bool,
    sn: bool,
    sp: bool,
)
    by (bit_vector)
    requires
        sound(k, q, r, b, n, p, all),
        all & other == 0 || other & all == 0,
        total == all | other || total == other | all,
        total & sq == 0,
        sk || sq_ || sr || sb || sn || sp,
        !(sk && sq_) && !(sk && sr) && !(sk && sb) && !(sk && sn) && !(sk && sp),
        !(sq_ && sr) && !(sq_ && sb) && !(sq_ && sn) && !(sq_ && sp),
        !(sr && sb) && !(sr && sn) && !(sr && sp),
        !(sb && sn) && !(sb && sp) && !(sn && sp),
    ensures
        sound(
            placed_board(k, sk, sq),
            placed_board(q, sq_, sq),
            placed_board(r, sr, sq),
            placed_board(b, sb, sq),
            placed_board(n, sn, sq),
            placed_board(p, sp, sq),
            all | sq,
        ),
        (all | sq) & other == 0,
        other & (all | sq) == 0,
        total | sq == (all | sq) | other,
        total | sq == other | (all | sq),
{
}

/// A piece put on the next square keeps the position one in which every
/// square holds at most one piece.
proof fn lemma_piece_placed(acc: Position, white: bool, piece: Piece, n: nat)
    requires
        n < 64,
        describable_position(acc),
        within_scan(acc, n),
    ensures
        describable_position(with_piece(acc, white, piece, square_at(n / 8, n % 8))),
        within_scan(with_piece(acc, white, piece, square_at(n / 8, n % 8)), n + 1),
{
    let sq = square_at(n / 8, n % 8);
    assert(sq == 1u64 << ((63 - n) as u64));
    let side = acc.side(white);
    let other = acc.side(!white);
    lemma_within_next(acc, n);
    lemma_scan_step(acc.all.0, n as u64);
    lemma_scan_step(side.all.0, n as u64);
    lemma_scan_step(side.king.0, n as u64);
    lemma_scan_step(side.queen.0, n as u64);
    lemma_scan_step(side.rook.0, n as u64);
    lemma_scan_step(side.bishop.0, n as u64);
    lemma_scan_step(side.knight.0, n as u64);
    lemma_scan_step(side.pawn.0, n as u64);
    lemma_piece_added(
        side.king.0,
        side.queen.0,
        side.rook.0,
        side.bishop.0,
        side.knight.0,
        side.pawn.0,
        side.all.0,
        other.all.0,
        acc.all.0,
        sq,
        piece == Piece::King,
        piece == Piece::Queen,
        piece == Piece::Rook,
        piece == Piece::Bishop,
        piece == Piece::Knight,
        piece == Piece::Pawn,
    );
}

/// Whatever the placement field is read as is a position in which every
/// square holds at most one piece.
proof fn lemma_read_position(
    field: Seq<u8>,
    i: int,
    row: nat,
    column: nat,
    acc: Position,
    position: Position,
)
    requires
        placement_from(field, i, row, column, acc) == Some(position),
        describable_position(acc),
        within_scan(acc, 8 * row + column),
    ensures
        describable_position(position),
    decreases field.len() - i,
{
    let n = 8 * row + column;
    if i < field.len() {
        if field[i] == 0x2F {
            lemma_read_position(field, i + 1, row + 1, 0, acc, position);
        } else if 0x31 <= field[i] <= 0x38 {
            let skip = (field[i] - 0x30) as nat;
            lemma_within_grows(acc, n, n + skip);
            lemma_read_position(field, i + 1, row, column + skip, acc, position);
        } else {
            let (white, piece) = piece_of_letter(field[i]).unwrap();
            lemma_piece_placed(acc, white, piece, n);
            assert(n / 8 == row && n % 8 == column);
            lemma_read_position(
                field,
                i + 1,
                row,
                column + 1,
                with_piece(acc, white, piece, square_at(row, column)),
                position,
            );
        }
    }
}

/// Whatever a description is read as can be written, and what is written
/// then reads as the same game again.
pub proof fn lemma_reading_is_stable(s: Seq<u8>, g: GameView)
    requires
        parse_fen(s) == Ok::<GameView, FenError>(g),
    ensures
        g.describable(),
        parse_fen(as_bytes(fen_text(g))) == Ok::<GameView, FenError>(g),
{
    let e0 = field_end(s, 0);
    let e1 = field_end(s, e0 + 1);
    let e2 = field_end(s, e1 + 1);
    let e3 = field_end(s, e2 + 1);
    let field = s.subrange(0, e0);
    lemma_scan_step(0, 0);
    assert(describable_position(empty_position()));
    assert(within_scan(empty_position(), 0));
    lemma_read_position(field, 0, 0, 0, empty_position(), g.position);
    let target = s.subrange(e2 + 1, e3);
    if g.en_passant_square.0 != 0 {
        crate::legality::lemma_corner_squares();
        lemma_square_index(
            0x0000_0000_0000_0001,
            (0x68 - target[0]) as u64,
            (target[1] - 0x31) as u64,
        );
    }
    lemma_description_round_trip(g);
}

} // verus!
