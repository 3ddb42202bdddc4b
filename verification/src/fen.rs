//! Reading a game from its six-field description: piece placement, side to
//! move, castling rights, en-passant target, half-move clock and full-move
//! counter, separated by single spaces.

use vstd::prelude::*;
use vstd::string::StringSliceAdditionalSpecFns;
use crate::bitboard::Bitboard;
use crate::game::{Game, GameView};
use crate::movegen::PossibleCastles;
use crate::piece::Piece;
use crate::position::{Pieces, Position};

verus! {

/// The field of a description that is malformed; `FieldCount` when the
/// description does not have exactly six fields.
#[derive(Clone, Copy, Debug, PartialEq, Eq, Structural)]
pub enum FenError {
    FieldCount,
    PiecePlacement,
    SideToMove,
    CastlingRights,
    EnPassantTarget,
    HalfmoveClock,
    FullmoveCounter,
}

/// The index of the first space at or after `from`, or the length of `s` if
/// there is none.
pub open spec fn field_end(s: Seq<u8>, from: int) -> int
    decreases s.len() - from,
{
    if from >= s.len() || s[from] == 0x20 {
        from
    } else {
        field_end(s, from + 1)
    }
}

/// The colour (true for white) and kind of the piece that a letter stands for.
pub open spec fn piece_of_letter(c: u8) -> Option<(bool, Piece)> {
    if c == 0x4B {
        Some((true, Piece::King))
    } else if c == 0x51 {
        Some((true, Piece::Queen))
    } else if c == 0x52 {
        Some((true, Piece::Rook))
    } else if c == 0x42 {
        Some((true, Piece::Bishop))
    } else if c == 0x4E {
        Some((true, Piece::Knight))
    } else if c == 0x50 {
        Some((true, Piece::Pawn))
    } else if c == 0x6B {
        Some((false, Piece::King))
    } else if c == 0x71 {
        Some((false, Piece::Queen))
    } else if c == 0x72 {
        Some((false, Piece::Rook))
    } else if c == 0x62 {
        Some((false, Piece::Bishop))
    } else if c == 0x6E {
        Some((false, Piece::Knight))
    } else if c == 0x70 {
        Some((false, Piece::Pawn))
    } else {
        None
    }
}

/// The square in row `row` (0 for rank 8) and column `column` (0 for file a).
pub open spec fn square_at(row: nat, column: nat) -> u64 {
    1u64 << ((63 - row * 8 - column) as u64)
}

/// The board without any piece.
pub open spec fn empty_position() -> Position {
    let none = Pieces {
        all: Bitboard(0),
        king: Bitboard(0),
        queen: Bitboard(0),
        rook: Bitboard(0),
        bishop: Bitboard(0),
        knight: Bitboard(0),
        pawn: Bitboard(0),
    };
    Position { all: Bitboard(0), white: none, black: none }
}

/// The position with one more piece of the given colour and kind on `sq`.
pub open spec fn with_piece(position: Position, white: bool, piece: Piece, sq: u64) -> Position {
    let side = position.side(white);
    let side = Pieces { all: Bitboard(side.all.0 | sq), ..side }.with_board(
        piece,
        side.board(piece) | sq,
    );
    if white {
        Position { all: Bitboard(position.all.0 | sq), white: side, ..position }
    } else {
        Position { all: Bitboard(position.all.0 | sq), black: side, ..position }
    }
}

/// Reads the placement field from index `i` on, with `position` read so far
/// and the next square in row `row`, column `column`. Rows are separated by
/// `/`; a digit from 1 to 8 skips that many squares; a letter puts a piece.
/// Every row must fill eight columns and there must be eight rows.
pub open spec fn placement_from(field: Seq<u8>, i: int, row: nat, column: nat, position: Position)
    -> Option<Position>
    decreases field.len() - i,
{
    if i < 0 || row > 7 || column > 8 {
        None
    } else if i >= field.len() {
        if row == 7 && column == 8 {
            Some(position)
        } else {
            None
        }
    } else if field[i] == 0x2F {
        if column == 8 && row < 7 {
            placement_from(field, i + 1, row + 1, 0, position)
        } else {
            None
        }
    } else if 0x31 <= field[i] <= 0x38 {
        if column + (field[i] - 0x30) <= 8 {
            placement_from(field, i + 1, row, column + (field[i] - 0x30) as nat, position)
        } else {
            None
        }
    } else {
        match piece_of_letter(field[i]) {
            Some((white, piece)) => if column < 8 {
                placement_from(
                    field,
                    i + 1,
                    row,
                    column + 1,
                    with_piece(position, white, piece, square_at(row, column)),
                )
            } else {
                None
            },
            None => None,
        }
    }
}

/// The position that the placement field describes.
pub open spec fn placement(field: Seq<u8>) -> Option<Position> {
    placement_from(field, 0, 0, 0, empty_position())
}

/// The side to move: `w` for white, `b` for black.
pub open spec fn side_to_move(field: Seq<u8>) -> Option<bool> {
    if field.len() == 1 && field[0] == 0x77 {
        Some(true)
    } else if field.len() == 1 && field[0] == 0x62 {
        Some(false)
    } else {
        None
    }
}

/// The castling rights: `-` for none, else the letters `K`, `Q`, `k`, `q` of
/// the rights that are there, in this order.
pub open spec fn castling_rights(field: Seq<u8>) -> Option<PossibleCastles> {
    let white_kingside = 0 < field.len() && field[0] == 0x4B;
    let i1: int = if white_kingside {
        1
    } else {
        0
    };
    let white_queenside = i1 < field.len() && field[i1] == 0x51;
    let i2 = if white_queenside {
        i1 + 1
    } else {
        i1
    };
    let black_kingside = i2 < field.len() && field[i2] == 0x6B;
    let i3 = if black_kingside {
        i2 + 1
    } else {
        i2
    };
    let black_queenside = i3 < field.len() && field[i3] == 0x71;
    let i4 = if black_queenside {
        i3 + 1
    } else {
        i3
    };
    if field.len() == 1 && field[0] == 0x2D {
        Some(
            PossibleCastles {
                white_kingside: false,
                white_queenside: false,
                black_kingside: false,
                black_queenside: false,
            },
        )
    } else if field.len() > 0 && i4 == field.len() {
        Some(PossibleCastles { white_kingside, white_queenside, black_kingside, black_queenside })
    } else {
        None
    }
}

/// The en-passant target: `-` for none, else a file letter from `a` to `h`
/// and a rank digit from `3` to `6`.
pub open spec fn en_passant_target(field: Seq<u8>) -> Option<u64> {
    if field.len() == 1 && field[0] == 0x2D {
        Some(0)
    } else if field.len() == 2 && 0x61 <= field[0] <= 0x68 && 0x33 <= field[1] <= 0x36 {
        Some(1u64 << ((8 * (field[1] - 0x31) + (0x68 - field[0])) as u64))
    } else {
        None
    }
}

/// True when `field` is a non-empty run of decimal digits.
pub open spec fn is_number(field: Seq<u8>) -> bool {
    field.len() > 0 && forall|i: int| 0 <= i < field.len() ==> 0x30 <= #[trigger] field[i] <= 0x39
}

/// The value of a run of decimal digits.
pub open spec fn number_value(field: Seq<u8>) -> nat
    decreases field.len(),
{
    if field.len() == 0 {
        0
    } else {
        (number_value(field.drop_last()) * 10 + (field.last() - 0x30)) as nat
    }
}

/// The counter that `field` holds: a decimal number that fits in 32 bits.
pub open spec fn counter(field: Seq<u8>) -> Option<u32> {
    if is_number(field) && number_value(field) <= u32::MAX {
        Some(number_value(field) as u32)
    } else {
        None
    }
}

/// The game that the description `s` stands for, or the first field in
/// which it goes wrong. The full-move counter must be at least 1.
pub open spec fn parse_fen(s: Seq<u8>) -> Result<GameView, FenError> {
    let e0 = field_end(s, 0);
    let e1 = field_end(s, e0 + 1);
    let e2 = field_end(s, e1 + 1);
    let e3 = field_end(s, e2 + 1);
    let e4 = field_end(s, e3 + 1);
    let e5 = field_end(s, e4 + 1);
    if e0 >= s.len() || e1 >= s.len() || e2 >= s.len() || e3 >= s.len() || e4 >= s.len() || e5
        != s.len() {
        Err(FenError::FieldCount)
    } else {
        match placement(s.subrange(0, e0)) {
            None => Err(FenError::PiecePlacement),
            Some(position) => match side_to_move(s.subrange(e0 + 1, e1)) {
                None => Err(FenError::SideToMove),
                Some(player) => match castling_rights(s.subrange(e1 + 1, e2)) {
                    None => Err(FenError::CastlingRights),
                    Some(possible_castles) => match en_passant_target(s.subrange(e2 + 1, e3)) {
                        None => Err(FenError::EnPassantTarget),
                        Some(target) => match counter(s.subrange(e3 + 1, e4)) {
                            None => Err(FenError::HalfmoveClock),
                            Some(fifty_move_counter) => match counter(s.subrange(e4 + 1, e5)) {
                                None => Err(FenError::FullmoveCounter),
                                Some(move_counter) => if move_counter == 0 {
                                    Err(FenError::FullmoveCounter)
                                } else {
                                    Ok(
                                        GameView {
                                            position,
                                            player,
                                            possible_castles,
                                            en_passant_square: Bitboard(target),
                                            previous_positions: Seq::empty(),
                                            move_counter,
                                            fifty_move_counter,
                                        },
                                    )
                                },
                            },
                        },
                    },
                },
            },
        }
    }
}


/// The prefix of a run of digits is worth no more than the whole run.
proof fn lemma_number_prefix(field: Seq<u8>, j: int)
    requires
        0 <= j <= field.len(),
        forall|i: int| 0 <= i < field.len() ==> 0x30 <= #[trigger] field[i] <= 0x39,
    ensures
        number_value(field.take(j)) <= number_value(field),
    decreases field.len() - j,
{
    if j < field.len() {
        lemma_number_prefix(field, j + 1);
        assert(field.take(j + 1).drop_last() =~= field.take(j));
    } else {
        assert(field.take(j) =~= field);
    }
}

fn find_field_end(bytes: &[u8], from: usize) -> (r: usize)
    requires
        from <= bytes@.len(),
    ensures
        r == field_end(bytes@, from as int),
        from <= r <= bytes@.len(),
{
    let mut i: usize = from;
    while i < bytes.len() && bytes[i] != 0x20
        invariant
            from <= i <= bytes@.len(),
            field_end(bytes@, from as int) == field_end(bytes@, i as int),
        decreases bytes@.len() - i,
    {
        i = i + 1;
    }
    i
}

fn letter_piece(c: u8) -> (r: Option<(bool, Piece)>)
    ensures
        r == piece_of_letter(c),
{
    if c == 0x4B {
        Some((true, Piece::King))
    } else if c == 0x51 {
        Some((true, Piece::Queen))
    } else if c == 0x52 {
        Some((true, Piece::Rook))
    } else if c == 0x42 {
        Some((true, Piece::Bishop))
    } else if c == 0x4E {
        Some((true, Piece::Knight))
    } else if c == 0x50 {
        Some((true, Piece::Pawn))
    } else if c == 0x6B {
        Some((false, Piece::King))
    } else if c == 0x71 {
        Some((false, Piece::Queen))
    } else if c == 0x72 {
        Some((false, Piece::Rook))
    } else if c == 0x62 {
        Some((false, Piece::Bishop))
    } else if c == 0x6E {
        Some((false, Piece::Knight))
    } else if c == 0x70 {
        Some((false, Piece::Pawn))
    } else {
        None
    }
}

fn put_piece(position: Position, white: bool, piece: Piece, square: Bitboard) -> (r: Position)
    ensures
        r == with_piece(position, white, piece, square.0),
{
    let mut side = if white {
        position.white
    } else {
        position.black
    };
    side.all = side.all | square;
    match piece {
        Piece::King => {
            side.king = side.king | square;
        },
        Piece::Queen => {
            side.queen = side.queen | square;
        },
        Piece::Rook => {
            side.rook = side.rook | square;
        },
        Piece::Bishop => {
            side.bishop = side.bishop | square;
        },
        Piece::Knight => {
            side.knight = side.knight | square;
        },
        Piece::Pawn => {
            side.pawn = side.pawn | square;
        },
    }
    if white {
        Position { all: position.all | square, white: side, black: position.black }
    } else {
        Position { all: position.all | square, white: position.white, black: side }
    }
}

fn read_placement(bytes: &[u8], start: usize, end: usize) -> (r: Option<Position>)
    requires
        start <= end <= bytes@.len(),
    ensures
        r == placement(bytes@.subrange(start as int, end as int)),
{
    let none = Pieces {
        all: Bitboard::empty(),
        king: Bitboard::empty(),
        queen: Bitboard::empty(),
        rook: Bitboard::empty(),
        bishop: Bitboard::empty(),
        knight: Bitboard::empty(),
        pawn: Bitboard::empty(),
    };
    let mut position = Position { all: Bitboard::empty(), white: none, black: none };
    let mut row: u64 = 0;
    let mut column: u64 = 0;
    let mut i: usize = start;
    let ghost field = bytes@.subrange(start as int, end as int);
    while i < end
        invariant
            start <= i <= end <= bytes@.len(),
            field == bytes@.subrange(start as int, end as int),
            row <= 7,
            column <= 8,
            placement(field) == placement_from(
                field,
                i - start,
                row as nat,
                column as nat,
                position,
            ),
        decreases end - i,
    {
        let c = bytes[i];
        assert(field[i - start] == c);
        if c == 0x2F {
            if column == 8 && row < 7 {
                row = row + 1;
                column = 0;
            } else {
                return None;
            }
        } else if 0x31 <= c && c <= 0x38 {
            let skip: u64 = (c - 0x30) as u64;
            if column + skip <= 8 {
                column = column + skip;
            } else {
                return None;
            }
        } else {
            match letter_piece(c) {
                Some((white, piece)) => {
                    if column < 8 {
                        let square = Bitboard::new(1u64 << (63 - row * 8 - column));
                        position = put_piece(position, white, piece, square);
                        column = column + 1;
                    } else {
                        return None;
                    }
                },
                None => {
                    return None;
                },
            }
        }
        i = i + 1;
    }
    if row == 7 && column == 8 {
        Some(position)
    } else {
        None
    }
}

fn read_side(bytes: &[u8], start: usize, end: usize) -> (r: Option<bool>)
    requires
        start <= end <= bytes@.len(),
    ensures
        r == side_to_move(bytes@.subrange(start as int, end as int)),
{
    if end - start != 1 {
        return None;
    }
    let c = bytes[start];
    assert(bytes@.subrange(start as int, end as int)[0] == c);
    if c == 0x77 {
        Some(true)
    } else if c == 0x62 {
        Some(false)
    } else {
        None
    }
}

fn read_castling(bytes: &[u8], start: usize, end: usize) -> (r: Option<PossibleCastles>)
    requires
        start <= end <= bytes@.len(),
    ensures
        r == castling_rights(bytes@.subrange(start as int, end as int)),
{
    let ghost field = bytes@.subrange(start as int, end as int);
    assert(forall|j: int| 0 <= j < field.len() ==> field[j] == bytes@[start + j]);
    let mut i: usize = start;
    let white_kingside = i < end && bytes[i] == 0x4B;
    if white_kingside {
        i = i + 1;
    }
    let white_queenside = i < end && bytes[i] == 0x51;
    if white_queenside {
        i = i + 1;
    }
    let black_kingside = i < end && bytes[i] == 0x6B;
    if black_kingside {
        i = i + 1;
    }
    let black_queenside = i < end && bytes[i] == 0x71;
    if black_queenside {
        i = i + 1;
    }
    if end - start == 1 && bytes[start] == 0x2D {
        Some(
            PossibleCastles {
                white_kingside: false,
                white_queenside: false,
                black_kingside: false,
                black_queenside: false,
            },
        )
    } else if end > start && i == end {
        Some(PossibleCastles { white_kingside, white_queenside, black_kingside, black_queenside })
    } else {
        None
    }
}

fn read_en_passant(bytes: &[u8], start: usize, end: usize) -> (r: Option<Bitboard>)
    requires
        start <= end <= bytes@.len(),
    ensures
        r.is_some() == en_passant_target(bytes@.subrange(start as int, end as int)).is_some(),
        r.is_some() ==> r.unwrap().0 == en_passant_target(
            bytes@.subrange(start as int, end as int),
        ).unwrap(),
{
    let ghost field = bytes@.subrange(start as int, end as int);
    assert(forall|j: int| 0 <= j < field.len() ==> field[j] == bytes@[start + j]);
    if end - start == 1 && bytes[start] == 0x2D {
        return Some(Bitboard::empty());
    }
    if end - start != 2 {
        return None;
    }
    let file = bytes[start];
    let rank = bytes[start + 1];
    if 0x61 <= file && file <= 0x68 && 0x33 <= rank && rank <= 0x36 {
        let index: u64 = (8 * (rank - 0x31) + (0x68 - file)) as u64;
        Some(Bitboard::new(1u64 << index))
    } else {
        None
    }
}

fn read_counter(bytes: &[u8], start: usize, end: usize) -> (r: Option<u32>)
    requires
        start <= end <= bytes@.len(),
    ensures
        r == counter(bytes@.subrange(start as int, end as int)),
{
    let ghost field = bytes@.subrange(start as int, end as int);
    if start == end {
        return None;
    }
    let mut value: u32 = 0;
    let mut i: usize = start;
    while i < end
        invariant
            start <= i <= end <= bytes@.len(),
            start < end,
            field == bytes@.subrange(start as int, end as int),
            forall|j: int| 0 <= j < i - start ==> 0x30 <= #[trigger] field[j] <= 0x39,
            value == number_value(field.take(i - start)),
        decreases end - i,
    {
        let c = bytes[i];
        assert(field[i - start] == c);
        if c < 0x30 || c > 0x39 {
            return None;
        }
        let next: u64 = (value as u64) * 10 + ((c - 0x30) as u64);
        assert(field.take(i - start + 1).drop_last() =~= field.take(i - start));
        assert(next == number_value(field.take(i - start + 1)));
        if next > 0xFFFF_FFFF {
            proof {
                if is_number(field) {
                    lemma_number_prefix(field, i - start + 1);
                }
            }
            return None;
        }
        value = next as u32;
        i = i + 1;
    }
    assert(field.take(i - start) =~= field);
    Some(value)
}

impl Game {
    /// Reads a game from its six-field description, or tells which field is
    /// malformed. A game that was read can be written, and what is written
    /// reads as the same game.
    pub fn from_fen(fen: &str) -> (r: Result<Game, FenError>)
        ensures
            match r {
                Ok(game) => parse_fen(fen.spec_bytes()) == Ok::<GameView, FenError>(game@)
                    && game@.describable() && parse_fen(
                    crate::fen_text::as_bytes(crate::fen_text::fen_text(game@)),
                ) == Ok::<GameView, FenError>(game@),
                Err(error) => parse_fen(fen.spec_bytes()) == Err::<GameView, FenError>(error),
            },
    {
        let bytes = fen.as_bytes();
        let len = bytes.len();
        let e0 = find_field_end(bytes, 0);
        if e0 >= len {
            return Err(FenError::FieldCount);
        }
        let e1 = find_field_end(bytes, e0 + 1);
        if e1 >= len {
            return Err(FenError::FieldCount);
        }
        let e2 = find_field_end(bytes, e1 + 1);
        if e2 >= len {
            return Err(FenError::FieldCount);
        }
        let e3 = find_field_end(bytes, e2 + 1);
        if e3 >= len {
            return Err(FenError::FieldCount);
        }
        let e4 = find_field_end(bytes, e3 + 1);
        if e4 >= len {
            return Err(FenError::FieldCount);
        }
        let e5 = find_field_end(bytes, e4 + 1);
        if e5 != len {
            return Err(FenError::FieldCount);
        }
        let position = match read_placement(bytes, 0, e0) {
            Some(position) => position,
            None => {
                return Err(FenError::PiecePlacement);
            },
        };
        let player = match read_side(bytes, e0 + 1, e1) {
            Some(player) => player,
            None => {
                return Err(FenError::SideToMove);
            },
        };
        let possible_castles = match read_castling(bytes, e1 + 1, e2) {
            Some(possible_castles) => possible_castles,
            None => {
                return Err(FenError::CastlingRights);
            },
        };
        let en_passant_square = match read_en_passant(bytes, e2 + 1, e3) {
            Some(square) => square,
            None => {
                return Err(FenError::EnPassantTarget);
            },
        };
        let fifty_move_counter = match read_counter(bytes, e3 + 1, e4) {
            Some(count) => count,
            None => {
                return Err(FenError::HalfmoveClock);
            },
        };
        let move_counter = match read_counter(bytes, e4 + 1, e5) {
            Some(count) => count,
            None => {
                return Err(FenError::FullmoveCounter);
            },
        };
        if move_counter == 0 {
            return Err(FenError::FullmoveCounter);
        }
        let game = Game {
            position,
            player,
            possible_castles,
            en_passant_square,
            previous_positions: Vec::new(),
            move_counter,
            fifty_move_counter,
        };
        proof {
            crate::fen_stable::lemma_reading_is_stable(fen.spec_bytes(), game@);
        }
        Ok(game)
    }
}

} // verus!
