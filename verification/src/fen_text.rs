//! Writing a game as its six-field description, and the proof that reading
//! the description gives the game back.

use vstd::prelude::*;
use vstd::string::{StringExecFns, StringSliceAdditionalSpecFns};
use crate::bitboard::Bitboard;
use crate::bitboard::{single, ALL_SQUARES};
use crate::fen::{
    castling_rights, counter, en_passant_target, field_end, is_number, number_value, parse_fen,
    placement, placement_from, square_at, with_piece, FenError,
};
use crate::game::{Game, GameView};
use crate::movegen::PossibleCastles;
use crate::notation::{file_from, file_letter, rank_digit, rank_from, FILE_H, FIRST_RANK};
use crate::piece::Piece;
use crate::invariants::sound;
use crate::position::{Pieces, Position};

verus! {

/// The letter that stands for a piece of the given colour and kind.
pub open spec fn letter_of(white: bool, piece: Piece) -> char {
    match (white, piece) {
        (true, Piece::King) => 'K',
        (true, Piece::Queen) => 'Q',
        (true, Piece::Rook) => 'R',
        (true, Piece::Bishop) => 'B',
        (true, Piece::Knight) => 'N',
        (true, Piece::Pawn) => 'P',
        (false, Piece::King) => 'k',
        (false, Piece::Queen) => 'q',
        (false, Piece::Rook) => 'r',
        (false, Piece::Bishop) => 'b',
        (false, Piece::Knight) => 'n',
        (false, Piece::Pawn) => 'p',
    }
}

/// The colour and kind of the piece on `sq`, if one of the twelve boards
/// holds that square.
pub open spec fn piece_on(position: Position, sq: u64) -> Option<(bool, Piece)> {
    if position.white.king.0 & sq != 0 {
        Some((true, Piece::King))
    } else if position.white.queen.0 & sq != 0 {
        Some((true, Piece::Queen))
    } else if position.white.rook.0 & sq != 0 {
        Some((true, Piece::Rook))
    } else if position.white.bishop.0 & sq != 0 {
        Some((true, Piece::Bishop))
    } else if position.white.knight.0 & sq != 0 {
        Some((true, Piece::Knight))
    } else if position.white.pawn.0 & sq != 0 {
        Some((true, Piece::Pawn))
    } else if position.black.king.0 & sq != 0 {
        Some((false, Piece::King))
    } else if position.black.queen.0 & sq != 0 {
        Some((false, Piece::Queen))
    } else if position.black.rook.0 & sq != 0 {
        Some((false, Piece::Rook))
    } else if position.black.bishop.0 & sq != 0 {
        Some((false, Piece::Bishop))
    } else if position.black.knight.0 & sq != 0 {
        Some((false, Piece::Knight))
    } else if position.black.pawn.0 & sq != 0 {
        Some((false, Piece::Pawn))
    } else {
        None
    }
}

/// The decimal digit `d` as a character.
pub open spec fn digit_char(d: nat) -> char {
    if d == 0 {
        '0'
    } else if d == 1 {
        '1'
    } else if d == 2 {
        '2'
    } else if d == 3 {
        '3'
    } else if d == 4 {
        '4'
    } else if d == 5 {
        '5'
    } else if d == 6 {
        '6'
    } else if d == 7 {
        '7'
    } else if d == 8 {
        '8'
    } else {
        '9'
    }
}

/// A run of empty squares: nothing for no square, else the digit of their
/// number.
pub open spec fn run_text(run: nat) -> Seq<char> {
    if run == 0 {
        Seq::empty()
    } else {
        seq![digit_char(run)]
    }
}

/// The placement field from the `n`-th square on, counted from a8 along the
/// ranks, with `run` empty squares seen in the current rank and not yet
/// written.
pub open spec fn placement_text_from(position: Position, n: nat, run: nat) -> Seq<char>
    decreases 64 - n,
{
    if n >= 64 {
        run_text(run)
    } else {
        let new_row = n % 8 == 0 && n > 0;
        let head = if new_row {
            run_text(run) + seq!['/']
        } else {
            Seq::empty()
        };
        let run = if new_row {
            0
        } else {
            run
        };
        match piece_on(position, square_at(n / 8, n % 8)) {
            Some((white, piece)) => head + run_text(run) + seq![letter_of(white, piece)]
                + placement_text_from(position, n + 1, 0),
            None => head + placement_text_from(position, n + 1, run + 1),
        }
    }
}

/// The castling field: `-` for no right, else the letters of the rights.
pub open spec fn castling_text(rights: PossibleCastles) -> Seq<char> {
    if !rights.white_kingside && !rights.white_queenside && !rights.black_kingside
        && !rights.black_queenside {
        seq!['-']
    } else {
        (if rights.white_kingside {
            seq!['K']
        } else {
            Seq::empty()
        }) + (if rights.white_queenside {
            seq!['Q']
        } else {
            Seq::empty()
        }) + (if rights.black_kingside {
            seq!['k']
        } else {
            Seq::empty()
        }) + (if rights.black_queenside {
            seq!['q']
        } else {
            Seq::empty()
        })
    }
}

/// The en-passant field: `-` for no target, else the name of the square.
pub open spec fn target_text(target: u64) -> Seq<char> {
    if target == 0 {
        seq!['-']
    } else {
        seq![file_letter(file_from(target, 0)), rank_digit(rank_from(target, 0))]
    }
}

/// The decimal digits of `n`.
pub open spec fn number_text(n: nat) -> Seq<char>
    decreases n,
{
    if n < 10 {
        seq![digit_char(n)]
    } else {
        number_text(n / 10).push(digit_char(n % 10))
    }
}

/// The six-field description of a game.
pub open spec fn fen_text(g: GameView) -> Seq<char> {
    placement_text_from(g.position, 0, 0) + seq![' '] + seq![
        if g.player {
            'w'
        } else {
            'b'
        },
    ] + seq![' '] + castling_text(g.possible_castles) + seq![' '] + target_text(
        g.en_passant_square.0,
    ) + seq![' '] + number_text(g.fifty_move_counter as nat) + seq![' '] + number_text(
        g.move_counter as nat,
    )
}

fn push_digit(text: &mut String, d: u32)
    requires
        d < 10,
    ensures
        final(text)@ == old(text)@ + seq![digit_char(d as nat)],
{
    proof {
        reveal_strlit("0");
        reveal_strlit("1");
        reveal_strlit("2");
        reveal_strlit("3");
        reveal_strlit("4");
        reveal_strlit("5");
        reveal_strlit("6");
        reveal_strlit("7");
        reveal_strlit("8");
        reveal_strlit("9");
    }
    let ghost before = text@;
    text.append(
        if d == 0 {
            "0"
        } else if d == 1 {
            "1"
        } else if d == 2 {
            "2"
        } else if d == 3 {
            "3"
        } else if d == 4 {
            "4"
        } else if d == 5 {
            "5"
        } else if d == 6 {
            "6"
        } else if d == 7 {
            "7"
        } else if d == 8 {
            "8"
        } else {
            "9"
        },
    );
    assert(text@ =~= before + seq![digit_char(d as nat)]);
}

fn push_number(text: &mut String, n: u32)
    ensures
        final(text)@ == old(text)@ + number_text(n as nat),
    decreases n,
{
    let ghost before = text@;
    if n >= 10 {
        push_number(text, n / 10);
    }
    push_digit(text, n % 10);
    assert(text@ =~= before + number_text(n as nat));
}

fn push_run(text: &mut String, run: u32)
    requires
        run <= 8,
    ensures
        final(text)@ == old(text)@ + run_text(run as nat),
{
    let ghost before = text@;
    if run > 0 {
        push_digit(text, run);
    }
    assert(text@ =~= before + run_text(run as nat));
}

fn push_piece(text: &mut String, position: &Position, square: Bitboard) -> (r: bool)
    ensures
        r == piece_on(*position, square.0).is_some(),
        final(text)@ == old(text)@ + (match piece_on(*position, square.0) {
            Some((white, piece)) => seq![letter_of(white, piece)],
            None => Seq::empty(),
        }),
{
    proof {
        reveal_strlit("K");
        reveal_strlit("Q");
        reveal_strlit("R");
        reveal_strlit("B");
        reveal_strlit("N");
        reveal_strlit("P");
        reveal_strlit("k");
        reveal_strlit("q");
        reveal_strlit("r");
        reveal_strlit("b");
        reveal_strlit("n");
        reveal_strlit("p");
    }
    let ghost before = text@;
    let letter = if !(position.white.king & square).is_empty() {
        "K"
    } else if !(position.white.queen & square).is_empty() {
        "Q"
    } else if !(position.white.rook & square).is_empty() {
        "R"
    } else if !(position.white.bishop & square).is_empty() {
        "B"
    } else if !(position.white.knight & square).is_empty() {
        "N"
    } else if !(position.white.pawn & square).is_empty() {
        "P"
    } else if !(position.black.king & square).is_empty() {
        "k"
    } else if !(position.black.queen & square).is_empty() {
        "q"
    } else if !(position.black.rook & square).is_empty() {
        "r"
    } else if !(position.black.bishop & square).is_empty() {
        "b"
    } else if !(position.black.knight & square).is_empty() {
        "n"
    } else if !(position.black.pawn & square).is_empty() {
        "p"
    } else {
        assert(text@ =~= before + Seq::<char>::empty());
        return false;
    };
    text.append(letter);
    assert(text@ =~= before + seq![letter_of(
        piece_on(*position, square.0).unwrap().0,
        piece_on(*position, square.0).unwrap().1,
    )]);
    true
}

fn push_placement(text: &mut String, position: &Position)
    ensures
        final(text)@ == old(text)@ + placement_text_from(*position, 0, 0),
{
    let ghost start = text@;
    let mut n: u32 = 0;
    let mut run: u32 = 0;
    assert(text@ =~= start + Seq::<char>::empty());
    let ghost mut done: Seq<char> = Seq::empty();
    while n < 64
        invariant
            n <= 64,
            run <= n % 8 || (n % 8 == 0 && run <= 8),
            run <= 8,
            n == 0 ==> run == 0,
            text@ == start + done,
            done + placement_text_from(*position, n as nat, run as nat) == placement_text_from(
                *position,
                0,
                0,
            ),
        decreases 64 - n,
    {
        let ghost before = text@;
        let ghost old_run = run;
        let ghost head = if n % 8 == 0 && n > 0 {
            run_text(run as nat) + seq!['/']
        } else {
            Seq::<char>::empty()
        };
        if n % 8 == 0 && n > 0 {
            proof {
                reveal_strlit("/");
            }
            push_run(text, run);
            text.append("/");
            run = 0;
        }
        assert(text@ =~= before + head);
        let ghost mid_run = run;
        let square = Bitboard::new(1u64 << (63 - (n / 8) * 8 - n % 8));
        assert(square.0 == square_at((n / 8) as nat, (n % 8) as nat));
        let found = push_run_and_piece(text, position, square, run);
        if found {
            run = 0;
        } else {
            run = run + 1;
        }
        n = n + 1;
        proof {
            let rest = placement_text_from(*position, n as nat, run as nat);
            let whole = placement_text_from(*position, (n - 1) as nat, old_run as nat);
            let added = match piece_on(*position, square.0) {
                Some((white, piece)) => head + run_text(mid_run as nat) + seq![
                    letter_of(white, piece),
                ],
                None => head,
            };
            assert(whole =~= added + rest);
            assert(text@ =~= before + added);
            assert((done + added) + rest =~= done + whole);
            assert(text@ =~= start + (done + added));
            done = done + added;
        }
    }
    push_run(text, run);
    assert(text@ =~= start + placement_text_from(*position, 0, 0));
}

fn push_rights(text: &mut String, rights: PossibleCastles)
    ensures
        final(text)@ == old(text)@ + castling_text(rights),
{
    proof {
        reveal_strlit("-");
        reveal_strlit("K");
        reveal_strlit("Q");
        reveal_strlit("k");
        reveal_strlit("q");
    }
    let ghost before = text@;
    if !rights.white_kingside && !rights.white_queenside && !rights.black_kingside
        && !rights.black_queenside {
        text.append("-");
    } else {
        if rights.white_kingside {
            text.append("K");
        }
        if rights.white_queenside {
            text.append("Q");
        }
        if rights.black_kingside {
            text.append("k");
        }
        if rights.black_queenside {
            text.append("q");
        }
    }
    assert(text@ =~= before + castling_text(rights));
}

fn push_target(text: &mut String, target: Bitboard)
    ensures
        final(text)@ == old(text)@ + target_text(target.0),
{
    proof {
        reveal_strlit("-");
    }
    let ghost before = text@;
    if target.is_empty() {
        text.append("-");
    } else {
        push_square_name(text, target);
    }
    assert(text@ =~= before + target_text(target.0));
}

fn push_side(text: &mut String, player: bool)
    ensures
        final(text)@ == old(text)@ + seq![' '] + seq![
            if player {
                'w'
            } else {
                'b'
            },
        ] + seq![' '],
{
    proof {
        reveal_strlit(" ");
        reveal_strlit("w");
        reveal_strlit("b");
    }
    let ghost before = text@;
    text.append(" ");
    if player {
        text.append("w");
    } else {
        text.append("b");
    }
    text.append(" ");
    assert(text@ =~= before + seq![' '] + seq![
        if player {
            'w'
        } else {
            'b'
        },
    ] + seq![' ']);
}

fn push_space(text: &mut String)
    ensures
        final(text)@ == old(text)@ + seq![' '],
{
    proof {
        reveal_strlit(" ");
    }
    let ghost before = text@;
    text.append(" ");
    assert(text@ =~= before + seq![' ']);
}

impl Game {
    /// Writes the game as its six-field description. The list of earlier
    /// positions is not part of it. What is written of a game that a
    /// description can stand for reads as that game.
    pub fn to_fen(&self) -> (r: String)
        ensures
            r@ == fen_text(self@),
            self@.describable() ==> parse_fen(as_bytes(r@)) == Ok::<GameView, FenError>(self@),
    {
        proof {
            reveal_strlit("");
            if self@.describable() {
                lemma_description_round_trip(self@);
            }
        }
        let mut text = String::from_str("");
        assert(text@ =~= Seq::<char>::empty());
        push_placement(&mut text, &self.position);
        assert(text@ =~= placement_text_from(self.position, 0, 0));
        push_side(&mut text, self.player);
        push_rights(&mut text, self.possible_castles);
        push_space(&mut text);
        push_target(&mut text, self.en_passant_square);
        push_space(&mut text);
        push_number(&mut text, self.fifty_move_counter);
        push_space(&mut text);
        push_number(&mut text, self.move_counter);
        text
    }
}

fn push_run_and_piece(text: &mut String, position: &Position, square: Bitboard, run: u32) -> (r:
    bool)
    requires
        run <= 8,
    ensures
        r == piece_on(*position, square.0).is_some(),
        final(text)@ == old(text)@ + (match piece_on(*position, square.0) {
            Some((white, piece)) => run_text(run as nat) + seq![letter_of(white, piece)],
            None => Seq::empty(),
        }),
{
    let ghost before = text@;
    if piece_on_board(position, square) {
        push_run(text, run);
        let ghost middle = text@;
        let found = push_piece(text, position, square);
        assert(text@ =~= before + (run_text(run as nat) + seq![letter_of(
            piece_on(*position, square.0).unwrap().0,
            piece_on(*position, square.0).unwrap().1,
        )]));
        true
    } else {
        assert(text@ =~= before + Seq::<char>::empty());
        false
    }
}

fn piece_on_board(position: &Position, square: Bitboard) -> (r: bool)
    ensures
        r == piece_on(*position, square.0).is_some(),
{
    !(position.white.king & square).is_empty() || !(position.white.queen & square).is_empty() || !(
    position.white.rook & square).is_empty() || !(position.white.bishop & square).is_empty() || !(
    position.white.knight & square).is_empty() || !(position.white.pawn & square).is_empty() || !(
    position.black.king & square).is_empty() || !(position.black.queen & square).is_empty() || !(
    position.black.rook & square).is_empty() || !(position.black.bishop & square).is_empty() || !(
    position.black.knight & square).is_empty() || !(position.black.pawn & square).is_empty()
}

fn push_square_name(text: &mut String, square: Bitboard)
    ensures
        final(text)@ == old(text)@ + seq![
            file_letter(file_from(square.0, 0)),
            rank_digit(rank_from(square.0, 0)),
        ],
{
    let ghost before = text@;
    let mut file: u64 = 0;
    while file < 7 && square.0 & (FILE_H << file) == 0
        invariant
            file <= 7,
            file_from(square.0, 0) == file_from(square.0, file as nat),
        decreases 7 - file,
    {
        file = file + 1;
    }
    let mut rank: u64 = 0;
    while rank < 7 && square.0 & (FIRST_RANK << (8 * rank)) == 0
        invariant
            rank <= 7,
            rank_from(square.0, 0) == rank_from(square.0, rank as nat),
        decreases 7 - rank,
    {
        rank = rank + 1;
    }
    proof {
        reveal_strlit("a");
        reveal_strlit("b");
        reveal_strlit("c");
        reveal_strlit("d");
        reveal_strlit("e");
        reveal_strlit("f");
        reveal_strlit("g");
        reveal_strlit("h");
    }
    text.append(
        if file == 0 {
            "h"
        } else if file == 1 {
            "g"
        } else if file == 2 {
            "f"
        } else if file == 3 {
            "e"
        } else if file == 4 {
            "d"
        } else if file == 5 {
            "c"
        } else if file == 6 {
            "b"
        } else {
            "a"
        },
    );
    let ghost middle = text@;
    push_digit(text, (rank + 1) as u32);
    assert(digit_char((rank + 1) as nat) == rank_digit(rank as nat));
    assert(text@ =~= before + seq![
        file_letter(file_from(square.0, 0)),
        rank_digit(rank_from(square.0, 0)),
    ]);
}


/// True when the text holds plain characters only, and no space.
pub open spec fn spaceless(text: Seq<char>) -> bool {
    forall|j: int|
        0 <= j < text.len() ==> (#[trigger] text[j]) as u8 != 0x20 && '\0' <= text[j] <= '\u{7f}'
}

/// A text as bytes, one byte for each character.
pub open spec fn as_bytes(text: Seq<char>) -> Seq<u8> {
    Seq::new(text.len(), |i: int| text[i] as u8)
}

/// A text that starts with the character `c` is, as bytes, the byte of `c`
/// and then the rest.
proof fn lemma_first_byte(field: Seq<u8>, i: int, c: char, rest: Seq<char>)
    requires
        0 <= i <= field.len(),
        field.subrange(i, field.len() as int) =~= as_bytes(seq![c] + rest),
    ensures
        i < field.len(),
        field[i] == c as u8,
        field.subrange(i + 1, field.len() as int) =~= as_bytes(rest),
{
    let tail = field.subrange(i, field.len() as int);
    let text = seq![c] + rest;
    assert(tail.len() == text.len());
    assert(tail[0] == as_bytes(text)[0]);
    assert forall|j: int| 0 <= j < rest.len() implies field.subrange(
        i + 1,
        field.len() as int,
    )[j] == as_bytes(rest)[j] by {
        assert(tail[j + 1] == as_bytes(text)[j + 1]);
    }
}

/// The field that starts at `start` ends at the first space after it.
proof fn lemma_field_end(s: Seq<u8>, start: int, end: int)
    requires
        0 <= start <= end <= s.len(),
        forall|j: int| start <= j < end ==> s[j] != 0x20,
        end == s.len() || s[end] == 0x20,
    ensures
        field_end(s, start) == end,
    decreases end - start,
{
    if start < end {
        lemma_field_end(s, start + 1, end);
    }
}

/// The digits of a number read back as that number.
proof fn lemma_number_round_trip(n: nat)
    ensures
        is_number(as_bytes(number_text(n))),
        number_value(as_bytes(number_text(n))) == n,
        spaceless(number_text(n)),
    decreases n,
{
    let text = number_text(n);
    let bytes = as_bytes(text);
    if n < 10 {
        assert(bytes.drop_last() =~= Seq::<u8>::empty());
        assert(bytes.last() == digit_char(n) as u8);
        assert(number_value(bytes.drop_last()) == 0);
    } else {
        lemma_number_round_trip(n / 10);
        let front = number_text(n / 10);
        assert(bytes.drop_last() =~= as_bytes(front));
        assert(bytes.last() == digit_char(n % 10) as u8);
        assert forall|i: int| 0 <= i < bytes.len() implies 0x30 <= #[trigger] bytes[i] <= 0x39 by {
            if i < front.len() {
                assert(bytes[i] == as_bytes(front)[i]);
            }
        }
    }
}

/// The castling field reads back as the rights it was written from.
proof fn lemma_castling_round_trip(rights: PossibleCastles)
    ensures
        castling_rights(as_bytes(castling_text(rights))) == Some(rights),
        spaceless(castling_text(rights)),
{
    let text = castling_text(rights);
    let bytes = as_bytes(text);
    assert(forall|j: int| 0 <= j < bytes.len() ==> bytes[j] == text[j] as u8);
    let k: Seq<char> = if rights.white_kingside {
        seq!['K']
    } else {
        Seq::empty()
    };
    let q: Seq<char> = if rights.white_queenside {
        seq!['Q']
    } else {
        Seq::empty()
    };
    let bk: Seq<char> = if rights.black_kingside {
        seq!['k']
    } else {
        Seq::empty()
    };
    let bq: Seq<char> = if rights.black_queenside {
        seq!['q']
    } else {
        Seq::empty()
    };
    if rights.white_kingside || rights.white_queenside || rights.black_kingside
        || rights.black_queenside {
        assert(text =~= k + q + bk + bq);
        assert(text.len() == k.len() + q.len() + bk.len() + bq.len());
        if k.len() > 0 {
            assert(text[0] == 'K');
        }
        if q.len() > 0 {
            assert(text[k.len() as int] == 'Q');
        }
        if bk.len() > 0 {
            assert(text[(k.len() + q.len()) as int] == 'k');
        }
        if bq.len() > 0 {
            assert(text[(k.len() + q.len() + bk.len()) as int] == 'q');
        }
    }
}


/// Ranks 3 to 6, where an en-passant target can be named.
pub const MIDDLE_RANKS: u64 = 0x0000_FFFF_FFFF_0000;

/// The file and the rank of a square tell its bit, and the squares of ranks
/// 3 to 6 lie on those ranks.
#[verifier::rlimit(100)]
pub proof fn lemma_square_index(e: u64, f: u64, r: u64)
    by (bit_vector)
    requires
        single(e),
        f < 8,
        r < 8,
    ensures
        e & (FILE_H << f) != 0 && e & (FIRST_RANK << ((8 * r) as u64)) != 0 ==> e == 1u64 << ((8
            * r + f) as u64),
        e & (FILE_H << 0u64) != 0 || e & (FILE_H << 1u64) != 0 || e & (FILE_H << 2u64) != 0 || e
            & (FILE_H << 3u64) != 0 || e & (FILE_H << 4u64) != 0 || e & (FILE_H << 5u64) != 0 || e
            & (FILE_H << 6u64) != 0 || e & (FILE_H << 7u64) != 0,
        e & (FIRST_RANK << 0u64) != 0 || e & (FIRST_RANK << 8u64) != 0 || e & (FIRST_RANK << 16u64)
            != 0 || e & (FIRST_RANK << 24u64) != 0 || e & (FIRST_RANK << 32u64) != 0 || e & (
        FIRST_RANK << 40u64) != 0 || e & (FIRST_RANK << 48u64) != 0 || e & (FIRST_RANK << 56u64)
            != 0,
        e & MIDDLE_RANKS == e ==> e & (FIRST_RANK << 0u64) == 0 && e & (FIRST_RANK << 8u64) == 0
            && e & (FIRST_RANK << 48u64) == 0 && e & (FIRST_RANK << 56u64) == 0,
        2 <= r <= 5 ==> single(1u64 << ((8 * r + f) as u64)) && (1u64 << ((8 * r + f) as u64))
            & MIDDLE_RANKS == 1u64 << ((8 * r + f) as u64),
{
}

/// The en-passant field reads back as the target it was written from.
proof fn lemma_target_round_trip(e: u64)
    requires
        e == 0 || (single(e) && e & MIDDLE_RANKS == e),
    ensures
        en_passant_target(as_bytes(target_text(e))) == Some(e),
        spaceless(target_text(e)),
{
    let text = target_text(e);
    let bytes = as_bytes(text);
    assert(forall|j: int| 0 <= j < bytes.len() ==> bytes[j] == text[j] as u8);
    if e != 0 {
        reveal_with_fuel(file_from, 9);
        reveal_with_fuel(rank_from, 9);
        let f = file_from(e, 0);
        let r = rank_from(e, 0);
        lemma_square_index(e, f as u64, r as u64);
        assert(bytes[0] == file_letter(f) as u8);
        assert(bytes[1] == rank_digit(r) as u8);
    }
}

/// The squares that come before the `n`-th square, counted from a8 along
/// the ranks.
pub open spec fn scan_mask(n: nat) -> u64 {
    if n == 0 {
        0
    } else {
        ALL_SQUARES << ((64 - n) as u64)
    }
}

/// The pieces of one side on the squares of `mask`.
pub open spec fn masked_pieces(pieces: Pieces, mask: u64) -> Pieces {
    Pieces {
        all: Bitboard(pieces.all.0 & mask),
        king: Bitboard(pieces.king.0 & mask),
        queen: Bitboard(pieces.queen.0 & mask),
        rook: Bitboard(pieces.rook.0 & mask),
        bishop: Bitboard(pieces.bishop.0 & mask),
        knight: Bitboard(pieces.knight.0 & mask),
        pawn: Bitboard(pieces.pawn.0 & mask),
    }
}

/// The position with only the pieces on the squares of `mask`.
pub open spec fn masked(position: Position, mask: u64) -> Position {
    Position {
        all: Bitboard(position.all.0 & mask),
        white: masked_pieces(position.white, mask),
        black: masked_pieces(position.black, mask),
    }
}

/// Every square holds at most one piece, and the three occupancies are the
/// unions of the boards they stand for.
pub open spec fn describable_position(position: Position) -> bool {
    &&& position.white.sound()
    &&& position.black.sound()
    &&& position.white.all.0 & position.black.all.0 == 0
    &&& position.all.0 == position.white.all.0 | position.black.all.0
}

/// What one more square does to the squares that come before it in the
/// order in which the placement is written.
#[verifier::rlimit(100)]
pub proof fn lemma_scan_step(b: u64, n: u64)
    by (bit_vector)
    requires
        n < 64,
    ensures
        ({
            let sq = 1u64 << ((63 - n) as u64);
            let before = if n == 0 {
                0
            } else {
                ALL_SQUARES << ((64 - n) as u64)
            };
            let after = ALL_SQUARES << ((64 - (n + 1)) as u64);
            &&& b & before == b ==> b & sq == 0 && (b | sq) & after == b | sq && b & after == b
            &&& 0u64 & before == 0
            &&& 0u64 | 0u64 == 0
        }),
        ({
            let sq = 1u64 << ((63 - n) as u64);
            let before = if n == 0 {
                0
            } else {
                ALL_SQUARES << ((64 - n) as u64)
            };
            let after = ALL_SQUARES << ((64 - (n + 1)) as u64);
            &&& single(sq)
            &&& b & sq != 0 ==> (b & before) | sq == b & after
            &&& b & sq == 0 ==> b & after == b & before
            &&& b & sq == 0 || b & sq == sq
            &&& b & 0 == 0
            &&& b & (ALL_SQUARES << 0u64) == b
        }),
{
}

#[verifier::rlimit(100)]
proof fn lemma_square_owner(
    wk: u64,
    wq: u64,
    wr: u64,
    wb: u64,
    wn: u64,
    wp: u64,
    wall: u64,
    bk: u64,
    bq: u64,
    br: u64,
    bb: u64,
    bn: u64,
    bp: u64,
    ball: u64,
    all: u64,
    sq: u64,
)
    by (bit_vector)
    requires
        sound(wk, wq, wr, wb, wn, wp, wall),
        sound(bk, bq, br, bb, bn, bp, ball),
        wall & ball == 0,
        all == wall | ball,
        wk & sq == 0 || wk & sq == sq,
        wq & sq == 0 || wq & sq == sq,
        wr & sq == 0 || wr & sq == sq,
        wb & sq == 0 || wb & sq == sq,
        wn & sq == 0 || wn & sq == sq,
        wp & sq == 0 || wp & sq == sq,
        bk & sq == 0 || bk & sq == sq,
        bq & sq == 0 || bq & sq == sq,
        br & sq == 0 || br & sq == sq,
        bb & sq == 0 || bb & sq == sq,
        bn & sq == 0 || bn & sq == sq,
        bp & sq == 0 || bp & sq == sq,
        sq != 0,
    ensures
        (wk | wq | wr | wb | wn | wp) & sq != 0 ==> wall & sq != 0 && all & sq != 0 && ball & sq
            == 0 && (bk | bq | br | bb | bn | bp) & sq == 0,
        (bk | bq | br | bb | bn | bp) & sq != 0 ==> ball & sq != 0 && all & sq != 0 && wall & sq
            == 0 && (wk | wq | wr | wb | wn | wp) & sq == 0,
        (wk | wq | wr | wb | wn | wp) & sq == 0 && (bk | bq | br | bb | bn | bp) & sq == 0
            ==> wall & sq == 0 && ball & sq == 0 && all & sq == 0,
        wk & sq != 0 ==> wq & sq == 0 && wr & sq == 0 && wb & sq == 0 && wn & sq == 0 && wp & sq
            == 0,
        wq & sq != 0 ==> wk & sq == 0 && wr & sq == 0 && wb & sq == 0 && wn & sq == 0 && wp & sq
            == 0,
        wr & sq != 0 ==> wk & sq == 0 && wq & sq == 0 && wb & sq == 0 && wn & sq == 0 && wp & sq
            == 0,
        wb & sq != 0 ==> wk & sq == 0 && wq & sq == 0 && wr & sq == 0 && wn & sq == 0 && wp & sq
            == 0,
        wn & sq != 0 ==> wk & sq == 0 && wq & sq == 0 && wr & sq == 0 && wb & sq == 0 && wp & sq
            == 0,
        wp & sq != 0 ==> wk & sq == 0 && wq & sq == 0 && wr & sq == 0 && wb & sq == 0 && wn & sq
            == 0,
        bk & sq != 0 ==> bq & sq == 0 && br & sq == 0 && bb & sq == 0 && bn & sq == 0 && bp & sq
            == 0,
        bq & sq != 0 ==> bk & sq == 0 && br & sq == 0 && bb & sq == 0 && bn & sq == 0 && bp & sq
            == 0,
        br & sq != 0 ==> bk & sq == 0 && bq & sq == 0 && bb & sq == 0 && bn & sq == 0 && bp & sq
            == 0,
        bb & sq != 0 ==> bk & sq == 0 && bq & sq == 0 && br & sq == 0 && bn & sq == 0 && bp & sq
            == 0,
        bn & sq != 0 ==> bk & sq == 0 && bq & sq == 0 && br & sq == 0 && bb & sq == 0 && bp & sq
            == 0,
        bp & sq != 0 ==> bk & sq == 0 && bq & sq == 0 && br & sq == 0 && bb & sq == 0 && bn & sq
            == 0,
        (wk | wq | wr | wb | wn | wp) & sq != 0 <==> (wk & sq != 0 || wq & sq != 0 || wr & sq != 0
            || wb & sq != 0 || wn & sq != 0 || wp & sq != 0),
        (bk | bq | br | bb | bn | bp) & sq != 0 <==> (bk & sq != 0 || bq & sq != 0 || br & sq != 0
            || bb & sq != 0 || bn & sq != 0 || bp & sq != 0),
{
}

/// Putting the piece of the `n`-th square on the board that holds the
/// pieces of the squares before it gives the board that holds the pieces up
/// to and with that square.
proof fn lemma_scan_piece(position: Position, n: nat)
    requires
        describable_position(position),
        n < 64,
    ensures
        ({
            let sq = square_at(n / 8, n % 8);
            match piece_on(position, sq) {
                Some((white, piece)) => with_piece(
                    masked(position, scan_mask(n)),
                    white,
                    piece,
                    sq,
                ) == masked(position, scan_mask(n + 1)),
                None => masked(position, scan_mask(n)) == masked(position, scan_mask(n + 1)),
            }
        }),
{
    let sq = square_at(n / 8, n % 8);
    let w = position.white;
    let b = position.black;
    assert(sq == 1u64 << ((63 - n) as u64));
    lemma_scan_step(position.all.0, n as u64);
    lemma_scan_step(w.all.0, n as u64);
    lemma_scan_step(w.king.0, n as u64);
    lemma_scan_step(w.queen.0, n as u64);
    lemma_scan_step(w.rook.0, n as u64);
    lemma_scan_step(w.bishop.0, n as u64);
    lemma_scan_step(w.knight.0, n as u64);
    lemma_scan_step(w.pawn.0, n as u64);
    lemma_scan_step(b.all.0, n as u64);
    lemma_scan_step(b.king.0, n as u64);
    lemma_scan_step(b.queen.0, n as u64);
    lemma_scan_step(b.rook.0, n as u64);
    lemma_scan_step(b.bishop.0, n as u64);
    lemma_scan_step(b.knight.0, n as u64);
    lemma_scan_step(b.pawn.0, n as u64);
    lemma_square_owner(
        w.king.0,
        w.queen.0,
        w.rook.0,
        w.bishop.0,
        w.knight.0,
        w.pawn.0,
        w.all.0,
        b.king.0,
        b.queen.0,
        b.rook.0,
        b.bishop.0,
        b.knight.0,
        b.pawn.0,
        b.all.0,
        position.all.0,
        sq,
    );
}


/// The row in which the reader stands when it has read what is written
/// before the `n`-th square.
pub open spec fn reader_row(n: nat) -> nat {
    if n == 0 {
        0
    } else if n % 8 == 0 {
        (n / 8 - 1) as nat
    } else {
        n / 8
    }
}

/// The column in which the reader stands when it has read what is written
/// before the `n`-th square, `run` empty squares of the row being unwritten.
pub open spec fn reader_column(n: nat, run: nat) -> nat {
    if n == 0 {
        0
    } else if n % 8 == 0 {
        (8 - run) as nat
    } else {
        (n % 8 - run) as nat
    }
}

/// True when `run` empty squares can be unwritten before the `n`-th square.
pub open spec fn run_fits(n: nat, run: nat) -> bool {
    if n == 0 {
        run == 0
    } else if n % 8 == 0 {
        run <= 8
    } else {
        run <= n % 8
    }
}

proof fn lemma_read_run(
    field: Seq<u8>,
    i: int,
    row: nat,
    column: nat,
    acc: Position,
    run: nat,
    rest: Seq<char>,
) -> (next: int)
    requires
        0 <= i <= field.len(),
        row <= 7,
        column + run <= 8,
        field.subrange(i, field.len() as int) =~= as_bytes(run_text(run) + rest),
    ensures
        i <= next <= field.len(),
        field.subrange(next, field.len() as int) =~= as_bytes(rest),
        placement_from(field, i, row, column, acc) == placement_from(
            field,
            next,
            row,
            column + run,
            acc,
        ),
{
    if run == 0 {
        assert(run_text(run) + rest =~= rest);
        i
    } else {
        assert(run_text(run) + rest =~= seq![digit_char(run)] + rest);
        lemma_first_byte(field, i, digit_char(run), rest);
        i + 1
    }
}

proof fn lemma_read_letter(
    field: Seq<u8>,
    i: int,
    row: nat,
    column: nat,
    acc: Position,
    white: bool,
    piece: Piece,
    rest: Seq<char>,
)
    requires
        0 <= i <= field.len(),
        row <= 7,
        column < 8,
        field.subrange(i, field.len() as int) =~= as_bytes(seq![letter_of(white, piece)] + rest),
    ensures
        i < field.len(),
        field.subrange(i + 1, field.len() as int) =~= as_bytes(rest),
        placement_from(field, i, row, column, acc) == placement_from(
            field,
            i + 1,
            row,
            column + 1,
            with_piece(acc, white, piece, square_at(row, column)),
        ),
{
    lemma_first_byte(field, i, letter_of(white, piece), rest);
}

/// Reading what is written from the `n`-th square on, after the pieces of
/// the squares before it have been read, gives the whole position.
proof fn lemma_placement_suffix(position: Position, field: Seq<u8>, i: int, n: nat, run: nat)
    requires
        describable_position(position),
        n <= 64,
        run_fits(n, run),
        0 <= i <= field.len(),
        field.subrange(i, field.len() as int) =~= as_bytes(placement_text_from(position, n, run)),
    ensures
        placement_from(
            field,
            i,
            reader_row(n),
            reader_column(n, run),
            masked(position, scan_mask(n)),
        ) == Some(position),
    decreases 64 - n,
{
    let acc = masked(position, scan_mask(n));
    if n >= 64 {
        let end = lemma_read_run(field, i, 7, (8 - run) as nat, acc, run, Seq::empty());
        assert(run_text(run) + Seq::<char>::empty() =~= run_text(run));
        assert(end == field.len());
        lemma_scan_step(position.all.0, 0);
        lemma_scan_step(position.white.all.0, 0);
        lemma_scan_step(position.white.king.0, 0);
        lemma_scan_step(position.white.queen.0, 0);
        lemma_scan_step(position.white.rook.0, 0);
        lemma_scan_step(position.white.bishop.0, 0);
        lemma_scan_step(position.white.knight.0, 0);
        lemma_scan_step(position.white.pawn.0, 0);
        lemma_scan_step(position.black.all.0, 0);
        lemma_scan_step(position.black.king.0, 0);
        lemma_scan_step(position.black.queen.0, 0);
        lemma_scan_step(position.black.rook.0, 0);
        lemma_scan_step(position.black.bishop.0, 0);
        lemma_scan_step(position.black.knight.0, 0);
        lemma_scan_step(position.black.pawn.0, 0);
        assert(acc == position);
    } else {
        let new_row = n % 8 == 0 && n > 0;
        let row = n / 8;
        let column = n % 8;
        let run1: nat = if new_row {
            0
        } else {
            run
        };
        let sq = square_at(row, column);
        let body = match piece_on(position, sq) {
            Some((white, piece)) => run_text(run1) + seq![letter_of(white, piece)]
                + placement_text_from(position, n + 1, 0),
            None => placement_text_from(position, n + 1, run1 + 1),
        };
        let text = placement_text_from(position, n, run);
        let start = if new_row {
            assert(text =~= run_text(run) + (seq!['/'] + body));
            let slash = lemma_read_run(
                field,
                i,
                reader_row(n),
                reader_column(n, run),
                acc,
                run,
                seq!['/'] + body,
            );
            lemma_first_byte(field, slash, '/', body);
            slash + 1
        } else {
            assert(text =~= body);
            i
        };
        assert(placement_from(field, i, reader_row(n), reader_column(n, run), acc)
            == placement_from(field, start, row, (column - run1) as nat, acc));
        lemma_scan_piece(position, n);
        match piece_on(position, sq) {
            Some((white, piece)) => {
                let rest = placement_text_from(position, n + 1, 0);
                assert(body =~= run_text(run1) + (seq![letter_of(white, piece)] + rest));
                let letter = lemma_read_run(
                    field,
                    start,
                    row,
                    (column - run1) as nat,
                    acc,
                    run1,
                    seq![letter_of(white, piece)] + rest,
                );
                lemma_read_letter(field, letter, row, column, acc, white, piece, rest);
                lemma_placement_suffix(position, field, letter + 1, n + 1, 0);
            },
            None => {
                lemma_placement_suffix(position, field, start, n + 1, run1 + 1);
            },
        }
    }
}

/// The placement field reads back as the position it was written from.
proof fn lemma_placement_round_trip(position: Position)
    requires
        describable_position(position),
    ensures
        placement(as_bytes(placement_text_from(position, 0, 0))) == Some(position),
{
    let field = as_bytes(placement_text_from(position, 0, 0));
    assert(field.subrange(0, field.len() as int) =~= field);
    lemma_placement_suffix(position, field, 0, 0, 0);
    lemma_scan_step(position.all.0, 0);
    lemma_scan_step(position.white.all.0, 0);
    lemma_scan_step(position.white.king.0, 0);
    lemma_scan_step(position.white.queen.0, 0);
    lemma_scan_step(position.white.rook.0, 0);
    lemma_scan_step(position.white.bishop.0, 0);
    lemma_scan_step(position.white.knight.0, 0);
    lemma_scan_step(position.white.pawn.0, 0);
    lemma_scan_step(position.black.all.0, 0);
    lemma_scan_step(position.black.king.0, 0);
    lemma_scan_step(position.black.queen.0, 0);
    lemma_scan_step(position.black.rook.0, 0);
    lemma_scan_step(position.black.bishop.0, 0);
    lemma_scan_step(position.black.knight.0, 0);
    lemma_scan_step(position.black.pawn.0, 0);
    assert(masked(position, scan_mask(0)) == crate::fen::empty_position());
}

proof fn lemma_spaceless_concat(a: Seq<char>, b: Seq<char>)
    requires
        spaceless(a),
        spaceless(b),
    ensures
        spaceless(a + b),
{
    assert forall|j: int| 0 <= j < (a + b).len() implies (#[trigger] (a + b)[j]) as u8 != 0x20
        && '\0' <= (a + b)[j] <= '\u{7f}' by {
        if j < a.len() {
            assert((a + b)[j] == a[j]);
        } else {
            assert((a + b)[j] == b[j - a.len()]);
        }
    }
}

/// No space stands in the placement field.
proof fn lemma_placement_has_no_space(position: Position, n: nat, run: nat)
    ensures
        spaceless(placement_text_from(position, n, run)),
    decreases 64 - n,
{
    assert(spaceless(run_text(run)));
    assert(spaceless(run_text(0)));
    assert(spaceless(seq!['/']));
    if n < 64 {
        let new_row = n % 8 == 0 && n > 0;
        let run1: nat = if new_row {
            0
        } else {
            run
        };
        let head = if new_row {
            run_text(run) + seq!['/']
        } else {
            Seq::<char>::empty()
        };
        lemma_spaceless_concat(run_text(run), seq!['/']);
        assert(spaceless(head));
        assert(spaceless(run_text(run1)));
        match piece_on(position, square_at(n / 8, n % 8)) {
            Some((white, piece)) => {
                let rest = placement_text_from(position, n + 1, 0);
                lemma_placement_has_no_space(position, n + 1, 0);
                assert(spaceless(seq![letter_of(white, piece)]));
                lemma_spaceless_concat(head, run_text(run1));
                lemma_spaceless_concat(head + run_text(run1), seq![letter_of(white, piece)]);
                lemma_spaceless_concat(
                    head + run_text(run1) + seq![letter_of(white, piece)],
                    rest,
                );
            },
            None => {
                lemma_placement_has_no_space(position, n + 1, run1 + 1);
                lemma_spaceless_concat(head, placement_text_from(position, n + 1, run1 + 1));
            },
        }
    }
}


impl GameView {
    /// True for the games that a description can stand for: every square
    /// holds at most one piece and the occupancies are the unions of the
    /// boards; the en-passant target is empty or one square on ranks 3 to 6;
    /// the full-move counter is at least 1; no earlier position is kept.
    pub open spec fn describable(self) -> bool {
        &&& describable_position(self.position)
        &&& self.en_passant_square.0 == 0 || (single(self.en_passant_square.0)
            && self.en_passant_square.0 & MIDDLE_RANKS == self.en_passant_square.0)
        &&& self.move_counter >= 1
        &&& self.previous_positions == Seq::<crate::game::PositionWithMeta>::empty()
    }
}

/// In a text made of a part before, a field without a space and a part
/// after that is empty or starts with a space, the field ends where the
/// part after begins, and what stands between is the field.
proof fn lemma_field_found(before: Seq<char>, field: Seq<char>, after: Seq<char>)
    requires
        spaceless(field),
        after.len() == 0 || after[0] == ' ',
    ensures
        field_end(as_bytes(before + field + after), before.len() as int) == before.len()
            + field.len(),
        as_bytes(before + field + after).subrange(
            before.len() as int,
            (before.len() + field.len()) as int,
        ) =~= as_bytes(field),
{
    let s = as_bytes(before + field + after);
    let start = before.len() as int;
    let end = start + field.len();
    assert forall|j: int| start <= j < end implies s[j] != 0x20 by {
        assert(s[j] == field[j - start] as u8);
    }
    if after.len() > 0 {
        assert(s[end] == after[0] as u8);
    }
    lemma_field_end(s, start, end);
}

/// The text of six fields with single spaces between them.
pub open spec fn six_fields(
    p: Seq<char>,
    a: Seq<char>,
    c: Seq<char>,
    e: Seq<char>,
    h: Seq<char>,
    f: Seq<char>,
) -> Seq<char> {
    p + seq![' '] + a + seq![' '] + c + seq![' '] + e + seq![' '] + h + seq![' '] + f
}

proof fn lemma_nth_field(
    whole: Seq<char>,
    before: Seq<char>,
    field: Seq<char>,
    after: Seq<char>,
)
    requires
        whole =~= before + field + after,
        spaceless(field),
        after.len() == 0 || after[0] == ' ',
    ensures
        field_end(as_bytes(whole), before.len() as int) == before.len() + field.len(),
        as_bytes(whole).subrange(before.len() as int, (before.len() + field.len()) as int)
            =~= as_bytes(field),
{
    lemma_field_found(before, field, after);
}

/// Six fields without spaces, written with single spaces between them, are
/// found again where they were written.
proof fn lemma_six_fields(
    p: Seq<char>,
    a: Seq<char>,
    c: Seq<char>,
    e: Seq<char>,
    h: Seq<char>,
    f: Seq<char>,
)
    requires
        spaceless(p),
        spaceless(a),
        spaceless(c),
        spaceless(e),
        spaceless(h),
        spaceless(f),
    ensures
        ({
            let s = as_bytes(six_fields(p, a, c, e, h, f));
            let e0 = p.len() as int;
            let e1 = e0 + 1 + a.len();
            let e2 = e1 + 1 + c.len();
            let e3 = e2 + 1 + e.len();
            let e4 = e3 + 1 + h.len();
            let e5 = e4 + 1 + f.len();
            &&& field_end(s, 0) == e0
            &&& field_end(s, e0 + 1) == e1
            &&& field_end(s, e1 + 1) == e2
            &&& field_end(s, e2 + 1) == e3
            &&& field_end(s, e3 + 1) == e4
            &&& field_end(s, e4 + 1) == e5
            &&& e5 == s.len()
            &&& s.subrange(0, e0) =~= as_bytes(p)
            &&& s.subrange(e0 + 1, e1) =~= as_bytes(a)
            &&& s.subrange(e1 + 1, e2) =~= as_bytes(c)
            &&& s.subrange(e2 + 1, e3) =~= as_bytes(e)
            &&& s.subrange(e3 + 1, e4) =~= as_bytes(h)
            &&& s.subrange(e4 + 1, e5) =~= as_bytes(f)
        }),
{
    let sp: Seq<char> = seq![' '];
    let whole = six_fields(p, a, c, e, h, f);
    let empty = Seq::<char>::empty();
    lemma_nth_field(whole, empty, p, sp + a + sp + c + sp + e + sp + h + sp + f);
    lemma_nth_field(whole, p + sp, a, sp + c + sp + e + sp + h + sp + f);
    lemma_nth_field(whole, p + sp + a + sp, c, sp + e + sp + h + sp + f);
    lemma_nth_field(whole, p + sp + a + sp + c + sp, e, sp + h + sp + f);
    lemma_nth_field(whole, p + sp + a + sp + c + sp + e + sp, h, sp + f);
    lemma_nth_field(whole, p + sp + a + sp + c + sp + e + sp + h + sp, f, empty);
}

/// Reading the description of a game gives the game back; so writing, then
/// reading, then writing again gives the same description.
pub proof fn lemma_description_round_trip(g: GameView)
    requires
        g.describable(),
    ensures
        parse_fen(as_bytes(fen_text(g))) == Ok::<GameView, FenError>(g),
{
    let p = placement_text_from(g.position, 0, 0);
    let side: Seq<char> = seq![
        if g.player {
            'w'
        } else {
            'b'
        },
    ];
    let c = castling_text(g.possible_castles);
    let e = target_text(g.en_passant_square.0);
    let h = number_text(g.fifty_move_counter as nat);
    let f = number_text(g.move_counter as nat);
    lemma_placement_has_no_space(g.position, 0, 0);
    lemma_placement_round_trip(g.position);
    lemma_castling_round_trip(g.possible_castles);
    lemma_target_round_trip(g.en_passant_square.0);
    lemma_number_round_trip(g.fifty_move_counter as nat);
    lemma_number_round_trip(g.move_counter as nat);
    assert(spaceless(side));
    assert(spaceless(c));
    assert(spaceless(e));
    assert(spaceless(h));
    assert(spaceless(f));
    lemma_six_fields(p, side, c, e, h, f);
    assert(fen_text(g) == six_fields(p, side, c, e, h, f));
    assert(as_bytes(side) =~= seq![
        if g.player {
            0x77u8
        } else {
            0x62u8
        },
    ]);
}


/// A text that is the description of a game reads back as that game.
pub proof fn lemma_written_game_reads_back(text: &str, g: GameView)
    requires
        g.describable(),
        text@ == fen_text(g),
    ensures
        parse_fen(text.spec_bytes()) == Ok::<GameView, FenError>(g),
{
    let p = placement_text_from(g.position, 0, 0);
    let side: Seq<char> = seq![
        if g.player {
            'w'
        } else {
            'b'
        },
    ];
    let c = castling_text(g.possible_castles);
    let e = target_text(g.en_passant_square.0);
    let h = number_text(g.fifty_move_counter as nat);
    let f = number_text(g.move_counter as nat);
    let sp: Seq<char> = seq![' '];
    lemma_placement_has_no_space(g.position, 0, 0);
    lemma_castling_round_trip(g.possible_castles);
    lemma_target_round_trip(g.en_passant_square.0);
    lemma_number_round_trip(g.fifty_move_counter as nat);
    lemma_number_round_trip(g.move_counter as nat);
    assert(spaceless(side));
    lemma_ascii_concat(p, sp);
    lemma_ascii_concat(p + sp, side);
    lemma_ascii_concat(p + sp + side, sp);
    lemma_ascii_concat(p + sp + side + sp, c);
    lemma_ascii_concat(p + sp + side + sp + c, sp);
    lemma_ascii_concat(p + sp + side + sp + c + sp, e);
    lemma_ascii_concat(p + sp + side + sp + c + sp + e, sp);
    lemma_ascii_concat(p + sp + side + sp + c + sp + e + sp, h);
    lemma_ascii_concat(p + sp + side + sp + c + sp + e + sp + h, sp);
    lemma_ascii_concat(p + sp + side + sp + c + sp + e + sp + h + sp, f);
    vstd::utf8::is_ascii_chars_encode_utf8(text@);
    assert(text.spec_bytes() =~= as_bytes(text@));
    lemma_description_round_trip(g);
}

proof fn lemma_ascii_concat(a: Seq<char>, b: Seq<char>)
    requires
        vstd::utf8::is_ascii_chars(a) || spaceless(a),
        vstd::utf8::is_ascii_chars(b) || spaceless(b) || b == seq![' '],
    ensures
        vstd::utf8::is_ascii_chars(a + b),
{
    assert forall|i: int| 0 <= i < (a + b).len() implies '\0' <= #[trigger] (a + b)[i]
        <= '\u{7f}' by {
        if i < a.len() {
            assert((a + b)[i] == a[i]);
        } else {
            assert((a + b)[i] == b[i - a.len()]);
        }
    }
}

} // verus!
