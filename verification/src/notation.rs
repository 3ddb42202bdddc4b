//! Boards as text: the name of a square, and a drawing of a board.

use vstd::prelude::*;
use vstd::string::StringExecFns;
use crate::bitboard::{single, Bitboard};

verus! {

/// The squares of file h.
pub const FILE_H: u64 = 0x0101_0101_0101_0101;

/// The squares of rank 1.
pub const FIRST_RANK: u64 = 0x0000_0000_0000_00FF;

/// The lowest file, counted from file h as 0, at or after `f` on which `b`
/// has a square; 7 if there is none below file a.
pub open spec fn file_from(b: u64, f: nat) -> nat
    decreases 7 - f,
{
    if f >= 7 || b & (FILE_H << (f as u64)) != 0 {
        f
    } else {
        file_from(b, f + 1)
    }
}

/// The lowest rank, counted from rank 1 as 0, at or after `r` on which `b`
/// has a square; 7 if there is none below rank 8.
pub open spec fn rank_from(b: u64, r: nat) -> nat
    decreases 7 - r,
{
    if r >= 7 || b & (FIRST_RANK << ((8 * r) as u64)) != 0 {
        r
    } else {
        rank_from(b, r + 1)
    }
}

/// The letter of the file counted from file h as 0.
pub open spec fn file_letter(f: nat) -> char {
    if f == 0 {
        'h'
    } else if f == 1 {
        'g'
    } else if f == 2 {
        'f'
    } else if f == 3 {
        'e'
    } else if f == 4 {
        'd'
    } else if f == 5 {
        'c'
    } else if f == 6 {
        'b'
    } else {
        'a'
    }
}

/// The digit of the rank counted from rank 1 as 0.
pub open spec fn rank_digit(r: nat) -> char {
    if r == 0 {
        '1'
    } else if r == 1 {
        '2'
    } else if r == 2 {
        '3'
    } else if r == 3 {
        '4'
    } else if r == 4 {
        '5'
    } else if r == 5 {
        '6'
    } else if r == 6 {
        '7'
    } else {
        '8'
    }
}

/// The name of the one square of `b`: its file letter, then its rank digit.
pub open spec fn square_name(b: u64) -> Seq<char> {
    seq![file_letter(file_from(b, 0)), rank_digit(rank_from(b, 0))]
}

/// How one square is drawn: `X` if it is in the set, a blank if not.
pub open spec fn cell_text(b: u64, i: nat) -> Seq<char> {
    if (b >> (i as u64)) & 1 == 1 {
        "X"@
    } else {
        " "@
    }
}

/// The first `n` squares of the row of the rank counted from rank 1 as 0,
/// from file a on, each behind a bar.
pub open spec fn row_cells(b: u64, rank: nat, n: nat) -> Seq<char>
    decreases n,
{
    if n == 0 {
        Seq::empty()
    } else {
        row_cells(b, rank, (n - 1) as nat) + "┃ "@ + cell_text(b, (8 * rank + 8 - n) as nat) + " "@
    }
}

/// The digit that labels the row of a rank, as text.
pub open spec fn rank_label(rank: nat) -> Seq<char> {
    if rank == 0 {
        "1"@
    } else if rank == 1 {
        "2"@
    } else if rank == 2 {
        "3"@
    } else if rank == 3 {
        "4"@
    } else if rank == 4 {
        "5"@
    } else if rank == 5 {
        "6"@
    } else if rank == 6 {
        "7"@
    } else {
        "8"@
    }
}

/// The row of a rank: its eight squares, a bar, and its digit.
pub open spec fn row_text(b: u64, rank: nat) -> Seq<char> {
    row_cells(b, rank, 8) + "┃ "@ + rank_label(rank) + "\n"@
}

/// The first `n` rows from rank 8 down, each with the line below it.
pub open spec fn rows_text(b: u64, n: nat) -> Seq<char>
    decreases n,
{
    if n == 0 {
        Seq::empty()
    } else {
        rows_text(b, (n - 1) as nat) + row_text(b, (8 - n) as nat) + (if n == 8 {
            "┗━━━┻━━━┻━━━┻━━━┻━━━┻━━━┻━━━┻━━━┛\n"@
        } else {
            "┣━━━╋━━━╋━━━╋━━━╋━━━╋━━━╋━━━╋━━━┫\n"@
        })
    }
}

/// The drawing of a board: a frame of eight rows from rank 8 down to rank 1
/// with file a on the left, the squares of the set marked `X`, the ranks
/// named on the right and the files below.
pub open spec fn board_text(b: u64) -> Seq<char> {
    "┏━━━┳━━━┳━━━┳━━━┳━━━┳━━━┳━━━┳━━━┓\n"@ + rows_text(b, 8)
        + "  A   B   C   D   E   F   G   H"@
}

impl Bitboard {
    /// The name of the one square of this board, from `a1` to `h8`.
    pub fn to_human(self) -> (r: String)
        requires
            single(self.0),
        ensures
            r@ == square_name(self.0),
    {
        let mut file: u64 = 0;
        while file < 7 && self.0 & (FILE_H << file) == 0
            invariant
                file <= 7,
                file_from(self.0, 0) == file_from(self.0, file as nat),
            decreases 7 - file,
        {
            file = file + 1;
        }
        let mut rank: u64 = 0;
        while rank < 7 && self.0 & (FIRST_RANK << (8 * rank)) == 0
            invariant
                rank <= 7,
                rank_from(self.0, 0) == rank_from(self.0, rank as nat),
            decreases 7 - rank,
        {
            rank = rank + 1;
        }
        proof {
            reveal_strlit("a");
            reveal_strlit("b");
            reveal_strlit("c");
            reveal_strlit("d");
            reveal_strlit("e");
            reveal_strlit("f");
            reveal_strlit("g");
            reveal_strlit("h");
            reveal_strlit("1");
            reveal_strlit("2");
            reveal_strlit("3");
            reveal_strlit("4");
            reveal_strlit("5");
            reveal_strlit("6");
            reveal_strlit("7");
            reveal_strlit("8");
        }
        let letter = if file == 0 {
            "h"
        } else if file == 1 {
            "g"
        } else if file == 2 {
            "f"
        } else if file == 3 {
            "e"
        } else if file == 4 {
            "d"
        } else if file == 5 {
            "c"
        } else if file == 6 {
            "b"
        } else {
            "a"
        };
        let digit = if rank == 0 {
            "1"
        } else if rank == 1 {
            "2"
        } else if rank == 2 {
            "3"
        } else if rank == 3 {
            "4"
        } else if rank == 4 {
            "5"
        } else if rank == 5 {
            "6"
        } else if rank == 6 {
            "7"
        } else {
            "8"
        };
        let mut name = String::from_str(letter);
        name.append(digit);
        assert(name@ =~= square_name(self.0));
        name
    }

    /// A drawing of this board.
    pub fn to_string(self) -> (r: String)
        ensures
            r@ == board_text(self.0),
    {
        let mut text = String::from_str("┏━━━┳━━━┳━━━┳━━━┳━━━┳━━━┳━━━┳━━━┓\n");
        let ghost top = text@;
        let mut done: u64 = 0;
        while done < 8
            invariant
                done <= 8,
                top == "┏━━━┳━━━┳━━━┳━━━┳━━━┳━━━┳━━━┳━━━┓\n"@,
                text@ == top + rows_text(self.0, done as nat),
            decreases 8 - done,
        {
            let rank: u64 = 7 - done;
            let ghost before = text@;
            let mut column: u64 = 0;
            while column < 8
                invariant
                    column <= 8,
                    rank <= 7,
                    text@ == before + row_cells(self.0, rank as nat, column as nat),
                decreases 8 - column,
            {
                let ghost row = text@;
                let index: u64 = 8 * rank + 7 - column;
                text.append("┃ ");
                if (self.0 >> index) & 1 == 1 {
                    text.append("X");
                } else {
                    text.append(" ");
                }
                text.append(" ");
                column = column + 1;
                assert(text@ =~= before + row_cells(self.0, rank as nat, column as nat));
            }
            text.append("┃ ");
            text.append(
                if rank == 0 {
                    "1"
                } else if rank == 1 {
                    "2"
                } else if rank == 2 {
                    "3"
                } else if rank == 3 {
                    "4"
                } else if rank == 4 {
                    "5"
                } else if rank == 5 {
                    "6"
                } else if rank == 6 {
                    "7"
                } else {
                    "8"
                },
            );
            text.append("\n");
            done = done + 1;
            if done == 8 {
                text.append("┗━━━┻━━━┻━━━┻━━━┻━━━┻━━━┻━━━┻━━━┛\n");
            } else {
                text.append("┣━━━╋━━━╋━━━╋━━━╋━━━╋━━━╋━━━╋━━━┫\n");
            }
            assert(text@ =~= top + rows_text(self.0, done as nat));
        }
        text.append("  A   B   C   D   E   F   G   H");
        text
    }
}

} // verus!
