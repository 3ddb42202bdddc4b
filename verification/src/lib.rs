//! A bitboard chess engine core: positions, strictly legal move generation
//! and the count of move sequences, with machine-checked proofs.
//!
//! The board, the moves and the game:
//! [`bitboard`], [`direction`], [`piece`], [`chess_move`], [`position`],
//! [`movegen`], [`legal_moves`], [`game`], [`constants`].
//!
//! Text: [`fen`] reads a game from its six-field description, [`fen_text`]
//! writes it and proves that reading gives it back, [`fen_stable`] that
//! what was read can be written and read again as the same game;
//! [`notation`] names squares and draws boards.
//!
//! What is proved of every well-formed game:
//! [`invariants`] and [`legality`] show that a listed move leads to a
//! well-formed game in which the side that moved is not in check;
//! [`rules`] and [`exactness`] that the listed moves are exactly the
//! strictly legal ones, and [`distinct`] that none is listed twice;
//! [`counting`] that listing the moves at once and taking them one at a
//! time give the same count; [`mirror`], [`symmetry`] and [`reflection`]
//! that a game and its mirror count the same. [`attacks`] holds the facts
//! about single moves on which these rest, and [`validity`] tells at run
//! time whether a game is well formed.

pub mod attacks;
pub mod bitboard;
pub mod chess_move;
pub mod constants;
pub mod counting;
pub mod direction;
pub mod distinct;
pub mod exactness;
pub mod fen;
pub mod fen_stable;
pub mod fen_text;
pub mod game;
pub mod invariants;
pub mod legal_moves;
pub mod legality;
pub mod mirror;
pub mod movegen;
pub mod notation;
pub mod piece;
pub mod position;
pub mod reflection;
pub mod rules;
pub mod symmetry;
pub mod validity;
