//! The board turned upside down with the colours changed: the mirror of a
//! game counts as many move sequences as the game itself.

use vstd::prelude::*;
use crate::attacks::attacked_among;
use crate::bitboard::{
    king_span, knight_span, lowest_square, shift, shift_bottom, shift_left, shift_right,
    shift_top,
    single, without_lowest, ALL_SQUARES,
};
use crate::counting::at_most_one;
use crate::direction::Direction;
use crate::invariants::EDGE_RANKS;
use crate::movegen::{moves_on_ray, slide, RANK_1, RANK_3, RANK_6, RANK_8};
use crate::position::{attacker_on_ray, pinned_squares, push_squares};

verus! {

/// The set turned upside down: rank 1 becomes rank 8, rank 2 becomes rank 7
/// and so on; the files stay.
pub open spec fn flip(b: u64) -> u64 {
    (b << 56) | ((b << 40) & 0x00FF_0000_0000_0000) | ((b << 24) & 0x0000_FF00_0000_0000) | ((b
        << 8) & 0x0000_00FF_0000_0000) | ((b >> 8) & 0x0000_0000_FF00_0000) | ((b >> 24)
        & 0x0000_0000_00FF_0000) | ((b >> 40) & 0x0000_0000_0000_FF00) | (b >> 56)
}

/// Turning a set upside down goes along with joining, meeting and stepping.
#[verifier::rlimit(100)]
pub proof fn lemma_flip_algebra(a: u64, b: u64, c: u64)
    by (bit_vector)
    ensures
        flip(a & b) == flip(a) & flip(b),
        flip(a | b) == flip(a) | flip(b),
        flip(a ^ b) == flip(a) ^ flip(b),
        flip(a & !b) == flip(a) & !flip(b),
        flip((a & !b) | c) == (flip(a) & !flip(b)) | flip(c),
        flip(flip(a)) == a,
        a == 0 <==> flip(a) == 0,
        single(a) <==> single(flip(a)),
        at_most_one(a) <==> at_most_one(flip(a)),
        shift_top(flip(a)) == flip(shift_bottom(a)),
        shift_bottom(flip(a)) == flip(shift_top(a)),
        shift_left(flip(a)) == flip(shift_left(a)),
        shift_right(flip(a)) == flip(shift_right(a)),
        king_span(flip(a)) == flip(king_span(a)),
        knight_span(flip(a)) == flip(knight_span(a)),
{
}

/// The fixed squares and ranks of one side are, upside down, those of the
/// other side.
#[verifier::rlimit(100)]
pub proof fn lemma_flip_constants()
    by (bit_vector)
    ensures
        flip(0) == 0,
        flip(ALL_SQUARES) == ALL_SQUARES,
        flip(RANK_8) == RANK_1,
        flip(RANK_1) == RANK_8,
        flip(RANK_3) == RANK_6,
        flip(RANK_6) == RANK_3,
        flip(EDGE_RANKS) == EDGE_RANKS,
        flip(0x01) == 0x0100_0000_0000_0000 && flip(0x0100_0000_0000_0000) == 0x01,
        flip(0x80) == 0x8000_0000_0000_0000 && flip(0x8000_0000_0000_0000) == 0x80,
        flip(0x08) == 0x0800_0000_0000_0000 && flip(0x0800_0000_0000_0000) == 0x08,
        flip(0x02) == 0x0200_0000_0000_0000 && flip(0x0200_0000_0000_0000) == 0x02,
        flip(0x20) == 0x2000_0000_0000_0000 && flip(0x2000_0000_0000_0000) == 0x20,
        flip(0x05) == 0x0500_0000_0000_0000 && flip(0x0500_0000_0000_0000) == 0x05,
        flip(0x90) == 0x9000_0000_0000_0000 && flip(0x9000_0000_0000_0000) == 0x90,
        flip(0x0F) == 0x0F00_0000_0000_0000 && flip(0x0F00_0000_0000_0000) == 0x0F,
        flip(0xB8) == 0xB800_0000_0000_0000 && flip(0xB800_0000_0000_0000) == 0xB8,
        flip(0x06) == 0x0600_0000_0000_0000 && flip(0x0600_0000_0000_0000) == 0x06,
        flip(0x70) == 0x7000_0000_0000_0000 && flip(0x7000_0000_0000_0000) == 0x70,
        flip(0x0E) == 0x0E00_0000_0000_0000 && flip(0x0E00_0000_0000_0000) == 0x0E,
        flip(0x38) == 0x3800_0000_0000_0000 && flip(0x3800_0000_0000_0000) == 0x38,
        single(0x01u64) && single(0x80u64) && single(0x0100_0000_0000_0000u64) && single(
            0x8000_0000_0000_0000u64,
        ),
        single(0x08u64) && single(0x0800_0000_0000_0000u64),
        single(0x02u64) && single(0x0200_0000_0000_0000u64) && single(0x20u64) && single(
            0x2000_0000_0000_0000u64,
        ),
{
}

/// The piece that looks at a square along a ray is, upside down, the piece
/// that looks at the square upside down along the ray upside down.
#[verifier::rlimit(100)]
pub proof fn lemma_rays_mirror(all: u64, x: u64, sq: u64, fall: u64, fx: u64, fsq: u64)
    by (bit_vector)
    requires
        fall == flip(all),
        fx == flip(x),
        fsq == flip(sq),
    ensures
        attacker_on_ray(fall, fx, fsq, Direction::Top) == flip(
            attacker_on_ray(all, x, sq, Direction::Bottom),
        ),
        attacker_on_ray(fall, fx, fsq, Direction::Bottom) == flip(
            attacker_on_ray(all, x, sq, Direction::Top),
        ),
        attacker_on_ray(fall, fx, fsq, Direction::Left) == flip(
            attacker_on_ray(all, x, sq, Direction::Left),
        ),
        attacker_on_ray(fall, fx, fsq, Direction::Right) == flip(
            attacker_on_ray(all, x, sq, Direction::Right),
        ),
        attacker_on_ray(fall, fx, fsq, Direction::TopLeft) == flip(
            attacker_on_ray(all, x, sq, Direction::BottomLeft),
        ),
        attacker_on_ray(fall, fx, fsq, Direction::TopRight) == flip(
            attacker_on_ray(all, x, sq, Direction::BottomRight),
        ),
        attacker_on_ray(fall, fx, fsq, Direction::BottomLeft) == flip(
            attacker_on_ray(all, x, sq, Direction::TopLeft),
        ),
        attacker_on_ray(fall, fx, fsq, Direction::BottomRight) == flip(
            attacker_on_ray(all, x, sq, Direction::TopRight),
        ),
{
}

impl Direction {
    /// The direction as it looks when the board is turned upside down.
    pub open spec fn upside_down(self) -> Direction {
        match self {
            Direction::Top => Direction::Bottom,
            Direction::Bottom => Direction::Top,
            Direction::Left => Direction::Left,
            Direction::Right => Direction::Right,
            Direction::TopLeft => Direction::BottomLeft,
            Direction::TopRight => Direction::BottomRight,
            Direction::BottomLeft => Direction::TopLeft,
            Direction::BottomRight => Direction::TopRight,
        }
    }
}

/// A step of a set upside down is the step upside down of the set.
pub proof fn lemma_shift_mirror(a: u64, d: Direction)
    ensures
        shift(flip(a), d.upside_down()) == flip(shift(a, d)),
{
    lemma_flip_algebra(a, 0, 0);
    lemma_flip_algebra(shift_top(a), 0, 0);
    lemma_flip_algebra(shift_bottom(a), 0, 0);
}

proof fn lemma_slide_mirror(all: u64, enemy: u64, acc: u64, running: u64, d: Direction, n: nat)
    ensures
        slide(flip(all), flip(enemy), flip(acc), flip(running), d.upside_down(), n) == flip(
            slide(all, enemy, acc, running, d, n),
        ),
    decreases n,
{
    lemma_flip_algebra(running, 0, 0);
    lemma_flip_algebra(all, running, 0);
    lemma_flip_algebra(all & running, 0, 0);
    lemma_flip_algebra(enemy, running, 0);
    lemma_flip_algebra(enemy & running, 0, 0);
    lemma_flip_algebra(acc, running, 0);
    lemma_shift_mirror(running, d);
    if n > 0 && running != 0 && all & running == 0 {
        lemma_slide_mirror(all, enemy, acc | running, shift(running, d), d, (n - 1) as nat);
    }
}

/// Where a slider can go along a ray is, upside down, where the slider
/// upside down can go along the ray upside down.
pub proof fn lemma_moves_on_ray_mirror(all: u64, enemy: u64, sq: u64, d: Direction)
    ensures
        moves_on_ray(flip(all), flip(enemy), flip(sq), d.upside_down()) == flip(
            moves_on_ray(all, enemy, sq, d),
        ),
{
    lemma_flip_constants();
    lemma_shift_mirror(sq, d);
    lemma_slide_mirror(all, enemy, 0, shift(sq, d), d, 7);
}

/// The squares between a square and a piece along a ray are, upside down,
/// the squares between them upside down along the ray upside down.
#[verifier::rlimit(100)]
pub proof fn lemma_pushes_mirror(sq: u64, x: u64, fsq: u64, fx: u64)
    by (bit_vector)
    requires
        fx == flip(x),
        fsq == flip(sq),
    ensures
        push_squares(fsq, fx, Direction::Top) == flip(push_squares(sq, x, Direction::Bottom)),
        push_squares(fsq, fx, Direction::Bottom) == flip(push_squares(sq, x, Direction::Top)),
        push_squares(fsq, fx, Direction::Left) == flip(push_squares(sq, x, Direction::Left)),
        push_squares(fsq, fx, Direction::Right) == flip(push_squares(sq, x, Direction::Right)),
        push_squares(fsq, fx, Direction::TopLeft) == flip(
            push_squares(sq, x, Direction::BottomLeft),
        ),
        push_squares(fsq, fx, Direction::TopRight) == flip(
            push_squares(sq, x, Direction::BottomRight),
        ),
        push_squares(fsq, fx, Direction::BottomLeft) == flip(
            push_squares(sq, x, Direction::TopLeft),
        ),
        push_squares(fsq, fx, Direction::BottomRight) == flip(
            push_squares(sq, x, Direction::TopRight),
        ),
{
}

/// Joining sets that were turned upside down, with top and bottom changed,
/// gives the join turned upside down.
#[verifier::rlimit(100)]
pub proof fn lemma_join_mirror(
    k: u64,
    t: u64,
    b: u64,
    l: u64,
    r: u64,
    tl: u64,
    tr: u64,
    bl: u64,
    br: u64,
    n: u64,
    pl: u64,
    pr: u64,
)
    by (bit_vector)
    ensures
        flip(b) | flip(t) | flip(l) | flip(r) == flip(t | b | l | r),
        flip(bl) | flip(br) | flip(tl) | flip(tr) == flip(tl | tr | bl | br),
        flip(b) | flip(t) | flip(l) | flip(r) | flip(bl) | flip(br) | flip(tl) | flip(tr) == flip(
            t | b | l | r | tl | tr | bl | br,
        ),
        flip(k) | flip(b) | flip(t) | flip(l) | flip(r) | flip(bl) | flip(br) | flip(tl) | flip(tr)
            | flip(n) | flip(pl) | flip(pr) == flip(
            k | t | b | l | r | tl | tr | bl | br | n | pl | pr,
        ),
{
}

/// The squares a pin allows are, upside down, the squares that the pin
/// upside down allows.
#[verifier::rlimit(100)]
pub proof fn lemma_pin_mirror(
    all: u64,
    sq: u64,
    king: u64,
    x1: u64,
    x2: u64,
    fall: u64,
    fsq: u64,
    fking: u64,
    fx1: u64,
    fx2: u64,
    line: u64,
)
    by (bit_vector)
    requires
        single(sq),
        single(king),
        sq & king == 0,
        king & all == king,
        sq & all == sq,
        x1 & !all == 0,
        x2 & !all == 0,
        sq & x1 == 0,
        sq & x2 == 0,
        king & x1 == 0,
        king & x2 == 0,
        fall == flip(all),
        fsq == flip(sq),
        fking == flip(king),
        fx1 == flip(x1),
        fx2 == flip(x2),
        line == pinned_squares(all, sq, king, x1, x2),
    ensures
        pinned_squares(fall, fsq, fking, fx1, fx2) == flip(line),
{
}

/// The squares that one side attacks are, upside down, the squares that
/// the other colour attacks with the same pieces upside down.
#[verifier::rlimit(100)]
pub proof fn lemma_attacked_mirror(
    occ: u64,
    k: u64,
    q: u64,
    r: u64,
    b: u64,
    n: u64,
    p: u64,
    white: bool,
    focc: u64,
    fk: u64,
    fq: u64,
    fr: u64,
    fb: u64,
    fnn: u64,
    fp: u64,
    attacked: u64,
)
    by (bit_vector)
    requires
        focc == flip(occ),
        fk == flip(k),
        fq == flip(q),
        fr == flip(r),
        fb == flip(b),
        fnn == flip(n),
        fp == flip(p),
        attacked == attacked_among(occ, k, q, r, b, n, p, white),
    ensures
        attacked_among(focc, fk, fq, fr, fb, fnn, fp, !white) == flip(attacked),
{
}

/// Taking squares out of a set one at a time, lowest first, upside down
/// and right side up.
#[verifier::rlimit(100)]
pub proof fn lemma_lowest_mirror(b: u64, c: u64, x: u64)
    by (bit_vector)
    ensures
        x & (b & !c) == x ==> x & b == x,
        x & without_lowest(b) == x ==> x & b == x,
        single(c) && c & b == c ==> (b & !c) < b,
        single(c) && c & b == c && c != lowest_square(b) ==> lowest_square(b & !c)
            == lowest_square(b) && without_lowest(b & !c) == without_lowest(b) & !c && c
            & without_lowest(b) == c,
        single(c) && c == lowest_square(b) ==> b & !c == without_lowest(b),
        b != 0 ==> single(flip(lowest_square(flip(b)))) && flip(lowest_square(flip(b))) & b
            == flip(lowest_square(flip(b))) && without_lowest(flip(b)) == flip(
            b & !flip(lowest_square(flip(b))),
        ),
        single(c) && c & b == c ==> single(c) && b != 0,
{
}

} // verus!
