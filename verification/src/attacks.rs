//! Attacks seen from the attacked square and from the attacking pieces, and
//! the facts about single moves on which the legality of the generated moves
//! rests. Everything here speaks of plain boards.

use vstd::prelude::*;
use crate::bitboard::{
    king_span, knight_span, lemma_lowest, lowest_square, shift, shift_bottom, shift_left,
    shift_right, shift_top, single, without_lowest,
};
use crate::counting::at_most_one;
use crate::direction::Direction;
use crate::movegen::{blocking_squares, diagonal_moves, rank_and_file_moves};
use crate::position::{
    attacker_on_ray, attackers_among, diagonal_attacks, pinned_squares, sliders_attack,
    straight_attacks,
};

verus! {

/// Walking from every square of `running` at once in direction `d` for at
/// most `n` steps: `acc` together with every square passed, up to and
/// including the first square of `occ` on each walk.
pub open spec fn set_sweep(occ: u64, acc: u64, running: u64, d: Direction, n: nat) -> u64
    decreases n,
{
    if n == 0 {
        acc
    } else {
        set_sweep(occ, acc | running, shift(running & !occ, d), d, (n - 1) as nat)
    }
}

/// The squares that sliders on the squares of `s` attack in direction `d`.
pub open spec fn set_ray(occ: u64, s: u64, d: Direction) -> u64 {
    set_sweep(occ, 0, shift(s, d), d, 7)
}

/// The squares that rooks on the squares of `s` attack.
pub open spec fn set_straight(occ: u64, s: u64) -> u64 {
    set_ray(occ, s, Direction::Top) | set_ray(occ, s, Direction::Bottom) | set_ray(
        occ,
        s,
        Direction::Left,
    ) | set_ray(occ, s, Direction::Right)
}

/// The squares that bishops on the squares of `s` attack.
pub open spec fn set_diagonal(occ: u64, s: u64) -> u64 {
    set_ray(occ, s, Direction::TopLeft) | set_ray(occ, s, Direction::TopRight) | set_ray(
        occ,
        s,
        Direction::BottomLeft,
    ) | set_ray(occ, s, Direction::BottomRight)
}

/// The squares that sliders on the squares of `s` attack, along the
/// straight lines if `straight` and along the diagonals if `diagonal`.
pub open spec fn slider_set(occ: u64, s: u64, straight: bool, diagonal: bool) -> u64 {
    (if straight {
        set_straight(occ, s)
    } else {
        0
    }) | (if diagonal {
        set_diagonal(occ, s)
    } else {
        0
    })
}

/// The squares that the given pieces of one side (white if `white`) attack,
/// with `occ` as the squares that stop a slider.
pub open spec fn attacked_among(
    occ: u64,
    king: u64,
    queen: u64,
    rook: u64,
    bishop: u64,
    knight: u64,
    pawn: u64,
    white: bool,
) -> u64 {
    let forward = if white {
        shift_top(pawn)
    } else {
        shift_bottom(pawn)
    };
    king_span(king) | slider_set(occ, queen, true, true) | slider_set(occ, rook, true, false)
        | slider_set(occ, bishop, false, true) | knight_span(knight) | (shift_left(forward)
        | shift_right(forward))
}

#[verifier::rlimit(100)]
proof fn lemma_sweep_steps(occ: u64, a1: u64, a2: u64, r1: u64, r2: u64)
    by (bit_vector)
    ensures
        a1 | 0 == a1,
        0u64 & !occ == 0,
        0u64 | 0u64 == 0,
        at_most_one(0),
        (a1 | a2) | (r1 | r2) == (a1 | r1) | (a2 | r2),
        (r1 | r2) & !occ == (r1 & !occ) | (r2 & !occ),
        at_most_one(r1) && occ & r1 == 0 ==> r1 & !occ == r1,
        at_most_one(r1) && occ & r1 != 0 ==> r1 & !occ == 0,
{
}

#[verifier::rlimit(100)]
proof fn lemma_shift_union(r1: u64, r2: u64)
    by (bit_vector)
    ensures
        shift(r1 | r2, Direction::Top) == shift(r1, Direction::Top) | shift(r2, Direction::Top),
        shift(r1 | r2, Direction::Bottom) == shift(r1, Direction::Bottom) | shift(
            r2,
            Direction::Bottom,
        ),
        shift(r1 | r2, Direction::Left) == shift(r1, Direction::Left) | shift(r2, Direction::Left),
        shift(r1 | r2, Direction::Right) == shift(r1, Direction::Right) | shift(
            r2,
            Direction::Right,
        ),
        shift(r1 | r2, Direction::TopLeft) == shift(r1, Direction::TopLeft) | shift(
            r2,
            Direction::TopLeft,
        ),
        shift(r1 | r2, Direction::TopRight) == shift(r1, Direction::TopRight) | shift(
            r2,
            Direction::TopRight,
        ),
        shift(r1 | r2, Direction::BottomLeft) == shift(r1, Direction::BottomLeft) | shift(
            r2,
            Direction::BottomLeft,
        ),
        shift(r1 | r2, Direction::BottomRight) == shift(r1, Direction::BottomRight) | shift(
            r2,
            Direction::BottomRight,
        ),
{
}

#[verifier::rlimit(100)]
proof fn lemma_shift_one(r: u64)
    by (bit_vector)
    requires
        at_most_one(r),
    ensures
        at_most_one(shift(r, Direction::Top)),
        at_most_one(shift(r, Direction::Bottom)),
        at_most_one(shift(r, Direction::Left)),
        at_most_one(shift(r, Direction::Right)),
        at_most_one(shift(r, Direction::TopLeft)),
        at_most_one(shift(r, Direction::TopRight)),
        at_most_one(shift(r, Direction::BottomLeft)),
        at_most_one(shift(r, Direction::BottomRight)),
        r == 0 ==> shift(r, Direction::Top) == 0 && shift(r, Direction::Bottom) == 0 && shift(
            r,
            Direction::Left,
        ) == 0 && shift(r, Direction::Right) == 0 && shift(r, Direction::TopLeft) == 0 && shift(
            r,
            Direction::TopRight,
        ) == 0 && shift(r, Direction::BottomLeft) == 0 && shift(r, Direction::BottomRight) == 0,
{
}

/// A walk from no square gathers nothing.
proof fn lemma_set_sweep_empty(occ: u64, acc: u64, d: Direction, n: nat)
    ensures
        set_sweep(occ, acc, 0, d, n) == acc,
    decreases n,
{
    if n > 0 {
        lemma_sweep_steps(occ, acc, 0, 0, 0);
        lemma_shift_one(0);
        lemma_set_sweep_empty(occ, acc, d, (n - 1) as nat);
    }
}

/// From at most one square, the walk of one slider and the walk of a set of
/// sliders are the same walk.
proof fn lemma_sweep_is_set(occ: u64, acc: u64, running: u64, d: Direction, n: nat)
    requires
        at_most_one(running),
    ensures
        crate::position::sweep(occ, acc, running, d, n) == set_sweep(occ, acc, running, d, n),
    decreases n,
{
    if n > 0 {
        lemma_sweep_steps(occ, acc, 0, running, 0);
        lemma_shift_one(running);
        lemma_shift_one(0);
        if running == 0 {
            lemma_set_sweep_empty(occ, acc, d, n);
        } else if occ & running == 0 {
            lemma_sweep_is_set(occ, acc | running, shift(running, d), d, (n - 1) as nat);
        } else {
            lemma_sweep_is_set(occ, acc | running, 0, d, (n - 1) as nat);
        }
    }
}

/// The walks from two sets of squares gather together what the walk from
/// their union gathers.
proof fn lemma_set_sweep_union(
    occ: u64,
    a1: u64,
    a2: u64,
    r1: u64,
    r2: u64,
    d: Direction,
    n: nat,
)
    ensures
        set_sweep(occ, a1 | a2, r1 | r2, d, n) == set_sweep(occ, a1, r1, d, n) | set_sweep(
            occ,
            a2,
            r2,
            d,
            n,
        ),
    decreases n,
{
    if n > 0 {
        lemma_sweep_steps(occ, a1, a2, r1, r2);
        lemma_shift_union(r1 & !occ, r2 & !occ);
        lemma_set_sweep_union(
            occ,
            a1 | r1,
            a2 | r2,
            shift(r1 & !occ, d),
            shift(r2 & !occ, d),
            d,
            (n - 1) as nat,
        );
    }
}

/// In one direction: one slider's ray is the ray of the set that holds just
/// it, and the ray of a union is the union of the rays.
proof fn lemma_ray_facts(occ: u64, low: u64, rest: u64, d: Direction)
    requires
        at_most_one(low),
    ensures
        crate::position::ray_attacks(occ, low, d) == set_ray(occ, low, d),
        set_ray(occ, rest | low, d) == set_ray(occ, rest, d) | set_ray(occ, low, d),
{
    lemma_shift_one(low);
    lemma_sweep_is_set(occ, 0, shift(low, d), d, 7);
    lemma_shift_union(rest, low);
    lemma_sweep_steps(occ, 0, 0, 0, 0);
    lemma_set_sweep_union(occ, 0, 0, shift(rest, d), shift(low, d), d, 7);
}

#[verifier::rlimit(100)]
proof fn lemma_join_rays(
    acc: u64,
    straight: bool,
    diagonal: bool,
    lt: u64,
    lb: u64,
    ll: u64,
    lr: u64,
    ltl: u64,
    ltr: u64,
    lbl: u64,
    lbr: u64,
    rt: u64,
    rb: u64,
    rl: u64,
    rr: u64,
    rtl: u64,
    rtr: u64,
    rbl: u64,
    rbr: u64,
)
    by (bit_vector)
    ensures
        ({
            let with_straight = if straight {
                acc | (lt | lb | ll | lr)
            } else {
                acc
            };
            let with_diagonal = if diagonal {
                with_straight | (ltl | ltr | lbl | lbr)
            } else {
                with_straight
            };
            with_diagonal | ((if straight {
                rt | rb | rl | rr
            } else {
                0
            }) | (if diagonal {
                rtl | rtr | rbl | rbr
            } else {
                0
            })) == acc | ((if straight {
                (rt | lt) | (rb | lb) | (rl | ll) | (rr | lr)
            } else {
                0
            }) | (if diagonal {
                (rtl | ltl) | (rtr | ltr) | (rbl | lbl) | (rbr | lbr)
            } else {
                0
            }))
        }),
{
}

/// What the sliders of a board attack one after the other is what they
/// attack all at once.
pub proof fn lemma_sliders_attack_closed(
    occ: u64,
    acc: u64,
    pieces: u64,
    straight: bool,
    diagonal: bool,
)
    ensures
        sliders_attack(occ, acc, pieces, straight, diagonal) == acc | slider_set(
            occ,
            pieces,
            straight,
            diagonal,
        ),
    decreases pieces,
{
    if pieces == 0 {
        lemma_sweep_steps(occ, acc, 0, 0, 0);
        lemma_shift_one(0);
        lemma_set_sweep_empty(occ, 0, Direction::Top, 7);
        lemma_set_sweep_empty(occ, 0, Direction::Bottom, 7);
        lemma_set_sweep_empty(occ, 0, Direction::Left, 7);
        lemma_set_sweep_empty(occ, 0, Direction::Right, 7);
        lemma_set_sweep_empty(occ, 0, Direction::TopLeft, 7);
        lemma_set_sweep_empty(occ, 0, Direction::TopRight, 7);
        lemma_set_sweep_empty(occ, 0, Direction::BottomLeft, 7);
        lemma_set_sweep_empty(occ, 0, Direction::BottomRight, 7);
    } else {
        lemma_lowest(pieces);
        let low = lowest_square(pieces);
        let rest = without_lowest(pieces);
        crate::counting::lemma_one_square(low);
        let with_straight = if straight {
            acc | straight_attacks(occ, low)
        } else {
            acc
        };
        let with_diagonal = if diagonal {
            with_straight | diagonal_attacks(occ, low)
        } else {
            with_straight
        };
        lemma_sliders_attack_closed(occ, with_diagonal, rest, straight, diagonal);
        lemma_ray_facts(occ, low, rest, Direction::Top);
        lemma_ray_facts(occ, low, rest, Direction::Bottom);
        lemma_ray_facts(occ, low, rest, Direction::Left);
        lemma_ray_facts(occ, low, rest, Direction::Right);
        lemma_ray_facts(occ, low, rest, Direction::TopLeft);
        lemma_ray_facts(occ, low, rest, Direction::TopRight);
        lemma_ray_facts(occ, low, rest, Direction::BottomLeft);
        lemma_ray_facts(occ, low, rest, Direction::BottomRight);
        lemma_join_rays(
            acc,
            straight,
            diagonal,
            set_ray(occ, low, Direction::Top),
            set_ray(occ, low, Direction::Bottom),
            set_ray(occ, low, Direction::Left),
            set_ray(occ, low, Direction::Right),
            set_ray(occ, low, Direction::TopLeft),
            set_ray(occ, low, Direction::TopRight),
            set_ray(occ, low, Direction::BottomLeft),
            set_ray(occ, low, Direction::BottomRight),
            set_ray(occ, rest, Direction::Top),
            set_ray(occ, rest, Direction::Bottom),
            set_ray(occ, rest, Direction::Left),
            set_ray(occ, rest, Direction::Right),
            set_ray(occ, rest, Direction::TopLeft),
            set_ray(occ, rest, Direction::TopRight),
            set_ray(occ, rest, Direction::BottomLeft),
            set_ray(occ, rest, Direction::BottomRight),
        );
    }
}

/// A king that steps to a square which the enemy does not attack once the
/// king has left its square is not attacked there, whatever it takes.
#[verifier::rlimit(100)]
pub proof fn lemma_king_step_safe(
    all: u64,
    king: u64,
    k: u64,
    q: u64,
    r: u64,
    b: u64,
    n: u64,
    p: u64,
    white: bool,
    to: u64,
)
    by (bit_vector)
    requires
        single(king),
        single(to),
        king & all == king,
        (k | q | r | b | n | p) & !all == 0,
        (k | q | r | b | n | p) & king == 0,
        to & attacked_among(all ^ king, k, q, r, b, n, p, white) == 0,
    ensures
        attackers_among(
            (all & !king) | to,
            k & !to,
            q & !to,
            r & !to,
            b & !to,
            n & !to,
            p & !to,
            white,
            to,
        ) == 0,
{
}


/// A piece that stays on the squares its pin allows does not uncover the
/// king: along every ray on which the king was not attacked before, it is
/// not attacked after the piece went from `from` to `to`.
#[verifier::rlimit(100)]
pub proof fn lemma_pinned_move_uncovers_nothing(
    all: u64,
    king: u64,
    x1: u64,
    x2: u64,
    from: u64,
    to: u64,
)
    by (bit_vector)
    requires
        single(king),
        single(from),
        single(to),
        from & king == 0,
        to & king == 0,
        king & all == king,
        from & all == from,
        x1 & !all == 0,
        x2 & !all == 0,
        from & x1 == 0,
        from & x2 == 0,
        king & x1 == 0,
        king & x2 == 0,
        to & pinned_squares(all, from, king, x1, x2) != 0,
    ensures
        attacker_on_ray(all, x1, king, Direction::Top) == 0 ==> attacker_on_ray(
            (all & !from) | to,
            x1 & !to,
            king,
            Direction::Top,
        ) == 0,
        attacker_on_ray(all, x1, king, Direction::Bottom) == 0 ==> attacker_on_ray(
            (all & !from) | to,
            x1 & !to,
            king,
            Direction::Bottom,
        ) == 0,
        attacker_on_ray(all, x1, king, Direction::Left) == 0 ==> attacker_on_ray(
            (all & !from) | to,
            x1 & !to,
            king,
            Direction::Left,
        ) == 0,
        attacker_on_ray(all, x1, king, Direction::Right) == 0 ==> attacker_on_ray(
            (all & !from) | to,
            x1 & !to,
            king,
            Direction::Right,
        ) == 0,
        attacker_on_ray(all, x2, king, Direction::TopLeft) == 0 ==> attacker_on_ray(
            (all & !from) | to,
            x2 & !to,
            king,
            Direction::TopLeft,
        ) == 0,
        attacker_on_ray(all, x2, king, Direction::TopRight) == 0 ==> attacker_on_ray(
            (all & !from) | to,
            x2 & !to,
            king,
            Direction::TopRight,
        ) == 0,
        attacker_on_ray(all, x2, king, Direction::BottomLeft) == 0 ==> attacker_on_ray(
            (all & !from) | to,
            x2 & !to,
            king,
            Direction::BottomLeft,
        ) == 0,
        attacker_on_ray(all, x2, king, Direction::BottomRight) == 0 ==> attacker_on_ray(
            (all & !from) | to,
            x2 & !to,
            king,
            Direction::BottomRight,
        ) == 0,
{
}

/// The squares that answer a check by the one piece `c`: its own square
/// and, unless it is a knight or a pawn, the squares between it and the king.
pub open spec fn answer_mask(king: u64, c: u64, knight: u64, pawn: u64) -> u64 {
    c | (if c & knight != 0 || c & pawn != 0 {
        0
    } else {
        blocking_squares(king, c)
    })
}

/// A move of a piece other than the king leaves the king unattacked when
/// at most one piece gave check, the move takes that piece or steps between
/// it and the king, and the move uncovers nothing.
#[verifier::rlimit(100)]
pub proof fn lemma_answered_check(
    all: u64,
    king: u64,
    k: u64,
    q: u64,
    r: u64,
    b: u64,
    n: u64,
    p: u64,
    white: bool,
    from: u64,
    to: u64,
    c: u64,
)
    by (bit_vector)
    requires
        single(king),
        single(from),
        single(to),
        from & king == 0,
        to & king == 0,
        to & k == 0,
        king & all == king,
        from & all == from,
        (k | q | r | b | n | p) & !all == 0,
        (k | q | r | b | n | p) & (from | king) == 0,
        c == attackers_among(all, k, q, r, b, n, p, white, king),
        at_most_one(c),
        c != 0 ==> to & answer_mask(king, c, n, p) != 0,
        attacker_on_ray(all, q | r, king, Direction::Top) == 0 ==> attacker_on_ray(
            (all & !from) | to,
            (q | r) & !to,
            king,
            Direction::Top,
        ) == 0,
        attacker_on_ray(all, q | r, king, Direction::Bottom) == 0 ==> attacker_on_ray(
            (all & !from) | to,
            (q | r) & !to,
            king,
            Direction::Bottom,
        ) == 0,
        attacker_on_ray(all, q | r, king, Direction::Left) == 0 ==> attacker_on_ray(
            (all & !from) | to,
            (q | r) & !to,
            king,
            Direction::Left,
        ) == 0,
        attacker_on_ray(all, q | r, king, Direction::Right) == 0 ==> attacker_on_ray(
            (all & !from) | to,
            (q | r) & !to,
            king,
            Direction::Right,
        ) == 0,
        attacker_on_ray(all, q | b, king, Direction::TopLeft) == 0 ==> attacker_on_ray(
            (all & !from) | to,
            (q | b) & !to,
            king,
            Direction::TopLeft,
        ) == 0,
        attacker_on_ray(all, q | b, king, Direction::TopRight) == 0 ==> attacker_on_ray(
            (all & !from) | to,
            (q | b) & !to,
            king,
            Direction::TopRight,
        ) == 0,
        attacker_on_ray(all, q | b, king, Direction::BottomLeft) == 0 ==> attacker_on_ray(
            (all & !from) | to,
            (q | b) & !to,
            king,
            Direction::BottomLeft,
        ) == 0,
        attacker_on_ray(all, q | b, king, Direction::BottomRight) == 0 ==> attacker_on_ray(
            (all & !from) | to,
            (q | b) & !to,
            king,
            Direction::BottomRight,
        ) == 0,
    ensures
        attackers_among(
            (all & !from) | to,
            k,
            q & !to,
            r & !to,
            b & !to,
            n & !to,
            p & !to,
            white,
            king,
        ) == 0,
{
}

/// After castling the king is not attacked, when before it neither its
/// square nor the two squares it crosses were attacked and nothing stood
/// between king and rook. `white` tells the colour of the other side.
#[verifier::rlimit(100)]
pub proof fn lemma_castle_safe(
    all: u64,
    king: u64,
    k: u64,
    q: u64,
    r: u64,
    b: u64,
    n: u64,
    p: u64,
    white: bool,
    corner: u64,
    between: u64,
    path: u64,
    king_to: u64,
    all_flip: u64,
)
    by (bit_vector)
    requires
        king & all == king,
        corner & all == corner,
        (k | q | r | b | n | p) & !all == 0,
        (k | q | r | b | n | p) & (king | corner) == 0,
        all & between == 0,
        attacked_among(all ^ king, k, q, r, b, n, p, white) & path == 0,
        (!white && king == 0x08 && corner == 0x01 && between == 0x06 && path == 0x0E && king_to
            == 0x02 && all_flip == 0x0F) || (!white && king == 0x08 && corner == 0x80 && between
            == 0x70 && path == 0x38 && king_to == 0x20 && all_flip == 0xB8) || (white && king
            == 0x0800_0000_0000_0000 && corner == 0x0100_0000_0000_0000 && between
            == 0x0600_0000_0000_0000 && path == 0x0E00_0000_0000_0000 && king_to
            == 0x0200_0000_0000_0000 && all_flip == 0x0F00_0000_0000_0000) || (white && king
            == 0x0800_0000_0000_0000 && corner == 0x8000_0000_0000_0000 && between
            == 0x7000_0000_0000_0000 && path == 0x3800_0000_0000_0000 && king_to
            == 0x2000_0000_0000_0000 && all_flip == 0xB800_0000_0000_0000),
    ensures
        attackers_among(all ^ all_flip, k, q, r, b, n, p, white, king_to) == 0,
{
}

/// While the other king is not attacked, no piece can go to its square,
/// and no slider can go to a square of its own side. `white` tells the
/// colour of the side that moves.
#[verifier::rlimit(100)]
pub proof fn lemma_moves_miss_the_king(
    all: u64,
    king: u64,
    queen: u64,
    rook: u64,
    bishop: u64,
    knight: u64,
    pawn: u64,
    own: u64,
    enemy: u64,
    other_king: u64,
    white: bool,
    from: u64,
)
    by (bit_vector)
    requires
        single(from),
        single(other_king),
        other_king & all == other_king,
        own & !all == 0,
        own & enemy == 0,
        attackers_among(all, king, queen, rook, bishop, knight, pawn, white, other_king) == 0,
    ensures
        from & (queen | rook) != 0 ==> rank_and_file_moves(all, enemy, from) & (own | other_king)
            == 0,
        from & (queen | bishop) != 0 ==> diagonal_moves(all, enemy, from) & (own | other_king)
            == 0,
        from & knight != 0 ==> knight_span(from) & other_king == 0,
        from & king != 0 ==> king_span(from) & other_king == 0,
        from & pawn != 0 ==> shift_left(
            if white {
                shift_top(from)
            } else {
                shift_bottom(from)
            },
        ) & other_king == 0 && shift_right(
            if white {
                shift_top(from)
            } else {
                shift_bottom(from)
            },
        ) & other_king == 0,
{
}

} // verus!
