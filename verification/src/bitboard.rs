//! Sets of board squares packed into 64 bits.
//!
//! Bit 0 is square h1, bit 7 is a1, bit 56 is h8 and bit 63 is a8: within a
//! rank the bit index grows from file h to file a, and it grows by eight from
//! one rank to the next.

use vstd::prelude::*;
pub use crate::direction::Direction;

verus! {

/// Every square except those on file a.
pub const NOT_A_FILE: u64 = 0x7F7F_7F7F_7F7F_7F7F;

/// Every square except those on file h.
pub const NOT_H_FILE: u64 = 0xFEFE_FEFE_FEFE_FEFE;

/// Every square of the board.
pub const ALL_SQUARES: u64 = 0xFFFF_FFFF_FFFF_FFFF;

/// The set moved one rank toward rank 8; squares on rank 8 drop out.
pub open spec fn shift_top(b: u64) -> u64 {
    b << 8
}

/// The set moved one rank toward rank 1; squares on rank 1 drop out.
pub open spec fn shift_bottom(b: u64) -> u64 {
    b >> 8
}

/// The set moved one file toward file a; squares on file a drop out.
pub open spec fn shift_left(b: u64) -> u64 {
    (b & NOT_A_FILE) << 1
}

/// The set moved one file toward file h; squares on file h drop out.
pub open spec fn shift_right(b: u64) -> u64 {
    (b & NOT_H_FILE) >> 1
}

/// The set moved one step in direction `d`. A diagonal step is the vertical
/// step followed by the horizontal one.
pub open spec fn shift(b: u64, d: Direction) -> u64 {
    match d {
        Direction::Top => shift_top(b),
        Direction::Bottom => shift_bottom(b),
        Direction::Left => shift_left(b),
        Direction::Right => shift_right(b),
        Direction::TopLeft => shift_left(shift_top(b)),
        Direction::TopRight => shift_right(shift_top(b)),
        Direction::BottomLeft => shift_left(shift_bottom(b)),
        Direction::BottomRight => shift_right(shift_bottom(b)),
    }
}

/// The squares a king standing on any square of `b` can step to on an empty
/// board: the union of the eight one-step shifts.
pub open spec fn king_span(b: u64) -> u64 {
    shift_top(b) | shift_left(shift_top(b)) | shift_right(shift_top(b)) | shift_bottom(b)
        | shift_left(shift_bottom(b)) | shift_right(shift_bottom(b)) | shift_left(b) | shift_right(
        b,
    )
}

/// The squares a knight standing on any square of `b` can jump to on an empty
/// board: two steps along one axis, then one step across.
pub open spec fn knight_span(b: u64) -> u64 {
    shift_left(shift_top(shift_top(b))) | shift_right(shift_top(shift_top(b))) | shift_left(
        shift_bottom(shift_bottom(b)),
    ) | shift_right(shift_bottom(shift_bottom(b))) | shift_top(shift_left(shift_left(b)))
        | shift_bottom(shift_left(shift_left(b))) | shift_top(shift_right(shift_right(b)))
        | shift_bottom(shift_right(shift_right(b)))
}

/// True when exactly one square is in the set.
pub open spec fn single(b: u64) -> bool {
    b != 0 && b & ((b - 1) as u64) == 0
}

/// The square of `b` with the lowest bit index, as a one-square set; empty
/// when `b` is empty.
pub open spec fn lowest_square(b: u64) -> u64 {
    b & !((b - 1) as u64)
}

/// The set `b` without its lowest square.
pub open spec fn without_lowest(b: u64) -> u64 {
    b & ((b - 1) as u64)
}

/// The number of squares among the lowest `width` bit positions of `b`.
pub open spec fn count_low(b: u64, width: nat) -> u64
    decreases width,
{
    if width == 0 {
        0
    } else {
        ((b & 1) + count_low(b >> 1, (width - 1) as nat)) as u64
    }
}

/// The number of squares in the set.
pub open spec fn count_squares(b: u64) -> u64 {
    count_low(b, 64)
}

/// Among `width` bit positions there are at most `width` squares.
pub proof fn lemma_count_low_bound(b: u64, width: nat)
    ensures
        count_low(b, width) <= width,
        b & 1 <= 1,
    decreases width,
{
    let bit = b & 1;
    assert(bit <= 1) by (bit_vector)
        requires
            bit == b & 1,
    ;
    if width > 0 {
        lemma_count_low_bound(b >> 1, (width - 1) as nat);
    }
}

/// The squares at least `k` steps away from the board edge that lies behind
/// direction `d`: everything a `k`-fold shift in direction `d` can produce.
pub open spec fn reach(d: Direction, k: nat) -> u64
    decreases k,
{
    if k == 0 {
        ALL_SQUARES
    } else {
        shift(reach(d, (k - 1) as nat), d)
    }
}

/// True when every square of `b` is at least `k` steps in direction `d` away
/// from the edge behind it.
pub open spec fn within(b: u64, d: Direction, k: nat) -> bool {
    b & !reach(d, k) == 0
}

/// A step keeps a set inside a set.
#[verifier::rlimit(100)]
pub proof fn lemma_shift_monotone(a: u64, b: u64)
    by (bit_vector)
    requires
        a & !b == 0,
    ensures
        shift(a, Direction::Top) & !shift(b, Direction::Top) == 0,
        shift(a, Direction::Bottom) & !shift(b, Direction::Bottom) == 0,
        shift(a, Direction::Left) & !shift(b, Direction::Left) == 0,
        shift(a, Direction::Right) & !shift(b, Direction::Right) == 0,
        shift(a, Direction::TopLeft) & !shift(b, Direction::TopLeft) == 0,
        shift(a, Direction::TopRight) & !shift(b, Direction::TopRight) == 0,
        shift(a, Direction::BottomLeft) & !shift(b, Direction::BottomLeft) == 0,
        shift(a, Direction::BottomRight) & !shift(b, Direction::BottomRight) == 0,
{
}

/// Eight steps in any direction leave the board, and nothing lies outside
/// the board.
#[verifier::rlimit(100)]
pub proof fn lemma_board_edge(b: u64)
    by (bit_vector)
    ensures
        b & !ALL_SQUARES == 0,
        reach(Direction::Top, 8) == 0,
        reach(Direction::Bottom, 8) == 0,
        reach(Direction::Left, 8) == 0,
        reach(Direction::Right, 8) == 0,
        reach(Direction::TopLeft, 8) == 0,
        reach(Direction::TopRight, 8) == 0,
        reach(Direction::BottomLeft, 8) == 0,
        reach(Direction::BottomRight, 8) == 0,
        b & !0u64 == 0 ==> b == 0,
        0u64 & !b == 0,
        lowest_square(0) == 0,
        without_lowest(0) == 0,
{
}

/// One step from anywhere lands at least one step away from the edge behind.
pub proof fn lemma_within_first(b: u64, d: Direction)
    ensures
        within(shift(b, d), d, 1),
{
    lemma_board_edge(b);
    lemma_shift_monotone(b, ALL_SQUARES);
    reveal_with_fuel(reach, 2);
}

/// A step in direction `d` moves a set one step further from the edge behind.
pub proof fn lemma_within_step(b: u64, d: Direction, k: nat)
    requires
        within(b, d, k),
    ensures
        within(shift(b, d), d, k + 1),
{
    lemma_shift_monotone(b, reach(d, k));
}

/// The empty set is as far from every edge as one likes.
pub proof fn lemma_within_empty(d: Direction, k: nat)
    ensures
        within(0, d, k),
{
    lemma_board_edge(reach(d, k));
}

/// No square is eight steps away from an edge.
pub proof fn lemma_within_end(b: u64, d: Direction)
    requires
        within(b, d, 8),
    ensures
        b == 0,
{
    lemma_board_edge(b);
}

/// The lowest square of a set that is not empty is one square of the set,
/// and without it the set is smaller.
#[verifier::rlimit(100)]
pub proof fn lemma_lowest(b: u64)
    by (bit_vector)
    requires
        b != 0,
    ensures
        without_lowest(b) < b,
        single(lowest_square(b)),
        lowest_square(b) & b == lowest_square(b),
        without_lowest(b) == b ^ lowest_square(b),
        without_lowest(b) & lowest_square(b) == 0,
        without_lowest(b) | lowest_square(b) == b,
{
}

/// The empty set has no lowest square.
pub proof fn lemma_lowest_of_empty()
    ensures
        lowest_square(0) == 0,
        without_lowest(0) == 0,
{
    lemma_board_edge(0);
}

/// The squares of `b` as one-square boards, lowest bit index first.
pub open spec fn squares_of(b: u64) -> Seq<Bitboard>
    decreases b,
{
    if b == 0 {
        Seq::empty()
    } else {
        proof {
            lemma_lowest(b);
        }
        seq![Bitboard(lowest_square(b))] + squares_of(without_lowest(b))
    }
}

/// A set of squares of the chess board.
#[derive(Clone, Copy, Debug, PartialEq, Eq, PartialOrd, Ord, Hash, Structural)]
pub struct Bitboard(pub u64);

/// Walks over the squares of a board, lowest bit index first.
#[derive(Clone, Copy, Debug)]
pub struct BitboardIter {
    pub n: u64,
}

impl View for BitboardIter {
    type V = Seq<Bitboard>;

    /// The squares still to come, in the order in which they will come.
    open spec fn view(&self) -> Seq<Bitboard> {
        squares_of(self.n)
    }
}

impl BitboardIter {
    /// Hands out the next square, or `None` when every square has been seen.
    pub fn next(&mut self) -> (r: Option<Bitboard>)
        ensures
            old(self)@.len() == 0 ==> r.is_none() && final(self)@ == old(self)@,
            old(self)@.len() > 0 ==> r == Some(old(self)@[0]) && final(self)@ == old(self)@.skip(1),
            r.is_some() ==> single(r.unwrap().0) && r.unwrap().0 == lowest_square(old(self).n)
                && final(self).n == without_lowest(old(self).n),
            r.is_none() <==> old(self).n == 0,
    {
        if self.n == 0 {
            return None;
        }
        let n: u64 = self.n;
        proof {
            lemma_lowest(n);
        }
        let low: u64 = n & !(n - 1);
        self.n = n & (n - 1);
        assert(squares_of(n).skip(1) =~= squares_of(without_lowest(n)));
        Some(Bitboard(low))
    }
}

impl Bitboard {
    /// The board that holds exactly the squares whose bits are set in `n`.
    #[inline]
    pub fn new(n: u64) -> (r: Bitboard)
        ensures
            r.0 == n,
    {
        Bitboard(n)
    }

    /// The board without any square.
    #[inline]
    pub fn empty() -> (r: Bitboard)
        ensures
            r.0 == 0,
    {
        Bitboard(0)
    }

    /// The board with every square.
    #[inline]
    pub fn all() -> (r: Bitboard)
        ensures
            r.0 == ALL_SQUARES,
    {
        Bitboard(ALL_SQUARES)
    }

    /// True when no square is in the set.
    #[inline]
    pub fn is_empty(self) -> (r: bool)
        ensures
            r == (self.0 == 0),
    {
        self.0 == 0
    }

    /// Starts a walk over the squares of this board.
    #[inline]
    pub fn into_iter(self) -> (r: BitboardIter)
        ensures
            r.n == self.0,
            r@ == squares_of(self.0),
    {
        BitboardIter { n: self.0 }
    }

    /// The set moved one file toward file a.
    #[inline]
    pub fn get_left_square(self) -> (r: Bitboard)
        ensures
            r.0 == shift_left(self.0),
    {
        Bitboard((self.0 & NOT_A_FILE) << 1)
    }

    /// The set moved one file toward file h.
    #[inline]
    pub fn get_right_square(self) -> (r: Bitboard)
        ensures
            r.0 == shift_right(self.0),
    {
        Bitboard((self.0 & NOT_H_FILE) >> 1)
    }

    /// The set moved one rank toward rank 8.
    #[inline]
    pub fn get_top_square(self) -> (r: Bitboard)
        ensures
            r.0 == shift_top(self.0),
    {
        Bitboard(self.0 << 8)
    }

    /// The set moved one rank toward rank 1.
    #[inline]
    pub fn get_bottom_square(self) -> (r: Bitboard)
        ensures
            r.0 == shift_bottom(self.0),
    {
        Bitboard(self.0 >> 8)
    }

    /// The set moved one rank toward rank 8 and one file toward file a.
    #[inline]
    pub fn get_top_left_square(self) -> (r: Bitboard)
        ensures
            r.0 == shift(self.0, Direction::TopLeft),
    {
        self.get_top_square().get_left_square()
    }

    /// The set moved one rank toward rank 8 and one file toward file h.
    #[inline]
    pub fn get_top_right_square(self) -> (r: Bitboard)
        ensures
            r.0 == shift(self.0, Direction::TopRight),
    {
        self.get_top_square().get_right_square()
    }

    /// The set moved one rank toward rank 1 and one file toward file a.
    #[inline]
    pub fn get_bottom_left_square(self) -> (r: Bitboard)
        ensures
            r.0 == shift(self.0, Direction::BottomLeft),
    {
        self.get_bottom_square().get_left_square()
    }

    /// The set moved one rank toward rank 1 and one file toward file h.
    #[inline]
    pub fn get_bottom_right_square(self) -> (r: Bitboard)
        ensures
            r.0 == shift(self.0, Direction::BottomRight),
    {
        self.get_bottom_square().get_right_square()
    }

    /// The set moved one step in the given direction.
    #[inline]
    pub fn get_square_in_direction(self, direction: Direction) -> (r: Bitboard)
        ensures
            r.0 == shift(self.0, direction),
    {
        match direction {
            Direction::Top => self.get_top_square(),
            Direction::Bottom => self.get_bottom_square(),
            Direction::Left => self.get_left_square(),
            Direction::Right => self.get_right_square(),
            Direction::TopLeft => self.get_top_left_square(),
            Direction::TopRight => self.get_top_right_square(),
            Direction::BottomLeft => self.get_bottom_left_square(),
            Direction::BottomRight => self.get_bottom_right_square(),
        }
    }

    /// The number of squares in the set.
    pub fn count_ones(self) -> (r: u32)
        ensures
            r == count_squares(self.0),
            r <= 64,
    {
        let mut n: u64 = self.0;
        let mut c: u32 = 0;
        let mut width: u32 = 64;
        while width > 0
            invariant
                width <= 64,
                c <= 64 - width,
                c + count_low(n, width as nat) == count_squares(self.0),
            decreases width,
        {
            let bit: u64 = n & 1;
            proof {
                lemma_count_low_bound(n, width as nat);
                lemma_count_low_bound(n >> 1, (width - 1) as nat);
            }
            if bit == 1 {
                c = c + 1;
            }
            n = n >> 1;
            width = width - 1;
        }
        c
    }

    /// Where a king on any square of this set can step on an empty board.
    #[inline]
    pub fn king_moves(self) -> (r: Bitboard)
        ensures
            r.0 == king_span(self.0),
    {
        let top = self.get_top_square();
        let bottom = self.get_bottom_square();
        let left = self.get_left_square();
        let right = self.get_right_square();
        top | top.get_left_square() | top.get_right_square() | bottom | bottom.get_left_square()
            | bottom.get_right_square() | left | right
    }

    /// Where a knight on any square of this set can jump on an empty board.
    #[inline]
    pub fn knight_moves(self) -> (r: Bitboard)
        ensures
            r.0 == knight_span(self.0),
    {
        let top = self.get_top_square().get_top_square();
        let bottom = self.get_bottom_square().get_bottom_square();
        let left = self.get_left_square().get_left_square();
        let right = self.get_right_square().get_right_square();
        top.get_left_square() | top.get_right_square() | bottom.get_left_square()
            | bottom.get_right_square() | left.get_top_square() | left.get_bottom_square()
            | right.get_top_square() | right.get_bottom_square()
    }
}

impl core::ops::BitAnd for Bitboard {
    type Output = Bitboard;

    #[inline]
    fn bitand(self, rhs: Bitboard) -> (r: Bitboard) {
        Bitboard(self.0 & rhs.0)
    }
}

impl vstd::std_specs::ops::BitAndSpecImpl for Bitboard {
    open spec fn obeys_bitand_spec() -> bool {
        true
    }

    open spec fn bitand_req(self, rhs: Bitboard) -> bool {
        true
    }

    open spec fn bitand_spec(self, rhs: Bitboard) -> Bitboard {
        Bitboard(self.0 & rhs.0)
    }
}

impl core::ops::BitOr for Bitboard {
    type Output = Bitboard;

    #[inline]
    fn bitor(self, rhs: Bitboard) -> (r: Bitboard) {
        Bitboard(self.0 | rhs.0)
    }
}

impl vstd::std_specs::ops::BitOrSpecImpl for Bitboard {
    open spec fn obeys_bitor_spec() -> bool {
        true
    }

    open spec fn bitor_req(self, rhs: Bitboard) -> bool {
        true
    }

    open spec fn bitor_spec(self, rhs: Bitboard) -> Bitboard {
        Bitboard(self.0 | rhs.0)
    }
}

impl core::ops::BitXor for Bitboard {
    type Output = Bitboard;

    #[inline]
    fn bitxor(self, rhs: Bitboard) -> (r: Bitboard) {
        Bitboard(self.0 ^ rhs.0)
    }
}

impl vstd::std_specs::ops::BitXorSpecImpl for Bitboard {
    open spec fn obeys_bitxor_spec() -> bool {
        true
    }

    open spec fn bitxor_req(self, rhs: Bitboard) -> bool {
        true
    }

    open spec fn bitxor_spec(self, rhs: Bitboard) -> Bitboard {
        Bitboard(self.0 ^ rhs.0)
    }
}

impl core::ops::BitOrAssign for Bitboard {
    #[inline]
    fn bitor_assign(&mut self, rhs: Bitboard)
        ensures
            final(self).0 == old(self).0 | rhs.0,
    {
        self.0 = self.0 | rhs.0;
    }
}

impl core::ops::BitXorAssign for Bitboard {
    #[inline]
    fn bitxor_assign(&mut self, rhs: Bitboard)
        ensures
            final(self).0 == old(self).0 ^ rhs.0,
    {
        self.0 = self.0 ^ rhs.0;
    }
}

} // verus!
