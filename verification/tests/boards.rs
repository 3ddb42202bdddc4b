use mack7::bitboard::{Bitboard, Direction};
use mack7::constants;
use mack7::movegen::{get_diagonal_moves, get_moves_in_direction, get_rank_and_file_moves};

const A1: u64 = 0x80;
const H1: u64 = 0x01;
const A8: u64 = 0x8000_0000_0000_0000;
const H8: u64 = 0x0100_0000_0000_0000;
const E4: u64 = 0x0800_0000;

#[test]
fn the_corners_have_their_bits() {
    assert_eq!(Bitboard::new(H1).to_human(), "h1");
    assert_eq!(Bitboard::new(A1).to_human(), "a1");
    assert_eq!(Bitboard::new(H8).to_human(), "h8");
    assert_eq!(Bitboard::new(A8).to_human(), "a8");
    assert_eq!(Bitboard::new(E4).to_human(), "e4");
}

#[test]
fn every_square_has_its_name() {
    let files = ["h", "g", "f", "e", "d", "c", "b", "a"];
    for index in 0..64usize {
        let name = format!("{}{}", files[index % 8], index / 8 + 1);
        assert_eq!(Bitboard::new(1u64 << index).to_human(), name);
    }
}

#[test]
fn steps_stop_at_the_edges() {
    let e4 = Bitboard::new(E4);
    assert_eq!(e4.get_top_square().to_human(), "e5");
    assert_eq!(e4.get_bottom_square().to_human(), "e3");
    assert_eq!(e4.get_left_square().to_human(), "d4");
    assert_eq!(e4.get_right_square().to_human(), "f4");
    assert_eq!(e4.get_top_left_square().to_human(), "d5");
    assert_eq!(e4.get_top_right_square().to_human(), "f5");
    assert_eq!(e4.get_bottom_left_square().to_human(), "d3");
    assert_eq!(e4.get_bottom_right_square().to_human(), "f3");
    assert_eq!(e4.get_square_in_direction(Direction::TopLeft), e4.get_top_left_square());
    assert!(Bitboard::new(A1).get_left_square().is_empty());
    assert!(Bitboard::new(A8).get_left_square().is_empty());
    assert!(Bitboard::new(H1).get_right_square().is_empty());
    assert!(Bitboard::new(H8).get_top_square().is_empty());
    assert!(Bitboard::new(H1).get_bottom_square().is_empty());
    assert!(Bitboard::new(A8).get_top_left_square().is_empty());
    assert!(Bitboard::new(H1).get_bottom_right_square().is_empty());
    assert_eq!(Bitboard::new(0x7F7F_7F7F_7F7F_7F7F).get_left_square().0, 0xFEFE_FEFE_FEFE_FEFE);
    assert_eq!(Bitboard::new(u64::MAX).get_right_square().0, 0x7F7F_7F7F_7F7F_7F7F);
    assert_eq!(Bitboard::new(u64::MAX).get_top_square().0, 0xFFFF_FFFF_FFFF_FF00);
    assert_eq!(Bitboard::new(u64::MAX).get_bottom_square().0, 0x00FF_FFFF_FFFF_FFFF);
    assert_eq!(Direction::TopLeft.opposite(), Direction::BottomRight);
    assert_eq!(Direction::Left.opposite(), Direction::Right);
}

#[test]
fn sets_are_joined_met_and_counted() {
    let a = Bitboard::new(0b1100);
    let b = Bitboard::new(0b1010);
    assert_eq!((a & b).0, 0b1000);
    assert_eq!((a | b).0, 0b1110);
    assert_eq!((a ^ b).0, 0b0110);
    let mut c = a;
    c |= b;
    assert_eq!(c.0, 0b1110);
    c ^= a;
    assert_eq!(c.0, 0b0010);
    assert_eq!(Bitboard::new(0).count_ones(), 0);
    assert_eq!(Bitboard::new(u64::MAX).count_ones(), 64);
    assert_eq!(Bitboard::new(0x8000_0000_0000_0001).count_ones(), 2);
    assert!(Bitboard::empty().is_empty());
    assert_eq!(Bitboard::all().0, u64::MAX);
    assert!(a < Bitboard::new(0b1101));
}

#[test]
fn squares_come_lowest_first() {
    let mut walk = Bitboard::new(0x8000_0000_0000_0105).into_iter();
    assert_eq!(walk.next(), Some(Bitboard::new(0x1)));
    assert_eq!(walk.next(), Some(Bitboard::new(0x4)));
    assert_eq!(walk.next(), Some(Bitboard::new(0x100)));
    assert_eq!(walk.next(), Some(Bitboard::new(0x8000_0000_0000_0000)));
    assert_eq!(walk.next(), None);
    assert_eq!(walk.next(), None);
    assert_eq!(Bitboard::empty().into_iter().next(), None);
}

#[test]
fn king_and_knight_jumps() {
    assert_eq!(Bitboard::new(E4).king_moves().0, 0x0000_001C_141C_0000);
    assert_eq!(Bitboard::new(H1).king_moves().0, 0x0302);
    assert_eq!(Bitboard::new(A8).king_moves().0, 0x40C0_0000_0000_0000);
    assert_eq!(Bitboard::new(E4).knight_moves().0, 0x0000_1422_0022_1400);
    assert_eq!(Bitboard::new(H1).knight_moves().0, 0x0002_0400);
    assert_eq!(Bitboard::new(A1).knight_moves().0, 0x0040_2000);
    assert_eq!(Bitboard::new(H1 | A8).king_moves().0, 0x40C0_0000_0000_0302);
}

#[test]
fn the_tables_hold_the_jumps_of_every_square() {
    let tables = constants::get();
    for index in 0..64 {
        let square = Bitboard::new(1u64 << index);
        assert_eq!(*tables.king_moves.get(square), square.king_moves());
        assert_eq!(*tables.knight_moves.get(square), square.knight_moves());
    }
    let mut own = constants::BitboardMap::new();
    own.set(Bitboard::new(5), 7u8);
    own.set(Bitboard::new(5), 9u8);
    own.set(Bitboard::new(6), 1u8);
    assert_eq!(*own.get(Bitboard::new(5)), 9);
    assert_eq!(*own.get(Bitboard::new(6)), 1);
}

#[test]
fn sliders_go_up_to_the_first_piece() {
    let all = Bitboard::new(E4 | 0x0800_0000_0000_0000 | 0x0100_0000);
    let enemy = Bitboard::new(0x0800_0000_0000_0000);
    let e4 = Bitboard::new(E4);
    assert_eq!(get_moves_in_direction(all, enemy, e4, Direction::Top).0, 0x0808_0808_0000_0000);
    assert_eq!(get_moves_in_direction(all, enemy, e4, Direction::Right).0, 0x0600_0000);
    assert_eq!(get_moves_in_direction(all, enemy, e4, Direction::Left).0, 0xF000_0000);
    assert_eq!(get_moves_in_direction(all, enemy, e4, Direction::Bottom).0, 0x0008_0808);
    assert_eq!(get_rank_and_file_moves(all, enemy, e4).0, 0x0808_0808_F608_0808);
    assert_eq!(get_diagonal_moves(all, enemy, e4).0, 0x8041_2214_0014_2241);
}

#[test]
fn a_board_is_drawn_with_its_squares_marked() {
    let drawing = Bitboard::new(A8 | H1).to_string();
    let lines: Vec<&str> = drawing.split('\n').collect();
    assert_eq!(lines.len(), 18);
    assert_eq!(lines[0], "┏━━━┳━━━┳━━━┳━━━┳━━━┳━━━┳━━━┳━━━┓");
    assert_eq!(lines[1], "┃ X ┃   ┃   ┃   ┃   ┃   ┃   ┃   ┃ 8");
    assert_eq!(lines[2], "┣━━━╋━━━╋━━━╋━━━╋━━━╋━━━╋━━━╋━━━┫");
    assert_eq!(lines[3], "┃   ┃   ┃   ┃   ┃   ┃   ┃   ┃   ┃ 7");
    assert_eq!(lines[15], "┃   ┃   ┃   ┃   ┃   ┃   ┃   ┃ X ┃ 1");
    assert_eq!(lines[16], "┗━━━┻━━━┻━━━┻━━━┻━━━┻━━━┻━━━┻━━━┛");
    assert_eq!(lines[17], "  A   B   C   D   E   F   G   H");
    assert_eq!(Bitboard::new(u64::MAX).to_string().matches('X').count(), 64);
    assert_eq!(Bitboard::new(0).to_string().matches('X').count(), 0);
}
