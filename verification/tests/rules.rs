use mack7::bitboard::Bitboard;
use mack7::chess_move::{Castle, Move};
use mack7::fen::FenError;
use mack7::game::{Game, GameResult};
use mack7::legal_moves::LegalMoves;
use mack7::piece::{CapturedPiece, Piece, PromotionPiece};
use mack7::position::Position;

const START: &str = "rnbqkbnr/pppppppp/8/8/8/8/PPPPPPPP/RNBQKBNR w KQkq - 0 1";

fn game(fen: &str) -> Game {
    Game::from_fen(fen).unwrap()
}

fn square(name: &str) -> Bitboard {
    let bytes = name.as_bytes();
    let file = (b'h' - bytes[0]) as u32;
    let rank = (bytes[1] - b'1') as u32;
    Bitboard::new(1u64 << (8 * rank + file))
}

fn find(game: &Game, from: &str, to: &str) -> Vec<Move> {
    game.legal_moves(game.player)
        .into_iter()
        .filter(|m| m.from_square == square(from) && m.to_square == square(to))
        .collect()
}

fn play(game: &Game, from: &str, to: &str) -> Game {
    let moves = find(game, from, to);
    assert_eq!(moves.len(), 1, "{}{}", from, to);
    game.make_move(&moves[0])
}

fn assert_well_formed(position: &Position) {
    let boards = [
        position.white.king.0,
        position.white.queen.0,
        position.white.rook.0,
        position.white.bishop.0,
        position.white.knight.0,
        position.white.pawn.0,
        position.black.king.0,
        position.black.queen.0,
        position.black.rook.0,
        position.black.bishop.0,
        position.black.knight.0,
        position.black.pawn.0,
    ];
    for i in 0..12 {
        for j in (i + 1)..12 {
            assert_eq!(boards[i] & boards[j], 0);
        }
    }
    assert_eq!(position.white.all.0, boards[0..6].iter().fold(0, |a, b| a | b));
    assert_eq!(position.black.all.0, boards[6..12].iter().fold(0, |a, b| a | b));
    assert_eq!(position.all.0, position.white.all.0 | position.black.all.0);
    assert_eq!(position.white.king.count_ones(), 1);
    assert_eq!(position.black.king.count_ones(), 1);
    assert_eq!((position.white.pawn.0 | position.black.pawn.0) & 0xFF00_0000_0000_00FF, 0);
}

fn walk(game: &Game, depth: u32) {
    assert_well_formed(&game.position);
    assert!(game.position.is_well_formed());
    assert!(game.is_well_formed());
    assert!(!game.position.is_check(!game.player));
    if depth == 0 {
        return;
    }
    for m in game.legal_moves(game.player) {
        walk(&game.make_move(&m), depth - 1);
    }
}

#[test]
fn positions_stay_well_formed_along_every_line() {
    walk(&game(START), 3);
    walk(&game("r3k2r/p1ppqpb1/bn2pnp1/3PN3/1p2P3/2N2Q1p/PPPBBPPP/R3K2R w KQkq - 0 1"), 2);
    walk(&game("r3k2r/Pppp1ppp/1b3nbN/nP6/BBP1P3/q4N2/Pp1P2PP/R2Q1RK1 w kq - 0 1"), 3);
    walk(&game("8/2p5/3p4/KP5r/1R3p1k/8/4P1P1/8 w - - 0 1"), 3);
}

#[test]
fn games_that_cannot_be_reached_are_told_apart() {
    assert!(game(START).is_well_formed());
    assert!(game("8/8/8/KPp4r/8/8/8/4k3 w - c6 0 1").is_well_formed());
    // No kings.
    assert!(!game("8/8/8/8/8/8/8/8 w - - 0 1").is_well_formed());
    // The side that is not to move is in check.
    assert!(!game("4k3/8/8/8/8/8/8/4K2r b - - 0 1").is_well_formed());
    // The kings stand next to each other.
    assert!(!game("8/8/8/3kK3/8/8/8/8 w - - 0 1").is_well_formed());
    // A castling right without the rook.
    assert!(!game("4k3/8/8/8/8/8/8/4K3 w K - 0 1").is_well_formed());
    // An en-passant target without the pawn.
    assert!(!game("4k3/8/8/8/8/8/8/4K3 w - e6 0 1").is_well_formed());
    // A pawn on the last rank.
    assert!(!game("P3k3/8/8/8/8/8/8/4K3 w - - 0 1").position.is_well_formed());
    // A check that was on before the double push.
    assert!(!game("2b1k3/8/8/3Pp3/8/7K/8/8 w - e6 0 1").is_well_formed());
}

#[test]
fn every_reply_to_a_first_move_has_twenty_answers() {
    let start = game(START);
    let moves = start.legal_moves(start.player);
    assert_eq!(moves.len(), 20);
    for m in moves {
        let next = start.make_move(&m);
        assert!(!next.player);
        assert_eq!(next.count_legal_moves(1), 20);
        assert_eq!(next.count_legal_moves2(1), 20);
    }
}

#[test]
fn en_passant_that_uncovers_the_king_is_not_listed() {
    let pinned = game("8/8/8/KPp4r/8/8/8/4k3 w - c6 0 1");
    let moves = pinned.legal_moves(pinned.player);
    assert!(moves.iter().all(|m| !m.is_capturing_en_passant));
    assert!(find(&pinned, "b5", "c6").is_empty());
    assert_eq!(find(&pinned, "b5", "b6").len(), 1);

    let free = game("8/8/8/1Pp5/8/8/8/K3k3 w - c6 0 1");
    let captures = find(&free, "b5", "c6");
    assert_eq!(captures.len(), 1);
    assert!(captures[0].is_capturing_en_passant);
    let (after, taken) = free.position.make_move(&captures[0]);
    assert_eq!(taken, CapturedPiece::Nothing);
    assert_eq!(after.black.pawn.0, 0);
    assert_eq!(after.white.pawn, square("c6"));
}

fn castles(game: &Game) -> Vec<Castle> {
    game.legal_moves(game.player).into_iter().filter_map(|m| m.is_castling).collect()
}

#[test]
fn castling_needs_the_kings_path_unattacked() {
    let open = game("r3k2r/8/8/8/8/8/8/R3K2R w KQkq - 0 1");
    assert_eq!(castles(&open), vec![Castle::Kingside, Castle::Queenside]);
    // b1 is attacked, but the king does not cross it.
    let b_file = game("1r2k2r/8/8/8/8/8/8/R3K2R w KQk - 0 1");
    assert_eq!(castles(&b_file), vec![Castle::Kingside, Castle::Queenside]);
    // d1 is attacked, and the king crosses it.
    let d_file = game("3rk2r/8/8/8/8/8/8/R3K2R w KQk - 0 1");
    assert_eq!(castles(&d_file), vec![Castle::Kingside]);
    // The king is in check.
    let e_file = game("4r1k1/8/8/8/8/8/8/R3K2R w KQ - 0 1");
    assert!(castles(&e_file).is_empty());
    // A piece stands between king and rook.
    let blocked = game("r3k2r/8/8/8/8/8/8/RN2K1NR w KQkq - 0 1");
    assert!(castles(&blocked).is_empty());
    // Without the right there is no castling.
    let no_right = game("r3k2r/8/8/8/8/8/8/R3K2R w kq - 0 1");
    assert!(castles(&no_right).is_empty());
    let black = game("r3k2r/8/8/8/8/8/8/R3K2R b KQkq - 0 1");
    assert_eq!(castles(&black), vec![Castle::Kingside, Castle::Queenside]);
}

#[test]
fn castling_moves_king_and_rook() {
    let open = game("r3k2r/8/8/8/8/8/8/R3K2R w KQkq - 0 1");
    let short = open
        .legal_moves(true)
        .into_iter()
        .find(|m| m.is_castling == Some(Castle::Kingside))
        .unwrap();
    let after = open.make_move(&short);
    assert_eq!(after.position.white.king, square("g1"));
    assert_eq!(after.position.white.rook.0, square("f1").0 | square("a1").0);
    assert!(!after.possible_castles.white_kingside);
    assert!(!after.possible_castles.white_queenside);
    assert!(after.possible_castles.black_kingside);
    assert!(after.possible_castles.black_queenside);
    let long = after
        .legal_moves(false)
        .into_iter()
        .find(|m| m.is_castling == Some(Castle::Queenside))
        .unwrap();
    let after = after.make_move(&long);
    assert_eq!(after.position.black.king, square("c8"));
    assert_eq!(after.position.black.rook.0, square("d8").0 | square("h8").0);
    assert_eq!(after.to_fen(), "2kr3r/8/8/8/8/8/8/R4RK1 w - - 2 2");
}

#[test]
fn a_pawn_reaching_the_last_rank_gives_four_moves() {
    let white = game("1n2k3/P6p/8/8/8/8/8/4K3 w - - 0 1");
    let pushes = find(&white, "a7", "a8");
    let promotions: Vec<Option<PromotionPiece>> =
        pushes.iter().map(|m| m.is_promoting_to).collect();
    assert_eq!(
        promotions,
        vec![
            Some(PromotionPiece::Queen),
            Some(PromotionPiece::Rook),
            Some(PromotionPiece::Bishop),
            Some(PromotionPiece::Knight)
        ]
    );
    assert_eq!(find(&white, "a7", "b8").len(), 4);
    assert_eq!(white.legal_moves(true).len(), 4 + 4 + 5);
    assert_eq!(white.count_legal_moves2(1), 13);

    let black = game("4k3/8/8/8/8/8/p6P/1N2K3 b - - 0 1");
    assert_eq!(find(&black, "a2", "a1").len(), 4);
    assert_eq!(find(&black, "a2", "b1").len(), 4);
    let knight = find(&black, "a2", "b1")
        .into_iter()
        .find(|m| m.is_promoting_to == Some(PromotionPiece::Knight))
        .unwrap();
    let (after, taken) = black.position.make_move(&knight);
    assert_eq!(taken, CapturedPiece::Knight);
    assert_eq!(after.black.knight, square("b1"));
    assert_eq!(after.black.pawn.0, 0);
    assert_eq!(after.white.knight.0, 0);
    assert_eq!(after.white.pawn, square("h2"));
}

#[test]
fn the_third_return_of_a_position_is_a_repetition() {
    let mut current = game(START);
    let steps = [("g1", "f3"), ("g8", "f6"), ("f3", "g1"), ("f6", "g8")];
    for round in 0..2 {
        for (from, to) in steps {
            assert!(current.result().is_none(), "round {}", round);
            current = play(&current, from, to);
        }
    }
    // The starting position stands for the third time; it counts once the
    // next move has been made from it.
    assert!(current.result().is_none());
    assert_eq!(current.previous_positions.len(), 8);
    current = play(&current, "g1", "f3");
    assert_eq!(current.previous_positions.len(), 9);
    assert_eq!(current.result(), Some(GameResult::Repitition));
}

#[test]
fn captures_promotions_and_castling_empty_the_list_of_positions() {
    let start = game("r3k2r/8/8/3p4/4P3/8/8/R3K2R w KQkq - 0 1");
    let quiet = play(&start, "a1", "b1");
    assert_eq!(quiet.previous_positions.len(), 1);
    assert_eq!(quiet.previous_positions[0], start.digest());
    let again = play(&quiet, "a8", "b8");
    assert_eq!(again.previous_positions.len(), 2);
    let capture = play(&again, "e4", "d5");
    assert!(capture.previous_positions.is_empty());
    let castle = again
        .legal_moves(true)
        .into_iter()
        .find(|m| m.is_castling == Some(Castle::Kingside))
        .unwrap();
    assert!(again.make_move(&castle).previous_positions.is_empty());
}

#[test]
fn make_move_keeps_the_counters_and_the_target() {
    let start = game(START);
    let pushed = play(&start, "e2", "e4");
    assert!(!pushed.player);
    assert_eq!(pushed.en_passant_square, square("e3"));
    assert_eq!(pushed.move_counter, 1);
    assert_eq!(pushed.fifty_move_counter, 0);
    assert_eq!(pushed.to_fen(), "rnbqkbnr/pppppppp/8/8/4P3/8/PPPP1PPP/RNBQKBNR b KQkq e3 0 1");
    let answered = play(&pushed, "g8", "f6");
    assert!(answered.player);
    assert!(answered.en_passant_square.is_empty());
    assert_eq!(answered.move_counter, 2);
    assert_eq!(answered.fifty_move_counter, 1);
    let rook = game("r3k2r/8/8/8/8/8/8/R3K2R w KQkq - 7 9");
    let moved = play(&rook, "h1", "h8");
    assert_eq!(moved.fifty_move_counter, 0);
    assert!(!moved.possible_castles.white_kingside);
    assert!(moved.possible_castles.white_queenside);
    assert!(!moved.possible_castles.black_kingside);
    assert!(moved.possible_castles.black_queenside);
    let king = play(&rook, "e1", "e2");
    assert_eq!(king.fifty_move_counter, 8);
    assert_eq!(king.move_counter, 9);
    assert!(!king.possible_castles.white_kingside);
    assert!(!king.possible_castles.white_queenside);
}

#[test]
fn results_are_told_apart() {
    assert_eq!(game(START).result(), None);
    let mate = game("rnb1kbnr/pppp1ppp/8/4p3/6Pq/5P2/PPPPP2P/RNBQKBNR w KQkq - 1 3");
    assert_eq!(mate.result(), Some(GameResult::Black));
    let mated_black = game("R5k1/5ppp/8/8/8/8/8/6K1 b - - 0 1");
    assert_eq!(mated_black.result(), Some(GameResult::White));
    let stalemate = game("7k/5Q2/6K1/8/8/8/8/8 b - - 0 1");
    assert_eq!(stalemate.result(), Some(GameResult::Stalemate));
    let fifty = game("4k3/8/8/8/8/8/8/R3K3 w - - 100 80");
    assert_eq!(fifty.result(), Some(GameResult::FiftyMoveRule));
    let not_yet = game("4k3/8/8/8/8/8/8/R3K3 w - - 99 80");
    assert_eq!(not_yet.result(), None);
    let bare = game("4k3/8/8/8/8/8/8/4K3 w - - 0 1");
    assert_eq!(bare.result(), Some(GameResult::DeadPosition));
}

#[test]
fn dead_positions() {
    assert!(game("4k3/8/8/8/8/8/8/4K3 w - - 0 1").position.is_dead());
    assert!(game("4k3/8/8/8/8/8/8/2B1K3 w - - 0 1").position.is_dead());
    assert!(game("4k1n1/8/8/8/8/8/8/4K3 w - - 0 1").position.is_dead());
    assert!(game("4kb2/8/8/8/8/8/8/2B1K3 w - - 0 1").position.is_dead());
    assert!(!game("2b1k3/8/8/8/8/8/8/2B1K3 w - - 0 1").position.is_dead());
    assert!(!game("4k3/8/8/8/8/8/8/1NB1K3 w - - 0 1").position.is_dead());
    assert!(!game("4k1n1/8/8/8/8/8/8/2B1K3 w - - 0 1").position.is_dead());
    assert!(!game("4k3/8/8/8/8/8/4P3/4K3 w - - 0 1").position.is_dead());
    assert!(!game("4k3/8/8/8/8/8/8/R3K3 w - - 0 1").position.is_dead());
    assert!(!game("3qk3/8/8/8/8/8/8/4K3 w - - 0 1").position.is_dead());
    assert!(!game(START).position.is_dead());
}

#[test]
fn the_moves_come_one_at_a_time_as_they_are_listed() {
    for fen in [
        START,
        "r3k2r/p1ppqpb1/bn2pnp1/3PN3/1p2P3/2N2Q1p/PPPBBPPP/R3K2R w KQkq - 0 1",
        "r3k2r/Pppp1ppp/1b3nbN/nP6/BBP1P3/q4N2/Pp1P2PP/R2Q1RK1 w kq - 0 1",
        "8/8/8/1Pp5/8/8/8/K3k3 w - c6 0 1",
        "4k3/8/8/8/8/8/p6P/1N2K3 b - - 0 1",
    ] {
        let game = game(fen);
        let listed = game.legal_moves(game.player);
        let mut walk = LegalMoves::new(&game);
        let mut handed = Vec::new();
        while let Some(m) = walk.next() {
            handed.push(m);
        }
        assert!(walk.next().is_none());
        assert_eq!(handed.len(), listed.len());
        for m in &listed {
            assert_eq!(handed.iter().filter(|h| *h == m).count(), 1);
        }
    }
}

#[test]
fn in_double_check_only_the_king_moves() {
    let double = game("4k3/8/8/8/1b6/5n2/3P4/4K1R1 w - - 0 1");
    let moves = double.legal_moves(true);
    assert!(!moves.is_empty());
    assert!(moves.iter().all(|m| m.piece == Piece::King));
    assert_eq!(double.count_legal_moves2(1), moves.len() as u64);
}

#[test]
fn a_single_check_is_answered_by_taking_blocking_or_stepping_away() {
    let checked = game("4k3/8/8/8/7b/8/3N4/R3K3 w Q - 0 1");
    let moves = checked.legal_moves(true);
    let blocks: Vec<&Move> = moves.iter().filter(|m| m.piece != Piece::King).collect();
    assert!(blocks.iter().all(|m| m.to_square == square("f2") || m.to_square == square("g3")));
    assert!(moves.iter().all(|m| m.is_castling.is_none()));
    let knight = game("4k3/8/8/8/8/3n4/8/R3K2R w KQ - 0 1");
    let answers = knight.legal_moves(true);
    assert!(answers.iter().all(|m| m.piece == Piece::King));
}

#[test]
fn a_pinned_piece_stays_on_the_line_of_the_pin() {
    let pinned = game("4r1k1/8/8/8/8/8/4R3/4K3 w - - 0 1");
    let rook: Vec<Move> =
        pinned.legal_moves(true).into_iter().filter(|m| m.piece == Piece::Rook).collect();
    assert_eq!(rook.len(), 6);
    assert!(rook.iter().all(|m| m.to_square.0 & 0x0808_0808_0808_0808 != 0));
    let line = pinned.position.pinned_movement(
        square("e2"),
        square("e1"),
        square("e8"),
        Bitboard::new(0),
    );
    assert_eq!(line.0, 0x0808_0808_0808_0000 & !square("e2").0 | square("e8").0);
    let free = pinned.position.pinned_movement(
        square("e2"),
        square("e1"),
        Bitboard::new(0),
        Bitboard::new(0),
    );
    assert_eq!(free.0, u64::MAX);
    let knight = game("4r1k1/8/8/8/8/8/4N3/4K3 w - - 0 1");
    assert!(knight.legal_moves(true).iter().all(|m| m.piece == Piece::King));
}

#[test]
fn attackers_and_attacked_squares() {
    let position = game("4k3/8/8/8/3q4/8/8/R3K3 w - - 0 1").position;
    assert_eq!(position.attackers(false, square("d1")), square("d4"));
    assert_eq!(position.attackers(false, square("a1")), square("d4"));
    assert_eq!(position.attackers(true, square("a8")), square("a1"));
    assert!(position.attackers(false, square("e1")).is_empty());
    assert!(!position.is_check(true));
    assert!(!position.is_check(false));
    let attacked = position.attacked_squares(true);
    assert_eq!(attacked.0 & 0x8080_8080_8080_8080, 0x8080_8080_8080_8000);
    assert!(!(attacked & square("d1")).is_empty());
    assert!((attacked & square("f1")).is_empty() == false);
    // The attacked king does not shelter the squares behind it.
    let through = game("8/8/8/8/8/8/8/r3K3 w - - 0 1").position;
    assert!(!(through.attacked_squares(false) & square("f1")).is_empty());
    assert!(through.is_check(true));
    let pawns = game("4k3/8/8/8/8/8/4P3/4K3 w - - 0 1").position;
    assert_eq!(pawns.attackers(true, square("d3")), square("e2"));
    assert_eq!(pawns.attackers(true, square("f3")), square("e2"));
    assert!(pawns.attackers(true, square("e3")).is_empty());
}

#[test]
fn malformed_descriptions_name_the_field() {
    assert_eq!(Game::from_fen("8/8/8/8/8/8/8/8 w - -").unwrap_err(), FenError::FieldCount);
    assert_eq!(Game::from_fen("").unwrap_err(), FenError::FieldCount);
    assert_eq!(Game::from_fen("8/8/8/8/8/8/8/8 w - - 0 1 x").unwrap_err(), FenError::FieldCount);
    assert_eq!(
        Game::from_fen("9/8/8/8/8/8/8/8 w - - 0 1").unwrap_err(),
        FenError::PiecePlacement
    );
    assert_eq!(Game::from_fen("8/8/8/8/8/8/8 w - - 0 1").unwrap_err(), FenError::PiecePlacement);
    assert_eq!(
        Game::from_fen("8/8/8/8/8/8/8/7x w - - 0 1").unwrap_err(),
        FenError::PiecePlacement
    );
    assert_eq!(Game::from_fen("8/8/8/8/8/8/8/8 x - - 0 1").unwrap_err(), FenError::SideToMove);
    assert_eq!(
        Game::from_fen("8/8/8/8/8/8/8/8 w QK - 0 1").unwrap_err(),
        FenError::CastlingRights
    );
    assert_eq!(
        Game::from_fen("8/8/8/8/8/8/8/8 w - e9 0 1").unwrap_err(),
        FenError::EnPassantTarget
    );
    assert_eq!(
        Game::from_fen("8/8/8/8/8/8/8/8 w - - x 1").unwrap_err(),
        FenError::HalfmoveClock
    );
    assert_eq!(
        Game::from_fen("8/8/8/8/8/8/8/8 w - - 0 0").unwrap_err(),
        FenError::FullmoveCounter
    );
    assert_eq!(
        Game::from_fen("8/8/8/8/8/8/8/8 w - - 0 4294967296").unwrap_err(),
        FenError::FullmoveCounter
    );
}

#[test]
fn descriptions_read_and_written() {
    for fen in [
        START,
        "r3k2r/p1ppqpb1/bn2pnp1/3PN3/1p2P3/2N2Q1p/PPPBBPPP/R3K2R w KQkq - 0 1",
        "8/2p5/3p4/KP5r/1R3p1k/8/4P1P1/8 w - - 0 1",
        "r3k2r/Pppp1ppp/1b3nbN/nP6/BBP1P3/q4N2/Pp1P2PP/R2Q1RK1 w kq - 0 1",
        "rnbq1k1r/pp1Pbppp/2p5/8/2B5/8/PPP1NnPP/RNBQK2R w KQ - 1 8",
        "r4rk1/1pp1qppp/p1np1n2/2b1p1B1/2B1P1b1/P1NP1N2/1PP1QPPP/R4RK1 w - - 0 10",
        "8/8/8/KPp4r/8/8/8/4k3 w - c6 0 1",
        "rnbqkbnr/pppp1ppp/8/4p3/4P3/8/PPPP1PPP/RNBQKBNR b Kq e3 12 345",
    ] {
        assert_eq!(game(fen).to_fen(), fen);
    }
    // A description that is not in its shortest form is written shorter,
    // and the shorter form reads as the same game.
    let loose = game("4k3/44/8/8/8/8/8/3K31 w - - 007 03");
    assert_eq!(loose.to_fen(), "4k3/8/8/8/8/8/8/3K4 w - - 7 3");
    let again = game(&loose.to_fen());
    assert_eq!(again.position, loose.position);
    assert_eq!(again.player, loose.player);
    assert_eq!(again.possible_castles, loose.possible_castles);
    assert_eq!(again.en_passant_square, loose.en_passant_square);
    assert_eq!(again.move_counter, loose.move_counter);
    assert_eq!(again.fifty_move_counter, loose.fifty_move_counter);
    assert_eq!(again.to_fen(), loose.to_fen());
    let read = game("rnbq1k1r/pp1Pbppp/2p5/8/2B5/8/PPP1NnPP/RNBQK2R w KQ - 1 8");
    assert!(read.player);
    assert_eq!(read.fifty_move_counter, 1);
    assert_eq!(read.move_counter, 8);
    assert!(read.possible_castles.white_kingside && read.possible_castles.white_queenside);
    assert!(!read.possible_castles.black_kingside && !read.possible_castles.black_queenside);
    assert_eq!(read.position.white.pawn.0, 0x0010_0000_0000_E300);
    assert_eq!(read.position.black.king, square("f8"));
    assert!(read.previous_positions.is_empty());
    let target = game("8/8/8/KPp4r/8/8/8/4k3 w - c6 0 1");
    assert_eq!(target.en_passant_square.0, 0x0000_2000_0000_0000);
}

#[test]
fn a_position_and_its_mirror_count_the_same() {
    let pairs = [
        (
            "r3k2r/Pppp1ppp/1b3nbN/nP6/BBP1P3/q4N2/Pp1P2PP/R2Q1RK1 w kq - 0 1",
            "r2q1rk1/pP1p2pp/Q4n2/bbp1p3/Np6/1B3NBn/pPPP1PPP/R3K2R b KQ - 0 1",
        ),
        (START, "rnbqkbnr/pppppppp/8/8/8/8/PPPPPPPP/RNBQKBNR b KQkq - 0 1"),
        ("8/2p5/3p4/KP5r/1R3p1k/8/4P1P1/8 w - - 0 1", "8/4p1p1/8/1r3P1K/kp5R/3P4/2P5/8 b - - 0 1"),
    ];
    for (fen, mirror) in pairs {
        for depth in 1..4 {
            assert_eq!(game(fen).count_legal_moves(depth), game(mirror).count_legal_moves(depth));
        }
    }
}

#[test]
fn counting_no_ply_gives_one() {
    assert_eq!(game(START).count_legal_moves(0), 1);
    assert_eq!(game(START).count_legal_moves2(0), 1);
    let mate = game("rnb1kbnr/pppp1ppp/8/4p3/6Pq/5P2/PPPPP2P/RNBQKBNR w KQkq - 1 3");
    assert_eq!(mate.count_legal_moves(1), 0);
    assert_eq!(mate.count_legal_moves2(3), 0);
}
