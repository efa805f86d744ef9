use doushouqi::board::Board;
use doushouqi::game::{classify, Piece, Player, Terrain};
use doushouqi::moves::RuleViolation;

fn find_dests(
    moves: &Vec<((isize, isize), Vec<(isize, isize)>)>,
    src: (isize, isize),
) -> Vec<(isize, isize)> {
    for (s, ds) in moves {
        if *s == src {
            return ds.clone();
        }
    }
    panic!("no piece at source");
}

#[test]
fn canonical_terrain_layout() {
    assert_eq!(classify(3, 0), Terrain::Den(Player::Player1));
    assert_eq!(classify(3, 8), Terrain::Den(Player::Player2));
    assert_eq!(classify(2, 0), Terrain::Trap(Player::Player1));
    assert_eq!(classify(4, 0), Terrain::Trap(Player::Player1));
    assert_eq!(classify(3, 1), Terrain::Trap(Player::Player1));
    assert_eq!(classify(2, 8), Terrain::Trap(Player::Player2));
    assert_eq!(classify(4, 8), Terrain::Trap(Player::Player2));
    assert_eq!(classify(3, 7), Terrain::Trap(Player::Player2));
    for y in 3..=5 {
        for x in [1, 2, 4, 5] {
            assert_eq!(classify(x, y), Terrain::Water);
        }
        assert_eq!(classify(0, y), Terrain::Grass);
        assert_eq!(classify(3, y), Terrain::Grass);
        assert_eq!(classify(6, y), Terrain::Grass);
    }
    assert_eq!(classify(0, 0), Terrain::Grass);
}

#[test]
fn canonical_initial_placement() {
    let b = Board::default_initial();
    let p1 = Player::Player1;
    let p2 = Player::Player2;
    assert_eq!(b.occupant_at(0, 0), Some((p1, Piece::Lion)));
    assert_eq!(b.occupant_at(6, 0), Some((p1, Piece::Tiger)));
    assert_eq!(b.occupant_at(1, 1), Some((p1, Piece::Dog)));
    assert_eq!(b.occupant_at(5, 1), Some((p1, Piece::Cat)));
    assert_eq!(b.occupant_at(0, 2), Some((p1, Piece::Rat)));
    assert_eq!(b.occupant_at(2, 2), Some((p1, Piece::Leopard)));
    assert_eq!(b.occupant_at(4, 2), Some((p1, Piece::Wolf)));
    assert_eq!(b.occupant_at(6, 2), Some((p1, Piece::Elephant)));
    assert_eq!(b.occupant_at(6, 8), Some((p2, Piece::Lion)));
    assert_eq!(b.occupant_at(0, 8), Some((p2, Piece::Tiger)));
    assert_eq!(b.occupant_at(5, 7), Some((p2, Piece::Dog)));
    assert_eq!(b.occupant_at(1, 7), Some((p2, Piece::Cat)));
    assert_eq!(b.occupant_at(6, 6), Some((p2, Piece::Rat)));
    assert_eq!(b.occupant_at(4, 6), Some((p2, Piece::Leopard)));
    assert_eq!(b.occupant_at(2, 6), Some((p2, Piece::Wolf)));
    assert_eq!(b.occupant_at(0, 6), Some((p2, Piece::Elephant)));
    // a sample of cells that start empty
    assert_eq!(b.occupant_at(3, 0), None);
    assert_eq!(b.occupant_at(3, 4), None);
    assert_eq!(b.occupant_at(1, 4), None);
    let cells = b.cells_row_major();
    assert_eq!(cells.len(), 63);
    assert_eq!(cells[0], ((0, 0), Terrain::Grass, Some((p1, Piece::Lion))));
    assert_eq!(cells[3], ((3, 0), Terrain::Den(Player::Player1), None));
}

#[test]
fn initial_rat_moves_exact() {
    // From the canonical start the first player's rat at (0, 2) has exactly
    // its three empty neighbors, in destination row-major order.
    let b = Board::default_initial();
    let moves = b.legal_moves(Player::Player1);
    assert_eq!(moves.len(), 8);
    let rat = find_dests(&moves, (0, 2));
    assert_eq!(rat, vec![(0, 1), (1, 2), (0, 3)]);
}

#[test]
fn initial_grouped_moves_first_entry() {
    let b = Board::default_initial();
    let moves = b.legal_moves(Player::Player1);
    // sources come in row-major order; the lion in the corner is first
    assert_eq!(moves[0].0, (0, 0));
    assert_eq!(moves[0].1, vec![(1, 0), (0, 1)]);
}

#[test]
fn lion_jumps_water_lane() {
    // A lion at one end of the empty horizontal water lane of row 3 has
    // exactly one jump destination: the grass on the far bank.
    let mut b = Board::empty();
    b.place(0, 3, Player::Player1, Piece::Lion);
    let moves = b.legal_moves(Player::Player1);
    let dests = find_dests(&moves, (0, 3));
    assert_eq!(dests, vec![(0, 2), (3, 3), (0, 4)]);
}

#[test]
fn rat_in_lane_blocks_lion_jump() {
    for rat_owner in [Player::Player1, Player::Player2] {
        for rat_x in [1, 2] {
            let mut b = Board::empty();
            b.place(0, 3, Player::Player1, Piece::Lion);
            b.place(rat_x, 3, rat_owner, Piece::Rat);
            let moves = b.legal_moves(Player::Player1);
            let dests = find_dests(&moves, (0, 3));
            assert_eq!(dests, vec![(0, 2), (0, 4)]);
        }
    }
}

#[test]
fn tiger_jumps_vertically() {
    let mut b = Board::empty();
    b.place(1, 2, Player::Player2, Piece::Tiger);
    let moves = b.legal_moves(Player::Player2);
    let dests = find_dests(&moves, (1, 2));
    assert!(dests.contains(&(1, 6)));
    assert!(!dests.contains(&(1, 3)));
}

#[test]
fn leopard_cannot_jump() {
    let mut b = Board::empty();
    b.place(0, 3, Player::Player1, Piece::Leopard);
    let moves = b.legal_moves(Player::Player1);
    let dests = find_dests(&moves, (0, 3));
    assert_eq!(dests, vec![(0, 2), (0, 4)]);
}

#[test]
fn illegal_destination_leaves_board_unchanged() {
    let b = Board::default_initial();
    let before = b.cells_row_major();
    // the rat cannot reach the leopard's cell in one step
    let r = b.make_move(Player::Player1, (0, 2), (2, 2));
    assert!(matches!(r, Err(RuleViolation::IllegalDestination)));
    assert_eq!(b.cells_row_major(), before);
}

#[test]
fn out_of_bounds_is_reported() {
    let b = Board::default_initial();
    assert!(matches!(
        b.make_move(Player::Player1, (-1, 0), (0, 0)),
        Err(RuleViolation::OutOfBounds)
    ));
    assert!(matches!(
        b.make_move(Player::Player1, (0, 2), (0, 9)),
        Err(RuleViolation::OutOfBounds)
    ));
    assert!(matches!(
        b.make_move(Player::Player1, (7, 2), (6, 2)),
        Err(RuleViolation::OutOfBounds)
    ));
}

#[test]
fn empty_or_enemy_source_is_reported() {
    let b = Board::default_initial();
    assert!(matches!(
        b.make_move(Player::Player1, (3, 3), (3, 4)),
        Err(RuleViolation::NoPieceAtSource)
    ));
    assert!(matches!(
        b.make_move(Player::Player2, (0, 2), (0, 3)),
        Err(RuleViolation::NoPieceAtSource)
    ));
}

#[test]
fn rat_enters_water_others_do_not() {
    let b = Board::default_initial();
    let r = b.make_move(Player::Player1, (0, 2), (0, 3)).unwrap();
    let r2 = r.board.make_move(Player::Player1, (0, 3), (1, 3));
    assert!(r2.is_ok());
    // the leopard may not step onto water
    let mut c = Board::empty();
    c.place(0, 3, Player::Player1, Piece::Leopard);
    assert!(matches!(
        c.make_move(Player::Player1, (0, 3), (1, 3)),
        Err(RuleViolation::IllegalDestination)
    ));
}

#[test]
fn elephant_never_captures_rat() {
    let mut b = Board::empty();
    b.place(0, 3, Player::Player1, Piece::Elephant);
    b.place(0, 4, Player::Player2, Piece::Rat);
    assert!(matches!(
        b.make_move(Player::Player1, (0, 3), (0, 4)),
        Err(RuleViolation::IllegalDestination)
    ));
}

#[test]
fn rat_captures_elephant_from_land() {
    let mut b = Board::empty();
    b.place(0, 3, Player::Player1, Piece::Rat);
    b.place(0, 4, Player::Player2, Piece::Elephant);
    let out = b.make_move(Player::Player1, (0, 3), (0, 4)).unwrap();
    assert_eq!(out.captured, Some((Player::Player2, Piece::Elephant)));
    assert_eq!(out.winner, None);
    assert_eq!(out.board.occupant_at(0, 4), Some((Player::Player1, Piece::Rat)));
    assert_eq!(out.board.occupant_at(0, 3), None);
}

#[test]
fn rat_in_water_cannot_capture_elephant() {
    let mut b = Board::empty();
    b.place(1, 3, Player::Player1, Piece::Rat);
    b.place(1, 2, Player::Player2, Piece::Elephant);
    assert!(matches!(
        b.make_move(Player::Player1, (1, 3), (1, 2)),
        Err(RuleViolation::IllegalDestination)
    ));
}

#[test]
fn trapped_piece_is_capturable_by_anything() {
    // a lion on an enemy trap falls to a cat
    let mut b = Board::empty();
    b.place(3, 1, Player::Player2, Piece::Lion);
    b.place(3, 2, Player::Player1, Piece::Cat);
    let out = b.make_move(Player::Player1, (3, 2), (3, 1)).unwrap();
    assert_eq!(out.captured, Some((Player::Player2, Piece::Lion)));
    // a cat on an enemy trap falls to a rat
    let mut c = Board::empty();
    c.place(2, 0, Player::Player2, Piece::Cat);
    c.place(1, 0, Player::Player1, Piece::Rat);
    assert!(c.make_move(Player::Player1, (1, 0), (2, 0)).is_ok());
}

#[test]
fn own_trap_gives_no_rank_reduction() {
    // a cat on its own trap keeps rank 2, so an enemy rat cannot take it
    let mut b = Board::empty();
    b.place(2, 0, Player::Player1, Piece::Cat);
    b.place(1, 0, Player::Player2, Piece::Rat);
    assert!(matches!(
        b.make_move(Player::Player2, (1, 0), (2, 0)),
        Err(RuleViolation::IllegalDestination)
    ));
}

#[test]
fn equal_rank_captures() {
    let mut b = Board::empty();
    b.place(0, 3, Player::Player1, Piece::Dog);
    b.place(0, 4, Player::Player2, Piece::Dog);
    assert!(b.make_move(Player::Player1, (0, 3), (0, 4)).is_ok());
    // and a lower rank does not
    let mut c = Board::empty();
    c.place(0, 3, Player::Player1, Piece::Cat);
    c.place(0, 4, Player::Player2, Piece::Dog);
    assert!(matches!(
        c.make_move(Player::Player1, (0, 3), (0, 4)),
        Err(RuleViolation::IllegalDestination)
    ));
}

#[test]
fn own_den_is_never_a_destination() {
    let mut b = Board::empty();
    b.place(2, 0, Player::Player1, Piece::Wolf);
    assert!(matches!(
        b.make_move(Player::Player1, (2, 0), (3, 0)),
        Err(RuleViolation::IllegalDestination)
    ));
    let moves = b.legal_moves(Player::Player1);
    let dests = find_dests(&moves, (2, 0));
    assert!(!dests.contains(&(3, 0)));
}

#[test]
fn entering_enemy_den_wins() {
    let mut b = Board::empty();
    b.place(2, 8, Player::Player1, Piece::Wolf);
    let out = b.make_move(Player::Player1, (2, 8), (3, 8)).unwrap();
    assert_eq!(out.winner, Some(Player::Player1));
    assert_eq!(out.captured, None);
    assert_eq!(out.board.occupant_at(3, 8), Some((Player::Player1, Piece::Wolf)));
}

#[test]
fn no_self_capture() {
    let mut c = Board::empty();
    c.place(0, 3, Player::Player1, Piece::Dog);
    c.place(0, 4, Player::Player1, Piece::Rat);
    assert!(matches!(
        c.make_move(Player::Player1, (0, 3), (0, 4)),
        Err(RuleViolation::IllegalDestination)
    ));
}
