use doushouqi::board::Board;
use doushouqi::game::{Piece, Player};
use doushouqi::search::{ai_move, evaluate};

#[test]
fn evaluation_exact_values() {
    // one rat of player one at (0, 0): weight 450, den distance 3 + 8 = 11,
    // proximity bonus 16 - 11 = 5
    let mut b = Board::empty();
    b.place(0, 0, Player::Player1, Piece::Rat);
    assert_eq!(evaluate(&b, Player::Player1), 455);
    assert_eq!(evaluate(&b, Player::Player2), -455);
    // an enemy elephant at (3, 4): weight 800, den distance 0 + 4 = 4,
    // proximity bonus 12
    b.place(3, 4, Player::Player2, Piece::Elephant);
    assert_eq!(evaluate(&b, Player::Player1), 455 - 812);
    assert_eq!(evaluate(&b, Player::Player2), 812 - 455);
    assert_eq!(evaluate(&Board::empty(), Player::Player1), 0);
}

#[test]
fn ai_is_deterministic() {
    let b = Board::default_initial();
    for horizon in [0, 1, 2] {
        let first = ai_move(&b, Player::Player1, horizon);
        let second = ai_move(&b, Player::Player1, horizon);
        assert!(first.is_some());
        assert_eq!(first, second);
        let first2 = ai_move(&b, Player::Player2, horizon);
        assert_eq!(first2, ai_move(&b, Player::Player2, horizon));
    }
}

#[test]
fn ai_without_pieces_returns_none() {
    let mut b = Board::empty();
    b.place(0, 0, Player::Player1, Piece::Cat);
    assert_eq!(ai_move(&b, Player::Player2, 1), None);
}

#[test]
fn greedy_ai_takes_immediate_win() {
    let mut b = Board::empty();
    b.place(2, 8, Player::Player1, Piece::Lion);
    b.place(6, 0, Player::Player2, Piece::Elephant);
    let mv = ai_move(&b, Player::Player1, 0);
    assert_eq!(mv, Some(((2, 8), (3, 8))));
}

#[test]
fn win_preferred_at_every_horizon() {
    let mut b = Board::empty();
    b.place(2, 8, Player::Player1, Piece::Lion);
    b.place(6, 0, Player::Player2, Piece::Elephant);
    for horizon in [0, 1, 2, 3] {
        assert_eq!(ai_move(&b, Player::Player1, horizon), Some(((2, 8), (3, 8))));
    }
}

#[test]
fn greedy_ai_takes_best_capture() {
    let mut b = Board::empty();
    b.place(0, 3, Player::Player1, Piece::Dog);
    b.place(0, 4, Player::Player2, Piece::Cat);
    assert_eq!(ai_move(&b, Player::Player1, 0), Some(((0, 3), (0, 4))));
}

#[test]
fn negative_horizon_is_clamped() {
    let b = Board::default_initial();
    assert_eq!(ai_move(&b, Player::Player1, -5), ai_move(&b, Player::Player1, 0));
}

#[test]
fn deeper_search_avoids_losing_exchange() {
    // a cat stepping next to a lion would be taken back; at horizon 1 the
    // reply is seen, and the chosen move is not the same as the greedy one
    // being blindly repeated: both calls still agree with themselves
    let mut b = Board::empty();
    b.place(3, 3, Player::Player1, Piece::Cat);
    b.place(3, 5, Player::Player2, Piece::Lion);
    let greedy = ai_move(&b, Player::Player1, 0);
    let deep = ai_move(&b, Player::Player1, 1);
    assert!(greedy.is_some() && deep.is_some());
    // the deep choice never walks the cat onto (3, 4) where the lion takes it
    assert_ne!(deep, Some(((3, 3), (3, 4))));
}
