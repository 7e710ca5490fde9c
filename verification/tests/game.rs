use gomoku::board::{Board, Cell, GameError, Side};
use gomoku::eval::{evaluate_position, select_move};
use gomoku::session::{GameMode, GameSession, TurnState};
use gomoku::win::check;

fn place_all(b: &mut Board, side: Side, cells: &[(usize, usize)]) {
    for &(r, c) in cells {
        assert_eq!(b.place(r, c, side), Ok(()));
    }
}

#[test]
fn select_move_on_empty_board_is_center() {
    let b = Board::new();
    assert_eq!(select_move(&b, Side::Black, Side::White), Ok((7, 7)));
    assert_eq!(select_move(&b, Side::White, Side::Black), Ok((7, 7)));
}

#[test]
fn select_move_on_full_board_has_no_moves() {
    let mut b = Board::new();
    for r in 0..15 {
        for c in 0..15 {
            assert_eq!(b.place(r, c, Side::Black), Ok(()));
        }
    }
    assert_eq!(
        select_move(&b, Side::White, Side::Black),
        Err(GameError::NoMovesAvailable)
    );
}

#[test]
fn horizontal_five_at_edge_wins() {
    let mut b = Board::new();
    place_all(&mut b, Side::Black, &[(0, 0), (0, 1), (0, 2), (0, 3), (0, 4)]);
    assert!(check(&b, 0, 4));
    assert!(check(&b, 0, 0));
    assert!(check(&b, 0, 2));
}

#[test]
fn vertical_five_centered_wins() {
    let mut b = Board::new();
    place_all(&mut b, Side::White, &[(5, 7), (6, 7), (7, 7), (8, 7), (9, 7)]);
    assert!(check(&b, 7, 7));
    assert!(check(&b, 5, 7));
}

#[test]
fn diagonal_five_wins() {
    let mut b = Board::new();
    place_all(&mut b, Side::Black, &[(3, 3), (4, 4), (5, 5), (6, 6), (7, 7)]);
    assert!(check(&b, 5, 5));
    assert!(check(&b, 7, 7));
}

#[test]
fn anti_diagonal_five_wins() {
    let mut b = Board::new();
    place_all(&mut b, Side::White, &[(4, 10), (5, 9), (6, 8), (7, 7), (8, 6)]);
    assert!(check(&b, 8, 6));
    assert!(check(&b, 6, 8));
}

#[test]
fn diagonal_five_at_the_far_corner_wins() {
    let mut b = Board::new();
    place_all(
        &mut b,
        Side::Black,
        &[(10, 10), (11, 11), (12, 12), (13, 13), (14, 14)],
    );
    assert!(check(&b, 14, 14));
    assert!(check(&b, 12, 12));
}

#[test]
fn anti_diagonal_five_at_edge_wins() {
    let mut b = Board::new();
    place_all(&mut b, Side::Black, &[(0, 4), (1, 3), (2, 2), (3, 1), (4, 0)]);
    assert!(check(&b, 4, 0));
}

#[test]
fn four_with_gap_does_not_win() {
    let mut b = Board::new();
    place_all(&mut b, Side::Black, &[(0, 0), (0, 1), (0, 2), (0, 3), (0, 5)]);
    assert!(!check(&b, 0, 5));
    assert!(!check(&b, 0, 3));
}

#[test]
fn four_in_a_row_does_not_win() {
    let mut b = Board::new();
    place_all(&mut b, Side::White, &[(6, 6), (7, 7), (8, 8), (9, 9)]);
    assert!(!check(&b, 7, 7));
    assert!(!check(&b, 9, 9));
}

#[test]
fn run_broken_by_other_side_does_not_win() {
    let mut b = Board::new();
    place_all(&mut b, Side::Black, &[(2, 2), (2, 3), (2, 4), (2, 6), (2, 7)]);
    place_all(&mut b, Side::White, &[(2, 5)]);
    assert!(!check(&b, 2, 4));
    assert!(!check(&b, 2, 6));
}

#[test]
fn place_out_of_range_is_rejected_and_mutates_nothing() {
    let mut b = Board::new();
    assert_eq!(b.place(15, 0, Side::Black), Err(GameError::Rejected));
    assert_eq!(b.place(0, 15, Side::Black), Err(GameError::Rejected));
    assert_eq!(b.place(100, 100, Side::White), Err(GameError::Rejected));
    for r in 0..15 {
        for c in 0..15 {
            assert_eq!(b.get(r, c), Cell::Empty);
        }
    }
}

#[test]
fn place_on_occupied_cell_is_rejected_and_mutates_nothing() {
    let mut b = Board::new();
    assert_eq!(b.place(3, 4, Side::Black), Ok(()));
    assert_eq!(b.place(3, 4, Side::White), Err(GameError::Rejected));
    assert_eq!(b.place(3, 4, Side::Black), Err(GameError::Rejected));
    assert_eq!(b.get(3, 4), Cell::Black);
    for r in 0..15 {
        for c in 0..15 {
            if (r, c) != (3, 4) {
                assert_eq!(b.get(r, c), Cell::Empty);
            }
        }
    }
}

#[test]
fn centrality_bonus_is_the_whole_score_on_an_empty_board() {
    let b = Board::new();
    // corner: distance 14 from the center, (28 - 14) * 2
    assert_eq!(evaluate_position(&b, 0, 0, Side::Black, Side::White), 28);
    // center: distance 0, (28 - 0) * 2
    assert_eq!(evaluate_position(&b, 7, 7, Side::Black, Side::White), 56);
    assert_eq!(evaluate_position(&b, 7, 8, Side::White, Side::Black), 54);
}

#[test]
fn one_neighbour_scores_one_open_single() {
    let mut b = Board::new();
    place_all(&mut b, Side::Black, &[(7, 7)]);
    // for Black at (7, 6): one open single on the horizontal axis,
    // 10 * 10 offensive, nothing defensive, centrality (28 - 1) * 2
    assert_eq!(evaluate_position(&b, 7, 6, Side::Black, Side::White), 154);
    // for White at (7, 6): nothing offensive, the same single defensive,
    // 10 * 8, centrality 54
    assert_eq!(evaluate_position(&b, 7, 6, Side::White, Side::Black), 134);
}

#[test]
fn computer_blocks_or_extends_an_open_four() {
    let mut b = Board::new();
    place_all(&mut b, Side::Black, &[(7, 3), (7, 4), (7, 5), (7, 6)]);
    // completing five for Black scores 10000 * 10 at both (7, 2) and
    // (7, 7); the centrality bonus breaks the tie toward (7, 7)
    assert_eq!(select_move(&b, Side::Black, Side::White), Ok((7, 7)));
    // White must consider the same cells defensively (10000 * 8)
    assert_eq!(select_move(&b, Side::White, Side::Black), Ok((7, 7)));
}

#[test]
fn human_vs_human_turns_alternate() {
    let mut s = GameSession::new();
    s.start(GameMode::HumanVsHuman);
    assert_eq!(s.current_state().whose_turn, Some(Side::Black));
    assert_eq!(s.submit_human_move(7, 7), Ok(()));
    assert_eq!(s.current_state().whose_turn, Some(Side::White));
    assert_eq!(s.submit_human_move(7, 8), Ok(()));
    assert_eq!(s.current_state().whose_turn, Some(Side::Black));
}

#[test]
fn no_second_move_of_one_side_before_the_computer_answers() {
    let mut s = GameSession::new();
    s.start(GameMode::HumanVsComputer);
    assert_eq!(s.choose_side(Side::Black), Ok(()));
    assert_eq!(s.submit_human_move(7, 7), Ok(()));
    // the computer's move is pending: the human cannot slip in another
    assert!(s.current_state().pending_computer);
    assert_eq!(s.submit_human_move(8, 8), Err(GameError::InvalidTransition));
    assert_eq!(s.tick(500), Some(Side::White));
    assert_eq!(s.current_state().whose_turn, Some(Side::Black));
    assert_eq!(s.submit_human_move(8, 8), Ok(()));
}

#[test]
fn short_runs_do_not_finish_the_game() {
    let mut s = GameSession::new();
    s.start(GameMode::HumanVsHuman);
    assert_eq!(s.submit_human_move(7, 7), Ok(()));
    assert_eq!(s.current_state().winner, None);
    assert_eq!(s.submit_human_move(7, 8), Ok(()));
    assert_eq!(s.current_state().winner, None);
    assert_eq!(s.submit_human_move(7, 6), Ok(()));
    assert_eq!(s.current_state().winner, None);
    assert_eq!(s.current_state().whose_turn, Some(Side::White));
}

#[test]
fn check_is_false_after_each_of_three_scattered_placements() {
    let mut b = Board::new();
    assert_eq!(b.place(7, 7, Side::Black), Ok(()));
    assert!(!check(&b, 7, 7));
    assert_eq!(b.place(7, 8, Side::White), Ok(()));
    assert!(!check(&b, 7, 8));
    assert_eq!(b.place(7, 6, Side::Black), Ok(()));
    assert!(!check(&b, 7, 6));
}

#[test]
fn horizontal_five_built_in_sequence_wins_at_the_last_cell() {
    let mut b = Board::new();
    for c in 0..4 {
        assert_eq!(b.place(0, c, Side::Black), Ok(()));
        assert!(!check(&b, 0, c));
    }
    assert_eq!(b.place(0, 4, Side::Black), Ok(()));
    assert!(check(&b, 0, 4));
}

#[test]
fn five_in_a_row_finishes_a_session() {
    let mut s = GameSession::new();
    s.start(GameMode::HumanVsHuman);
    // Black builds a row on row 0, White answers on row 14
    for c in 0..4 {
        assert_eq!(s.submit_human_move(0, c), Ok(()));
        assert_eq!(s.submit_human_move(14, c), Ok(()));
    }
    assert_eq!(s.submit_human_move(0, 4), Ok(()));
    let v = s.current_state();
    assert_eq!(v.winner, Some(Side::Black));
    assert_eq!(v.whose_turn, None);
    // terminal: nothing further is accepted
    assert_eq!(s.submit_human_move(5, 5), Err(GameError::InvalidTransition));
}

#[test]
fn choosing_white_gives_the_computer_the_center_opening() {
    let mut s = GameSession::new();
    s.start(GameMode::HumanVsComputer);
    assert_eq!(s.choose_side(Side::White), Ok(()));
    let mut black_cells = Vec::new();
    for r in 0..15 {
        for c in 0..15 {
            match s.cell(r, c) {
                Cell::Black => black_cells.push((r, c)),
                Cell::White => panic!("no white piece belongs on the board yet"),
                Cell::Empty => {}
            }
        }
    }
    assert_eq!(black_cells, vec![(7, 7)]);
    assert_eq!(s.current_state().whose_turn, Some(Side::White));
}

#[test]
fn choose_side_is_only_for_fresh_computer_games() {
    let mut s = GameSession::new();
    assert_eq!(s.choose_side(Side::Black), Err(GameError::InvalidTransition));
    s.start(GameMode::HumanVsHuman);
    assert_eq!(s.choose_side(Side::Black), Err(GameError::InvalidTransition));
    s.start(GameMode::HumanVsComputer);
    assert_eq!(s.choose_side(Side::Black), Ok(()));
    // a second choice is refused
    assert_eq!(s.choose_side(Side::White), Err(GameError::InvalidTransition));
}

#[test]
fn moves_are_rejected_before_a_mode_or_side_is_picked() {
    let mut s = GameSession::new();
    assert_eq!(s.submit_human_move(7, 7), Err(GameError::InvalidTransition));
    s.start(GameMode::HumanVsComputer);
    // the side must be chosen first
    assert_eq!(s.submit_human_move(7, 7), Err(GameError::InvalidTransition));
}

#[test]
fn bad_cells_are_rejected_without_any_state_change() {
    let mut s = GameSession::new();
    s.start(GameMode::HumanVsHuman);
    assert_eq!(s.submit_human_move(15, 2), Err(GameError::Rejected));
    assert_eq!(s.submit_human_move(7, 7), Ok(()));
    assert_eq!(s.submit_human_move(7, 7), Err(GameError::Rejected));
    // still White's turn: the rejected submissions were no-ops
    assert_eq!(s.current_state().whose_turn, Some(Side::White));
}

#[test]
fn think_delay_holds_the_computer_move_until_it_elapses() {
    let mut s = GameSession::new();
    s.start(GameMode::HumanVsComputer);
    assert_eq!(s.choose_side(Side::Black), Ok(()));
    assert_eq!(s.submit_human_move(0, 0), Ok(()));
    assert!(s.current_state().pending_computer);
    // 400 then 450 elapsed: not yet applied
    assert_eq!(s.tick(400), None);
    assert_eq!(s.tick(50), None);
    assert!(s.current_state().pending_computer);
    assert!(matches!(
        s.state,
        TurnState::PendingComputerMove { elapsed: 450, .. }
    ));
    // 550 elapsed: the move is applied and the turn comes back
    assert_eq!(s.tick(100), Some(Side::White));
    assert!(!s.current_state().pending_computer);
    assert_eq!(s.current_state().whose_turn, Some(Side::Black));
}

#[test]
fn tick_does_nothing_while_no_computer_move_is_pending() {
    let mut s = GameSession::new();
    assert_eq!(s.tick(1000), None);
    s.start(GameMode::HumanVsHuman);
    assert_eq!(s.submit_human_move(3, 3), Ok(()));
    assert_eq!(s.tick(1000), None);
    assert_eq!(s.current_state().whose_turn, Some(Side::White));
}

#[test]
fn restart_clears_the_board_and_keeps_the_mode() {
    let mut s = GameSession::new();
    s.start(GameMode::HumanVsHuman);
    assert_eq!(s.submit_human_move(7, 7), Ok(()));
    assert_eq!(s.submit_human_move(7, 8), Ok(()));
    s.restart();
    let v = s.current_state();
    assert_eq!(v.mode, GameMode::HumanVsHuman);
    assert_eq!(v.whose_turn, Some(Side::Black));
    assert_eq!(v.winner, None);
    for r in 0..15 {
        for c in 0..15 {
            assert_eq!(s.cell(r, c), Cell::Empty);
        }
    }
    // the freed cell can be used again
    assert_eq!(s.submit_human_move(7, 7), Ok(()));
}

#[test]
fn computer_opening_answer_is_near_the_center() {
    let mut s = GameSession::new();
    s.start(GameMode::HumanVsComputer);
    assert_eq!(s.choose_side(Side::Black), Ok(()));
    assert_eq!(s.submit_human_move(7, 7), Ok(()));
    assert_eq!(s.tick(500), Some(Side::White));
    // the computer's answer went to the empty cell its evaluator ranks
    // first; it must be adjacent to the lone black piece by the
    // centrality and contact scoring
    let mut white_cells = Vec::new();
    for r in 0..15 {
        for c in 0..15 {
            if s.cell(r, c) == Cell::White {
                white_cells.push((r, c));
            }
        }
    }
    assert_eq!(white_cells.len(), 1);
    let (wr, wc) = white_cells[0];
    assert!(wr.abs_diff(7) <= 1 && wc.abs_diff(7) <= 1);
}
