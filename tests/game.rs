use tic_tac_toe::{
    endgame, GameState, InputEvent, Layout, MoveRejected, Outcome, Phase, Square, TickResult,
    NEW_GAME_TIMEOUT_MS,
};

fn center(l: &Layout, i: u32) -> InputEvent {
    let r = l.cell_rect(i / l.squares, i % l.squares);
    InputEvent::LeftClick { x: r.x + (r.width / 2) as i32, y: r.y + (r.height / 2) as i32 }
}

#[test]
fn new_game_is_empty_with_x_to_move() {
    let g = GameState::new(3);
    assert_eq!(g.size(), 3);
    assert_eq!(g.squares(), &vec![Square::Empty; 9]);
    assert!(g.turn());
    assert_eq!(g.phase(), Phase::Active);
    assert_eq!(g.evaluate(), Outcome::InProgress);
}

#[test]
fn default_game_is_four_by_four() {
    let g = GameState::default();
    assert_eq!(g.size(), 4);
    assert_eq!(g.squares().len(), 16);
    assert!(g.squares().iter().all(|s| *s == Square::Empty));
    assert!(g.turn());
    assert_eq!(g.phase(), Phase::Active);
}

#[test]
fn move_places_mark_and_passes_turn() {
    let mut g = GameState::new(3);
    assert_eq!(g.apply_move(4), Ok(()));
    assert_eq!(g.squares()[4], Square::X);
    assert!(!g.turn());
    assert_eq!(g.apply_move(0), Ok(()));
    assert_eq!(g.squares()[0], Square::O);
    assert!(g.turn());
}

#[test]
fn move_on_occupied_cell_changes_nothing() {
    let mut g = GameState::new(3);
    g.apply_move(4).unwrap();
    let before = g.squares().clone();
    let turn = g.turn();
    assert_eq!(g.apply_move(4), Err(MoveRejected::Occupied));
    assert_eq!(g.apply_move(4), Err(MoveRejected::Occupied));
    assert_eq!(g.squares(), &before);
    assert_eq!(g.turn(), turn);
}

#[test]
fn move_out_of_range_changes_nothing() {
    let mut g = GameState::new(3);
    assert_eq!(g.apply_move(9), Err(MoveRejected::OutOfRange));
    assert_eq!(g.apply_move(usize::MAX), Err(MoveRejected::OutOfRange));
    assert_eq!(g.squares(), &vec![Square::Empty; 9]);
    assert!(g.turn());
}

#[test]
fn turn_alternates_over_accepted_moves() {
    let mut g = GameState::new(3);
    let moves = [0usize, 0, 4, 9, 4, 8, 1, 1, 2];
    let mut accepted = 0;
    for &m in moves.iter() {
        let expected = if accepted % 2 == 0 { Square::X } else { Square::O };
        if g.apply_move(m).is_ok() {
            assert_eq!(g.squares()[m], expected);
            accepted += 1;
        }
        assert_eq!(g.turn(), accepted % 2 == 0);
    }
    assert_eq!(accepted, 5);
}

#[test]
fn reset_clears_any_state() {
    let mut g = GameState::new(3);
    for m in [0usize, 3, 1, 4, 2] {
        g.apply_move(m).unwrap();
    }
    endgame(&mut g, 10);
    g.reset();
    assert_eq!(g.squares(), &vec![Square::Empty; 9]);
    assert!(g.turn());
    assert_eq!(g.phase(), Phase::Active);
    let mut h = GameState::new(2);
    h.apply_move(1).unwrap();
    h.reset();
    assert_eq!(h.squares(), &vec![Square::Empty; 4]);
    assert!(h.turn());
}

#[test]
fn endgame_freezes_until_timeout() {
    let mut g = GameState::new(3);
    endgame(&mut g, 1000);
    assert_eq!(g.phase(), Phase::Frozen { until: 1000 + NEW_GAME_TIMEOUT_MS });
    assert_eq!(NEW_GAME_TIMEOUT_MS, 2000);
    endgame(&mut g, u64::MAX - 5);
    assert_eq!(g.phase(), Phase::Frozen { until: u64::MAX });
}

#[test]
fn top_row_win_freezes_the_game() {
    let l = Layout::new(680, 20, 3);
    let mut g = GameState::new(3);
    let events: Vec<InputEvent> = [0u32, 4, 1, 5, 2].iter().map(|&i| center(&l, i)).collect();
    assert_eq!(g.tick(&l, 500, &events), TickResult::GameOver(Outcome::Win(Square::X)));
    assert_eq!(g.evaluate(), Outcome::Win(Square::X));
    assert_eq!(g.phase(), Phase::Frozen { until: 2500 });
    let s = g.squares();
    assert_eq!((s[0], s[1], s[2], s[4], s[5]), (Square::X, Square::X, Square::X, Square::O, Square::O));
}

#[test]
fn top_row_win_one_tick_per_move() {
    let l = Layout::new(680, 20, 3);
    let mut g = GameState::new(3);
    let moves = [0u32, 4, 1, 5];
    for (t, &m) in moves.iter().enumerate() {
        assert_eq!(g.tick(&l, t as u64, &vec![center(&l, m)]), TickResult::Running);
    }
    assert_eq!(g.tick(&l, 10, &vec![center(&l, 2)]), TickResult::GameOver(Outcome::Win(Square::X)));
    assert_eq!(g.phase(), Phase::Frozen { until: 2010 });
}

#[test]
fn full_board_without_line_is_a_draw() {
    // X O X / X O O / O X X
    let l = Layout::new(680, 20, 3);
    let mut g = GameState::new(3);
    let order = [0u32, 1, 2, 4, 3, 5, 7, 6, 8];
    let events: Vec<InputEvent> = order.iter().map(|&i| center(&l, i)).collect();
    assert_eq!(g.tick(&l, 0, &events), TickResult::GameOver(Outcome::Draw));
    let x = Square::X;
    let o = Square::O;
    assert_eq!(g.squares(), &vec![x, o, x, x, o, o, o, x, x]);
    assert_eq!(g.evaluate(), Outcome::Draw);
}

#[test]
fn click_at_window_corner_leaves_board_unchanged() {
    let l = Layout::new(680, 20, 3);
    let mut g = GameState::new(3);
    let r = g.tick(&l, 0, &vec![InputEvent::LeftClick { x: 0, y: 0 }]);
    assert_eq!(r, TickResult::Running);
    assert_eq!(g.squares(), &vec![Square::Empty; 9]);
    assert!(g.turn());
}

#[test]
fn clicks_while_frozen_are_drained() {
    let l = Layout::new(680, 20, 3);
    let mut g = GameState::new(3);
    let events: Vec<InputEvent> = [0u32, 4, 1, 5, 2].iter().map(|&i| center(&l, i)).collect();
    g.tick(&l, 1000, &events);
    let won = g.squares().clone();
    // Still frozen: the click is discarded and the board stays as it was.
    assert_eq!(g.tick(&l, 2000, &vec![center(&l, 8)]), TickResult::Running);
    assert_eq!(g.squares(), &won);
    // At the deadline exactly the game is still frozen.
    assert_eq!(g.tick(&l, 3000, &vec![center(&l, 8)]), TickResult::Running);
    assert_eq!(g.phase(), Phase::Frozen { until: 3000 });
    // Past the deadline: a fresh game, and the click of that tick is discarded too.
    assert_eq!(g.tick(&l, 3001, &vec![center(&l, 8)]), TickResult::Running);
    assert_eq!(g.phase(), Phase::Active);
    assert_eq!(g.squares(), &vec![Square::Empty; 9]);
    assert!(g.turn());
    // The next click is played by X on the new board.
    assert_eq!(g.tick(&l, 3002, &vec![center(&l, 8)]), TickResult::Running);
    assert_eq!(g.squares()[8], Square::X);
}

#[test]
fn quit_and_escape_stop_the_dispatch() {
    let l = Layout::new(680, 20, 3);
    let mut g = GameState::new(3);
    let events = vec![center(&l, 0), InputEvent::Quit, center(&l, 1)];
    assert_eq!(g.tick(&l, 0, &events), TickResult::Quit);
    assert_eq!(g.squares()[0], Square::X);
    assert_eq!(g.squares()[1], Square::Empty);
    let mut h = GameState::new(3);
    let events = vec![InputEvent::Other, InputEvent::EscapePressed, center(&l, 1)];
    assert_eq!(h.tick(&l, 0, &events), TickResult::Quit);
    assert_eq!(h.squares(), &vec![Square::Empty; 9]);
}

#[test]
fn quit_while_frozen_is_discarded() {
    let l = Layout::new(680, 20, 3);
    let mut g = GameState::new(3);
    endgame(&mut g, 0);
    assert_eq!(g.tick(&l, 1, &vec![InputEvent::Quit]), TickResult::Running);
}

#[test]
fn other_events_and_repeated_clicks_are_ignored() {
    let l = Layout::new(680, 20, 3);
    let mut g = GameState::new(3);
    let events = vec![InputEvent::Other, center(&l, 4), center(&l, 4), InputEvent::Other];
    assert_eq!(g.tick(&l, 0, &events), TickResult::Running);
    assert_eq!(g.squares()[4], Square::X);
    assert!(!g.turn());
    assert_eq!(g.squares().iter().filter(|s| **s != Square::Empty).count(), 1);
}
