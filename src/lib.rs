//! The game engine of an `n` by `n` tic-tac-toe played with the mouse: the board and its
//! rules, the geometry that maps window pixels to cells, and the per-tick state machine that
//! freezes the board between games.
pub mod board;
pub mod game;
pub mod layout;

pub use board::{
    evaluate_squares, get_square_flatten_index, get_winner, is_full, line_winner, LineSelector,
    Outcome, Square,
};
pub use game::{
    endgame, GameState, InputEvent, MoveRejected, Phase, TickResult, NEW_GAME_TIMEOUT_MS, SQUARES,
};
pub use layout::{get_inner_rect, get_square_from_coords, Layout, Rect};
