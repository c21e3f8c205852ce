use vstd::prelude::*;

use crate::board::{board_shape, evaluate_squares, outcome_of, Outcome, Square};
use crate::layout::{get_square_from_coords, square_from_coords, Layout};

verus! {

/// The side of the board of a default game.
pub const SQUARES: usize = 4;

/// The pause between the end of a game and the start of the next, in milliseconds.
pub const NEW_GAME_TIMEOUT_MS: u64 = 2000;

/// Whether the game takes input.
#[derive(Clone, Copy, Debug, PartialEq, Eq, Structural)]
pub enum Phase {
    /// Input is accepted and the board can change.
    Active,
    /// A game has ended; input is discarded until the clock passes `until` (milliseconds).
    Frozen { until: u64 },
}

/// Why a move was not made.
#[derive(Clone, Copy, Debug, PartialEq, Eq, Structural)]
pub enum MoveRejected {
    /// The cell already holds a mark.
    Occupied,
    /// The index is not a cell of the board.
    OutOfRange,
}

/// The number of cells of `s` that hold a mark.
pub open spec fn filled_count(s: Seq<Square>) -> nat
    decreases s.len(),
{
    if s.len() == 0 {
        0
    } else {
        filled_count(s.drop_last()) + if s.last() != Square::Empty {
            1nat
        } else {
            0nat
        }
    }
}

/// The mathematical state of a game.
pub struct GameView {
    pub phase: Phase,
    pub squares: Seq<Square>,
    /// True when `X` moves next.
    pub turn: bool,
    pub size: nat,
}

impl GameView {
    /// A board of `size` by `size` cells whose turn agrees with the number of marks placed:
    /// `X` moves after an even number of moves, `O` after an odd one.
    pub open spec fn wf(self) -> bool {
        &&& board_shape(self.squares, self.size as int)
        &&& self.turn == (filled_count(self.squares) % 2 == 0)
    }

    /// The mark placed by the next move.
    pub open spec fn mark(self) -> Square {
        if self.turn {
            Square::X
        } else {
            Square::O
        }
    }

    /// The number of moves made since the board was last cleared.
    pub open spec fn moves_made(self) -> nat {
        filled_count(self.squares)
    }

    /// What a move at cell `i` answers.
    pub open spec fn move_result(self, i: int) -> Result<(), MoveRejected> {
        if !(0 <= i < self.squares.len()) {
            Err(MoveRejected::OutOfRange)
        } else if self.squares[i] != Square::Empty {
            Err(MoveRejected::Occupied)
        } else {
            Ok(())
        }
    }

    /// The state after a move at cell `i`: the mark is placed and the turn passes when the
    /// move is accepted; nothing changes when it is rejected.
    pub open spec fn after_move(self, i: int) -> GameView {
        if self.move_result(i) is Ok {
            GameView { squares: self.squares.update(i, self.mark()), turn: !self.turn, ..self }
        } else {
            self
        }
    }

    /// A fresh game of the same size: empty board, `X` to move, input accepted.
    pub open spec fn reset_view(self) -> GameView {
        initial_view(self.size)
    }

    /// The outcome of the board.
    pub open spec fn outcome(self) -> Outcome {
        outcome_of(self.squares, self.size as int)
    }
}

/// A fresh game on a `size` by `size` board.
pub open spec fn initial_view(size: nat) -> GameView {
    GameView {
        phase: Phase::Active,
        squares: Seq::new(size * size, |_i: int| Square::Empty),
        turn: true,
        size,
    }
}

/// Placing a mark on an empty cell adds one to the number of marks.
proof fn lemma_filled_count_place(s: Seq<Square>, i: int, p: Square)
    requires
        0 <= i < s.len(),
        s[i] == Square::Empty,
        p != Square::Empty,
    ensures
        filled_count(s.update(i, p)) == filled_count(s) + 1,
    decreases s.len(),
{
    let t = s.update(i, p);
    if i == s.len() - 1 {
        assert(t.drop_last() =~= s.drop_last());
    } else {
        assert(t.drop_last() =~= s.drop_last().update(i, p));
        lemma_filled_count_place(s.drop_last(), i, p);
    }
}

/// A board with no marks has a count of zero.
proof fn lemma_filled_count_empty(s: Seq<Square>)
    requires
        forall|i: int| 0 <= i < s.len() ==> s[i] == Square::Empty,
    ensures
        filled_count(s) == 0,
    decreases s.len(),
{
    if s.len() > 0 {
        lemma_filled_count_empty(s.drop_last());
    }
}

/// A move keeps the state well formed, and an accepted one adds one to the moves made.
proof fn lemma_after_move(v: GameView, i: int)
    requires
        v.wf(),
    ensures
        v.after_move(i).wf(),
        v.move_result(i) is Ok ==> v.after_move(i).moves_made() == v.moves_made() + 1,
        v.move_result(i) is Err ==> v.after_move(i).moves_made() == v.moves_made(),
{
    if v.move_result(i) is Ok {
        lemma_filled_count_place(v.squares, i, v.mark());
    }
}

/// A fresh game is well formed.
proof fn lemma_initial_wf(size: nat)
    requires
        size >= 1,
    ensures
        initial_view(size).wf(),
        initial_view(size).moves_made() == 0,
{
    lemma_filled_count_empty(initial_view(size).squares);
}

} // verus!

verus! {

/// The latest time at which a game frozen at `now` is still frozen.
pub open spec fn freeze_deadline(now: u64) -> u64 {
    if now > u64::MAX - NEW_GAME_TIMEOUT_MS {
        u64::MAX
    } else {
        (now + NEW_GAME_TIMEOUT_MS) as u64
    }
}

/// A game: the board, whose turn it is, and whether input is taken.
pub struct GameState {
    phase: Phase,
    squares: Vec<Square>,
    turn: bool,
    size: usize,
}

impl View for GameState {
    type V = GameView;

    closed spec fn view(&self) -> GameView {
        GameView { phase: self.phase, squares: self.squares@, turn: self.turn, size: self.size as nat }
    }
}

/// A row-major board of `len` empty cells.
fn empty_squares(len: usize) -> (r: Vec<Square>)
    ensures
        r@ =~= Seq::new(len as nat, |_i: int| Square::Empty),
{
    let mut v: Vec<Square> = Vec::with_capacity(len);
    let mut i: usize = 0;
    while i < len
        invariant
            i <= len,
            v@ =~= Seq::new(i as nat, |_i: int| Square::Empty),
        decreases len - i,
    {
        v.push(Square::Empty);
        i = i + 1;
    }
    v
}

impl GameState {
    /// A fresh game on a `size` by `size` board: every cell empty, `X` to move, input accepted.
    pub fn new(size: usize) -> (r: GameState)
        requires
            size >= 1,
            size * size <= usize::MAX,
        ensures
            r@ == initial_view(size as nat),
            r@.wf(),
    {
        proof {
            lemma_initial_wf(size as nat);
        }
        GameState { phase: Phase::Active, squares: empty_squares(size * size), turn: true, size }
    }

    /// The side of the board.
    pub fn size(&self) -> (r: usize)
        ensures
            r == self@.size,
    {
        self.size
    }

    /// The cells of the board, row by row.
    pub fn squares(&self) -> (r: &Vec<Square>)
        ensures
            r@ == self@.squares,
    {
        &self.squares
    }

    /// True when `X` moves next.
    pub fn turn(&self) -> (r: bool)
        ensures
            r == self@.turn,
    {
        self.turn
    }

    /// Whether the game takes input.
    pub fn phase(&self) -> (r: Phase)
        ensures
            r == self@.phase,
    {
        self.phase
    }

    /// Places the mark of the player to move on cell `index` and passes the turn. A move on an
    /// occupied cell, or on an index outside the board, changes nothing.
    pub fn apply_move(&mut self, index: usize) -> (r: Result<(), MoveRejected>)
        requires
            old(self)@.wf(),
        ensures
            final(self)@.wf(),
            r == old(self)@.move_result(index as int),
            final(self)@ == old(self)@.after_move(index as int),
            r is Err ==> final(self)@ == old(self)@,
            r is Ok ==> final(self)@.squares[index as int] == old(self)@.mark()
                && final(self)@.turn == !old(self)@.turn
                && final(self)@.moves_made() == old(self)@.moves_made() + 1,
    {
        proof {
            lemma_after_move(self@, index as int);
        }
        if index >= self.squares.len() {
            return Err(MoveRejected::OutOfRange);
        }
        if self.squares[index] != Square::Empty {
            return Err(MoveRejected::Occupied);
        }
        let mark = if self.turn {
            Square::X
        } else {
            Square::O
        };
        self.squares.set(index, mark);
        self.turn = !self.turn;
        Ok(())
    }

    /// Starts a new game of the same size: every cell empty, `X` to move, input accepted.
    pub fn reset(&mut self)
        requires
            old(self)@.wf(),
        ensures
            final(self)@ == old(self)@.reset_view(),
            final(self)@.wf(),
            final(self)@.phase == Phase::Active,
            final(self)@.turn,
            final(self)@.size == old(self)@.size,
            final(self)@.squares.len() == old(self)@.squares.len(),
            forall|i: int| 0 <= i < final(self)@.squares.len() ==> final(self)@.squares[i] == Square::Empty,
    {
        proof {
            lemma_initial_wf(self.size as nat);
        }
        let len = self.squares.len();
        self.squares = empty_squares(len);
        self.turn = true;
        self.phase = Phase::Active;
    }

    /// The outcome of the board: a win for the mark of the first won line, else a draw when
    /// every cell is taken, else the game goes on.
    pub fn evaluate(&self) -> (r: Outcome)
        requires
            self@.wf(),
        ensures
            r == self@.outcome(),
    {
        evaluate_squares(&self.squares, self.size)
    }
}

impl Default for GameState {
    /// A fresh game on the default board of `SQUARES` by `SQUARES` cells.
    fn default() -> (r: GameState)
        ensures
            r@ == initial_view(SQUARES as nat),
            r@.wf(),
    {
        GameState::new(SQUARES)
    }
}

/// Freezes the game in preparation of a new game: input is discarded until
/// `NEW_GAME_TIMEOUT_MS` milliseconds after `now`.
pub fn endgame(state: &mut GameState, now: u64)
    ensures
        final(state)@ == (GameView { phase: Phase::Frozen { until: freeze_deadline(now) }, ..old(state)@ }),
{
    let until = if now > u64::MAX - NEW_GAME_TIMEOUT_MS {
        u64::MAX
    } else {
        now + NEW_GAME_TIMEOUT_MS
    };
    state.phase = Phase::Frozen { until };
}

} // verus!

verus! {

/// An input event, as far as the game reads it.
#[derive(Clone, Copy, Debug, PartialEq, Eq, Structural)]
pub enum InputEvent {
    /// The window is asked to close.
    Quit,
    /// The escape key is pressed; treated as `Quit`.
    EscapePressed,
    /// The primary mouse button is pressed at window pixel (`x`, `y`).
    LeftClick { x: i32, y: i32 },
    /// Anything else; ignored.
    Other,
}

/// What a tick asks of the loop that runs the game.
#[derive(Clone, Copy, Debug, PartialEq, Eq, Structural)]
pub enum TickResult {
    /// Stop the program.
    Quit,
    /// Redraw and go on.
    Running,
    /// A game has just ended with the given outcome (a win or a draw): report it, redraw and go on.
    GameOver(Outcome),
}

impl GameView {
    /// The state after a click at window pixel (`x`, `y`): a move on the cell under it, if any.
    pub open spec fn click(self, layout: Layout, x: int, y: int) -> GameView {
        match square_from_coords(layout, x, y) {
            Some(i) => self.after_move(i),
            None => self,
        }
    }
}

/// Dispatches `events` in order on an active game: the state after them, and whether a quit or
/// escape event stopped the dispatch (the events after it are not looked at).
pub open spec fn run_events(v: GameView, layout: Layout, events: Seq<InputEvent>) -> (GameView, bool)
    decreases events.len(),
{
    if events.len() == 0 {
        (v, false)
    } else {
        match events[0] {
            InputEvent::Quit => (v, true),
            InputEvent::EscapePressed => (v, true),
            InputEvent::LeftClick { x, y } => run_events(v.click(layout, x as int, y as int), layout, events.drop_first()),
            InputEvent::Other => run_events(v, layout, events.drop_first()),
        }
    }
}

/// One tick of the game at time `now` with the events that arrived since the last tick.
///
/// A frozen game discards every event; once `now` is past its deadline it becomes a fresh
/// game. An active game dispatches the events; unless they ask to quit, the board is then
/// evaluated, and a win or a draw freezes the game and is reported.
pub open spec fn tick_spec(v: GameView, layout: Layout, now: u64, events: Seq<InputEvent>) -> (GameView, TickResult) {
    match v.phase {
        Phase::Frozen { until } => if now > until {
            (v.reset_view(), TickResult::Running)
        } else {
            (v, TickResult::Running)
        },
        Phase::Active => {
            let (w, quit) = run_events(v, layout, events);
            if quit {
                (w, TickResult::Quit)
            } else if w.outcome() == Outcome::InProgress {
                (w, TickResult::Running)
            } else {
                (GameView { phase: Phase::Frozen { until: freeze_deadline(now) }, ..w }, TickResult::GameOver(w.outcome()))
            }
        },
    }
}

impl GameState {
    /// Runs one tick of the game at time `now` (milliseconds) on the events that arrived since
    /// the last tick.
    pub fn tick(&mut self, layout: &Layout, now: u64, events: &Vec<InputEvent>) -> (r: TickResult)
        requires
            old(self)@.wf(),
            layout.wf(),
        ensures
            final(self)@.wf(),
            final(self)@ == tick_spec(old(self)@, *layout, now, events@).0,
            r == tick_spec(old(self)@, *layout, now, events@).1,
    {
        match self.phase {
            Phase::Frozen { until } => {
                if now > until {
                    self.reset();
                }
                return TickResult::Running;
            },
            Phase::Active => {},
        }
        let ghost start = self@;
        assert(events@.subrange(0, events@.len() as int) =~= events@);
        let mut k: usize = 0;
        while k < events.len()
            invariant
                self@.wf(),
                layout.wf(),
                k <= events@.len(),
                start == old(self)@,
                start.phase == Phase::Active,
                self@.phase == Phase::Active,
                run_events(start, *layout, events@) == run_events(self@, *layout, events@.subrange(k as int, events@.len() as int)),
            decreases events@.len() - k,
        {
            let ghost rest = events@.subrange(k as int, events@.len() as int);
            assert(rest[0] == events@[k as int]);
            assert(rest.drop_first() =~= events@.subrange(k + 1, events@.len() as int));
            match events[k] {
                InputEvent::Quit => {
                    return TickResult::Quit;
                },
                InputEvent::EscapePressed => {
                    return TickResult::Quit;
                },
                InputEvent::LeftClick { x, y } => {
                    if let Some(i) = get_square_from_coords(layout, x, y) {
                        let _ = self.apply_move(i);
                    }
                },
                InputEvent::Other => {},
            }
            k = k + 1;
        }
        assert(events@.subrange(k as int, events@.len() as int).len() == 0);
        let outcome = self.evaluate();
        match outcome {
            Outcome::InProgress => TickResult::Running,
            _ => {
                endgame(self, now);
                TickResult::GameOver(outcome)
            },
        }
    }
}

} // verus!

verus! {

/// The state after attempting the moves at `moves`, in order.
pub open spec fn play(v: GameView, moves: Seq<int>) -> GameView
    decreases moves.len(),
{
    if moves.len() == 0 {
        v
    } else {
        play(v.after_move(moves[0]), moves.drop_first())
    }
}

/// How many of the moves at `moves`, attempted in order, are accepted.
pub open spec fn accepted_count(v: GameView, moves: Seq<int>) -> nat
    decreases moves.len(),
{
    if moves.len() == 0 {
        0
    } else {
        (if v.move_result(moves[0]) is Ok {
            1nat
        } else {
            0nat
        }) + accepted_count(v.after_move(moves[0]), moves.drop_first())
    }
}

/// Each accepted move adds one to the moves made, and every state on the way is well formed.
proof fn lemma_play(v: GameView, moves: Seq<int>)
    requires
        v.wf(),
    ensures
        play(v, moves).wf(),
        play(v, moves).moves_made() == v.moves_made() + accepted_count(v, moves),
    decreases moves.len(),
{
    if moves.len() > 0 {
        lemma_after_move(v, moves[0]);
        lemma_play(v.after_move(moves[0]), moves.drop_first());
    }
}

/// The turn strictly alternates: after any sequence of attempted moves on a fresh game, of
/// which `k` are accepted, the next mark is `X` when `k` is even and `O` when it is odd.
pub proof fn lemma_turn_alternates(v: GameView, moves: Seq<int>)
    requires
        v.wf(),
    ensures
        play(v.reset_view(), moves).mark() == if accepted_count(v.reset_view(), moves) % 2 == 0 {
            Square::X
        } else {
            Square::O
        },
{
    lemma_initial_wf(v.size);
    lemma_play(v.reset_view(), moves);
}

} // verus!
