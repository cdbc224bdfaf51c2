use vstd::prelude::*;
use std::marker::PhantomData;
use either::Either;
use crate::board::{Board, Player, Spot, cell, find_winner, in_range, is_empty_board, lemma_with_cell_changes_one_cell, winner, with_cell};

verus! {

/// Why a move was not turned into a next state.
#[derive(Clone, Copy, Debug, PartialEq, Eq, Structural)]
pub enum GameError {
    /// The addressed cell already holds a mark.
    SpotTaken,
    /// The move completed a line of the given player: the game is over.
    Winner(Player),
}


/// Type-level tag: X is entitled to the next move.
#[derive(Clone, Copy, Debug)]
pub struct PlayerX;

/// Type-level tag: O is entitled to the next move.
#[derive(Clone, Copy, Debug)]
pub struct PlayerO;

/// A type-level tag that stands for one player and gives that player's mark.
pub trait Spotted {
    /// The player the tag stands for.
    spec fn player() -> Player;

    /// The mark the tag's player leaves on the board.
    fn spot() -> (s: Spot)
        ensures
            s == Spot::Player(Self::player()),
    ;
}

/// A tag together with the tag of the player who moves after it.
pub trait TurnOrder: Spotted {
    /// The tag of the opponent.
    type Next: Spotted;

    /// The opponent's tag stands for the other player.
    proof fn lemma_next_is_opponent()
        ensures
            <Self::Next as Spotted>::player() == Self::player().opponent(),
    ;
}

impl Spotted for PlayerX {
    open spec fn player() -> Player {
        Player::X
    }

    fn spot() -> (s: Spot) {
        Spot::Player(Player::X)
    }
}

impl Spotted for PlayerO {
    open spec fn player() -> Player {
        Player::O
    }

    fn spot() -> (s: Spot) {
        Spot::Player(Player::O)
    }
}

impl TurnOrder for PlayerX {
    type Next = PlayerO;

    proof fn lemma_next_is_opponent() {
    }
}

impl TurnOrder for PlayerO {
    type Next = PlayerX;

    proof fn lemma_next_is_opponent() {
    }
}

/// A board on which the player tagged `P` is to move.
///
/// A value of `State<PlayerX>` can only come from a move of O, and the other
/// way round, or (for O) from the start of a game.
#[derive(Debug)]
pub struct State<P> {
    pub board: Board,
    _player_marker: PhantomData<P>,
}

impl<P> Clone for State<P> {
    fn clone(&self) -> (r: Self)
        ensures
            r == *self,
    {
        State { board: self.board, _player_marker: PhantomData }
    }
}

impl<P> Copy for State<P> {
}

impl<P> View for State<P> {
    type V = Board;

    /// The board of the state.
    closed spec fn view(&self) -> Board {
        self.board
    }
}

/// What a move of `mover` at `pos` on `b` gives: `SpotTaken` on a taken cell,
/// `Winner` when it completes a line, and the new board otherwise.
pub open spec fn move_result(b: Board, mover: Player, pos: (usize, usize)) -> Result<Board, GameError> {
    if cell(b, pos.0 as int, pos.1 as int) != Spot::Empty {
        Err(GameError::SpotTaken)
    } else {
        let nb = with_cell(b, pos, Spot::Player(mover));
        match winner(nb) {
            Some(w) => Err(GameError::Winner(w)),
            None => Ok(nb),
        }
    }
}

/// Places the mark of the player tagged `P` at `pos`, which must be empty.
///
/// Fails with `SpotTaken` when the cell already holds a mark; otherwise the
/// result is the input with that one cell changed.
pub fn update_board<P: Spotted>(board: Board, pos: (usize, usize)) -> (r: Result<Board, GameError>)
    requires
        in_range(pos),
    ensures
        cell(board, pos.0 as int, pos.1 as int) != Spot::Empty ==> r == Err::<Board, GameError>(GameError::SpotTaken),
        cell(board, pos.0 as int, pos.1 as int) == Spot::Empty ==> r == Ok::<Board, GameError>(with_cell(board, pos, Spot::Player(P::player()))),
{
    let mut board = board;
    if board[pos.0][pos.1] != Spot::Empty {
        Err(GameError::SpotTaken)
    } else {
        board[pos.0][pos.1] = P::spot();
        Ok(board)
    }
}

impl<P> State<P> {
    /// A state on the given board with `P` to move.
    pub(crate) fn with_board(board: Board) -> (s: Self)
        ensures
            s@ == board,
    {
        State { board, _player_marker: PhantomData }
    }
}

impl<P: TurnOrder> State<P> {
    /// Makes the move of the player tagged `P` at `pos`, handing the turn to
    /// the opponent.
    ///
    /// Fails with `SpotTaken` when the cell is taken, and with `Winner` when
    /// the move completes a line; otherwise the new state holds the board
    /// with that one cell marked.
    pub fn next(self, pos: (usize, usize)) -> (r: Result<State<P::Next>, GameError>)
        requires
            in_range(pos),
        ensures
            <P::Next as Spotted>::player() == P::player().opponent(),
            match move_result(self@, P::player(), pos) {
                Ok(nb) => r matches Ok(s) && s@ == nb,
                Err(e) => r == Err::<State<P::Next>, GameError>(e),
            },
    {
        proof {
            P::lemma_next_is_opponent();
        }
        let board = match update_board::<P>(self.board, pos) {
            Ok(b) => b,
            Err(e) => {
                return Err(e);
            },
        };
        if let Some(w) = find_winner(&board) {
            return Err(GameError::Winner(w));
        }
        Ok(State::with_board(board))
    }
}

/// The outside enum `either::Either`, whose two public variants `Left` and
/// `Right` the session matches on.
#[verifier::external_type_specification]
#[verifier::reject_recursive_types(L)]
#[verifier::reject_recursive_types(R)]
pub struct ExEither<L, R>(Either<L, R>);

/// The game as it stands: `Left` when O is to move, `Right` when X is.
pub type GameState = Either<State<PlayerO>, State<PlayerX>>;

/// The board and the player to move, the two things a game state tells.
pub open spec fn session_view(g: GameState) -> (Board, Player) {
    match g {
        Either::Left(s) => (s@, Player::O),
        Either::Right(s) => (s@, Player::X),
    }
}

/// The outcome of one move at `pos` from board and mover `m`: on success the
/// new board with the turn handed to the opponent.
pub open spec fn step(m: (Board, Player), pos: (usize, usize)) -> Result<(Board, Player), GameError> {
    match move_result(m.0, m.1, pos) {
        Ok(nb) => Ok((nb, m.1.opponent())),
        Err(e) => Err(e),
    }
}

/// Starts a game: an empty board with O to move.
pub fn new_game() -> (g: GameState)
    ensures
        is_empty_board(session_view(g).0),
        session_view(g).1 == Player::O,
{
    let s = State::<PlayerO>::with_board([[Spot::Empty, Spot::Empty, Spot::Empty], [Spot::Empty, Spot::Empty, Spot::Empty], [Spot::Empty, Spot::Empty, Spot::Empty]]);
    Either::Left(s)
}

/// The board of the game, whoever is to move.
pub fn board(state: &GameState) -> (b: Board)
    ensures
        b == session_view(*state).0,
{
    match state {
        Either::Left(s) => s.board,
        Either::Right(s) => s.board,
    }
}

/// The player who is to move.
pub fn current_mover(state: &GameState) -> (p: Player)
    ensures
        p == session_view(*state).1,
{
    match state {
        Either::Left(_) => Player::O,
        Either::Right(_) => Player::X,
    }
}

/// Plays the move at `pos` for whoever is to move.
///
/// On success the result is the next game state, with the opponent to move;
/// `state` itself is left as it was, whatever the outcome.
pub fn submit(state: &GameState, pos: (usize, usize)) -> (r: Result<GameState, GameError>)
    requires
        in_range(pos),
    ensures
        match step(session_view(*state), pos) {
            Ok(m) => r matches Ok(g) && session_view(g) == m,
            Err(e) => r == Err::<GameState, GameError>(e),
        },
{
    match *state {
        Either::Left(s) => match s.next(pos) {
            Ok(n) => Ok(Either::Right(n)),
            Err(e) => Err(e),
        },
        Either::Right(s) => match s.next(pos) {
            Ok(n) => Ok(Either::Left(n)),
            Err(e) => Err(e),
        },
    }
}

/// The outcome of playing `moves` in order from `m`: the first rejected move
/// ends the run with its error.
pub open spec fn replay(m: (Board, Player), moves: Seq<(usize, usize)>) -> Result<(Board, Player), GameError>
    decreases moves.len(),
{
    if moves.len() == 0 {
        Ok(m)
    } else {
        match step(m, moves[0]) {
            Ok(m2) => replay(m2, moves.drop_first()),
            Err(e) => Err(e),
        }
    }
}

/// Whether every move of `moves` addresses a cell of the grid.
pub open spec fn all_in_range(moves: Seq<(usize, usize)>) -> bool {
    forall|i: int| 0 <= i < moves.len() ==> in_range(#[trigger] moves[i])
}

/// Turns alternate: after a run of successful moves the player to move is the
/// one who started when the run has even length, and the opponent otherwise.
/// A new game starts with O, so the movers go O, X, O, X, ...
pub proof fn lemma_turns_alternate(start: GameState, moves: Seq<(usize, usize)>)
    requires
        all_in_range(moves),
        replay(session_view(start), moves) is Ok,
    ensures
        replay(session_view(start), moves)->Ok_0.1 == if moves.len() % 2 == 0 {
            session_view(start).1
        } else {
            session_view(start).1.opponent()
        },
{
    lemma_replay_alternates(session_view(start), moves);
}

proof fn lemma_replay_alternates(m: (Board, Player), moves: Seq<(usize, usize)>)
    requires
        all_in_range(moves),
        replay(m, moves) is Ok,
    ensures
        replay(m, moves)->Ok_0.1 == if moves.len() % 2 == 0 {
            m.1
        } else {
            m.1.opponent()
        },
    decreases moves.len(),
{
    if moves.len() > 0 {
        let m2 = step(m, moves[0])->Ok_0;
        let rest = moves.drop_first();
        assert forall|i: int| 0 <= i < rest.len() implies in_range(#[trigger] rest[i]) by {
            assert(rest[i] == moves[i + 1]);
        }
        lemma_replay_alternates(m2, rest);
    }
}

/// A taken cell stays as it is: whatever run of moves succeeds after it, the
/// cell holds the same mark.
pub proof fn lemma_taken_cell_kept(start: GameState, moves: Seq<(usize, usize)>, row: int, col: int)
    requires
        all_in_range(moves),
        0 <= row < 3,
        0 <= col < 3,
        cell(session_view(start).0, row, col) != Spot::Empty,
        replay(session_view(start), moves) is Ok,
    ensures
        cell(replay(session_view(start), moves)->Ok_0.0, row, col) == cell(session_view(start).0, row, col),
{
    lemma_replay_keeps_cell(session_view(start), moves, row, col);
}

proof fn lemma_replay_keeps_cell(m: (Board, Player), moves: Seq<(usize, usize)>, row: int, col: int)
    requires
        all_in_range(moves),
        0 <= row < 3,
        0 <= col < 3,
        cell(m.0, row, col) != Spot::Empty,
        replay(m, moves) is Ok,
    ensures
        cell(replay(m, moves)->Ok_0.0, row, col) == cell(m.0, row, col),
    decreases moves.len(),
{
    if moves.len() > 0 {
        let m2 = step(m, moves[0])->Ok_0;
        let rest = moves.drop_first();
        assert forall|i: int| 0 <= i < rest.len() implies in_range(#[trigger] rest[i]) by {
            assert(rest[i] == moves[i + 1]);
        }
        lemma_with_cell_changes_one_cell(m.0, moves[0], Spot::Player(m.1));
        lemma_replay_keeps_cell(m2, rest, row, col);
    }
}

/// A move on a taken cell is rejected with `SpotTaken`, and since `submit`
/// only reads the game state, board and mover stay as they were.
pub proof fn lemma_taken_spot_rejected(g: GameState, pos: (usize, usize))
    requires
        in_range(pos),
        cell(session_view(g).0, pos.0 as int, pos.1 as int) != Spot::Empty,
    ensures
        step(session_view(g), pos) == Err::<(Board, Player), GameError>(GameError::SpotTaken),
{
}

} // verus!
