use vstd::prelude::*;
use crate::actor::basic_act;
use crate::actor::runnable_policy;
use crate::actor::ActionResult;
use crate::actor::Actor;
use crate::actor::ActorType;
use crate::board::Board;
use crate::side::Side;

verus! {

/// The number of turn rounds after which a headless game gives up on an
/// undecided position and stops without a result. The rules put no bound
/// on a game's length (two crowned pieces can shuffle forever), so the
/// engine imposes this explicit cap to guarantee that every play-out
/// terminates; random games on ordinary boards end far earlier.
pub const MOVE_LIMIT: usize = 100000;

/// The outcome of a finished game: the side that won, and how many
/// completed actions the game took up to the moment the winner was
/// recorded.
#[derive(Debug, Clone, Copy, PartialEq, Eq, Structural)]
pub struct GameResult {
    pub moves: usize,
    pub winner: Side,
}

/// An error that stops a game before its first turn.
#[derive(Debug, Clone, Copy, PartialEq, Eq, Structural)]
pub enum GameError {
    /// A Human policy was requested, but this engine runs headless games;
    /// interactive play needs a display-and-input collaborator around the
    /// library.
    Configuration,
}

/// One game: a board driven by two policies in strict alternation, Red
/// moving first.
pub struct Game {
    pub board: Board,
}

impl Game {
    /// A fresh headless game on a board with the starting layout.
    pub fn new(width: u8, height: u8) -> (game: Game)
        requires
            height >= 3,
        ensures
            game.board.wf(),
            game.board.width == width,
            game.board.height == height,
            forall|x: int, y: int|
                0 <= x < width && 0 <= y < height ==> #[trigger] game.board.cell(x, y)
                    == (crate::board::BoardState {
                    piece: crate::board::initial_piece(height, x, y),
                    highlighted: false,
                }),
    {
        Game { board: Board::new(width, height) }
    }

    /// Plays the game to completion: Red acts, then Blue, over and over;
    /// when a side cannot move, the opposing side is recorded as the
    /// winner and the loop stops. `Ok(None)` means the turn cap
    /// (`MOVE_LIMIT`) stopped an undecided game. A Human policy cannot
    /// run headless and is refused before the first turn.
    pub fn play(&mut self, red_actor_type: ActorType, blue_actor_type: ActorType) -> (r: Result<
        Option<GameResult>,
        GameError,
    >)
        requires
            old(self).board.wf(),
            red_actor_type == ActorType::Human || runnable_policy(red_actor_type),
            blue_actor_type == ActorType::Human || runnable_policy(blue_actor_type),
        ensures
            (r is Err) <==> (red_actor_type == ActorType::Human || blue_actor_type
                == ActorType::Human),
            r is Err ==> *final(self) == *old(self),
            final(self).board.wf(),
            final(self).board.width == old(self).board.width,
            final(self).board.height == old(self).board.height,
            (r matches Ok(Some(gr)) ==> ((gr.winner == Side::Red
                ==> !final(self).board.side_has_move(Side::Blue)) && (gr.winner == Side::Blue
                ==> !final(self).board.side_has_move(Side::Red)))),
            (red_actor_type != ActorType::Human && blue_actor_type != ActorType::Human && !old(
                self,
            ).board.side_has_move(Side::Red)) ==> (r matches Ok(Some(gr)) && gr.winner
                == Side::Blue && gr.moves == 0),
            (r matches Ok(Some(gr)) ==> gr.moves <= 2 * MOVE_LIMIT),
    {
        if red_actor_type == ActorType::Human || blue_actor_type == ActorType::Human {
            return Err(GameError::Configuration);
        }
        let red_actor = Actor { actor_type: red_actor_type, side: Side::Red };
        let blue_actor = Actor { actor_type: blue_actor_type, side: Side::Blue };

        let mut result: Option<GameResult> = None;
        let mut moves: usize = 0;
        let mut turns: usize = 0;
        while result.is_none() && turns < MOVE_LIMIT
            invariant
                self.board.wf(),
                self.board.width == old(self).board.width,
                self.board.height == old(self).board.height,
                runnable_policy(red_actor_type),
                runnable_policy(blue_actor_type),
                red_actor == (Actor { actor_type: red_actor_type, side: Side::Red }),
                blue_actor == (Actor { actor_type: blue_actor_type, side: Side::Blue }),
                turns <= MOVE_LIMIT,
                moves <= 2 * turns,
                turns == 0 ==> *self == *old(self),
                !old(self).board.side_has_move(Side::Red) ==> ((turns == 0 && result is None) || (
                result matches Some(gr) && gr.winner == Side::Blue && gr.moves == 0)),
                (result matches Some(gr) ==> ((gr.winner == Side::Red ==> !self.board.side_has_move(
                    Side::Blue,
                )) && (gr.winner == Side::Blue ==> !self.board.side_has_move(Side::Red)))),
                (result matches Some(gr) ==> gr.moves <= 2 * MOVE_LIMIT),
            decreases MOVE_LIMIT - turns,
        {
            match red_actor.act(self) {
                ActionResult::NoPiecesLeft => {
                    result = Some(GameResult { moves, winner: Side::Blue });
                },
                ActionResult::TookAction(action) => {
                    proof {
                        assert(self.board.piece_at(
                            action.to.x as int,
                            action.to.y as int,
                        ) is None);
                        assert(action.from != action.to);
                    }
                    self.board.do_action(&action);
                    moves = moves + 1;
                    match blue_actor.act(self) {
                        ActionResult::NoPiecesLeft => {
                            result = Some(GameResult { moves, winner: Side::Red });
                        },
                        ActionResult::TookAction(action) => {
                            proof {
                                assert(self.board.piece_at(
                                    action.to.x as int,
                                    action.to.y as int,
                                ) is None);
                                assert(action.from != action.to);
                            }
                            self.board.do_action(&action);
                            moves = moves + 1;
                        },
                    }
                },
            }
            turns = turns + 1;
        }
        Ok(result)
    }

    /// The engine behind a lookahead actor's sub-games: plays the random
    /// policy for both sides to completion, under the same turn cap as
    /// `play`.
    pub(crate) fn play_basic(&mut self) -> (r: Option<GameResult>)
        requires
            old(self).board.wf(),
        ensures
            final(self).board.wf(),
            final(self).board.width == old(self).board.width,
            final(self).board.height == old(self).board.height,
            (r matches Some(gr) ==> ((gr.winner == Side::Red
                ==> !final(self).board.side_has_move(Side::Blue)) && (gr.winner == Side::Blue
                ==> !final(self).board.side_has_move(Side::Red)))),
            !old(self).board.side_has_move(Side::Red) ==> (r matches Some(gr) && gr.winner
                == Side::Blue && gr.moves == 0),
            (r matches Some(gr) ==> gr.moves <= 2 * MOVE_LIMIT),
    {
        let mut result: Option<GameResult> = None;
        let mut moves: usize = 0;
        let mut turns: usize = 0;
        while result.is_none() && turns < MOVE_LIMIT
            invariant
                self.board.wf(),
                self.board.width == old(self).board.width,
                self.board.height == old(self).board.height,
                turns <= MOVE_LIMIT,
                moves <= 2 * turns,
                turns == 0 ==> *self == *old(self),
                !old(self).board.side_has_move(Side::Red) ==> ((turns == 0 && result is None) || (
                result matches Some(gr) && gr.winner == Side::Blue && gr.moves == 0)),
                (result matches Some(gr) ==> ((gr.winner == Side::Red ==> !self.board.side_has_move(
                    Side::Blue,
                )) && (gr.winner == Side::Blue ==> !self.board.side_has_move(Side::Red)))),
                (result matches Some(gr) ==> gr.moves <= 2 * MOVE_LIMIT),
            decreases MOVE_LIMIT - turns,
        {
            match basic_act(&self.board, Side::Red) {
                ActionResult::NoPiecesLeft => {
                    result = Some(GameResult { moves, winner: Side::Blue });
                },
                ActionResult::TookAction(action) => {
                    proof {
                        assert(self.board.piece_at(
                            action.to.x as int,
                            action.to.y as int,
                        ) is None);
                        assert(action.from != action.to);
                    }
                    self.board.do_action(&action);
                    moves = moves + 1;
                    match basic_act(&self.board, Side::Blue) {
                        ActionResult::NoPiecesLeft => {
                            result = Some(GameResult { moves, winner: Side::Red });
                        },
                        ActionResult::TookAction(action) => {
                            proof {
                                assert(self.board.piece_at(
                                    action.to.x as int,
                                    action.to.y as int,
                                ) is None);
                                assert(action.from != action.to);
                            }
                            self.board.do_action(&action);
                            moves = moves + 1;
                        },
                    }
                },
            }
            turns = turns + 1;
        }
        result
    }
}

} // verus!
