use vstd::prelude::*;
use rand::Rng;
use crate::board::Board;
use crate::game::Game;
use crate::game::GameResult;
use crate::point::Point;
use crate::side::Side;

verus! {

/// The policies a simulated (lookahead) actor may use for its sub-games.
/// Kept apart from `ActorType` so that a simulated actor cannot nest
/// another simulated actor inside its own simulations.
#[derive(Debug, Clone, Copy, PartialEq, Eq, Structural)]
pub enum SimulatedActorType {
    Random,
    MostKills,
}

/// A per-side decision policy.
#[derive(Debug, Clone, Copy, PartialEq, Eq, Structural)]
pub enum ActorType {
    Human,
    Random,
    MostKills,
    Simulated(SimulatedActorType),
}

impl From<SimulatedActorType> for ActorType {
    fn from(input: SimulatedActorType) -> (r: Self) {
        match input {
            SimulatedActorType::Random => ActorType::Random,
            SimulatedActorType::MostKills => ActorType::MostKills,
        }
    }
}

impl vstd::std_specs::convert::FromSpecImpl<SimulatedActorType> for ActorType {
    open spec fn obeys_from_spec() -> bool {
        true
    }

    open spec fn from_spec(input: SimulatedActorType) -> Self {
        match input {
            SimulatedActorType::Random => ActorType::Random,
            SimulatedActorType::MostKills => ActorType::MostKills,
        }
    }
}

/// A decision policy bound to the side it plays for.
pub struct Actor {
    pub actor_type: ActorType,
    pub side: Side,
}

/// One turn's move: lift the piece standing on `from` and put it down on `to`.
#[derive(Debug, Clone, Copy, PartialEq, Eq, Structural)]
pub struct Action {
    pub from: Point,
    pub to: Point,
}

/// What an actor answers when asked to move.
#[derive(Debug, PartialEq, Eq, Structural)]
pub enum ActionResult {
    TookAction(Action),
    NoPiecesLeft,
}

/// A policy the headless engine can run to completion: random play, or
/// lookahead whose sub-games use random play. `Human` needs an
/// interactive collaborator, and `MostKills` (in either position) is an
/// intentionally unimplemented policy whose selection is a fatal error,
/// never silently substituted.
pub open spec fn runnable_policy(t: ActorType) -> bool {
    t == ActorType::Random || t == ActorType::Simulated(SimulatedActorType::Random)
}

/// A win for `side` in a simulated play-out. An unfinished play-out
/// (stopped by the turn cap) counts as no win.
pub open spec fn sim_is_win(side: Side, r: Option<GameResult>) -> bool {
    match r {
        Some(gr) => gr.winner == side,
        None => false,
    }
}

/// How long a simulated play-out lasted, for ranking candidates. An
/// unfinished play-out outlasts every finished one.
pub open spec fn sim_moves(r: Option<GameResult>) -> int {
    match r {
        Some(gr) => gr.moves as int,
        None => usize::MAX as int + 1,
    }
}

/// Relies on rand's `Rng::gen_range` on `thread_rng`: the sampled value
/// lies within the half-open range it is given (it panics on an empty
/// range, which the precondition rules out).
#[verifier::external_body]
fn random_below(n: usize) -> (r: usize)
    requires
        n > 0,
    ensures
        r < n,
{
    rand::thread_rng().gen_range(0..n)
}

/// One turn of the uniformly random policy: a uniformly random origin
/// from the legal-move map, then a uniformly random destination from
/// that origin's destination set.
fn random_act(board: &Board, side: Side, all_moves: &Vec<(Point, Vec<Point>)>) -> (r: ActionResult)
    requires
        board.wf(),
        board.is_move_map(side, all_moves@),
        all_moves@.len() > 0,
    ensures
        r is TookAction,
        (r matches ActionResult::TookAction(a) ==> board.is_legal_action(side, a)),
{
    let piece_index = random_below(all_moves.len());
    let entry = &all_moves[piece_index];
    proof {
        assert(board.entry_ok(side, entry.0, entry.1@));
    }
    let move_index = random_below(entry.1.len());
    let chosen_move = entry.1[move_index];
    ActionResult::TookAction(Action { from: entry.0, to: chosen_move })
}

/// One turn for `side` under the random policy, straight from the board:
/// `NoPiecesLeft` exactly when the side has no legal move.
pub(crate) fn basic_act(board: &Board, side: Side) -> (r: ActionResult)
    requires
        board.wf(),
    ensures
        (r == ActionResult::NoPiecesLeft) <==> !board.side_has_move(side),
        (r matches ActionResult::TookAction(a) ==> board.is_legal_action(side, a)),
{
    let all_moves = board.get_all_moves(side);
    proof {
        board.lemma_move_map_empty(side, all_moves@);
    }
    if all_moves.len() == 0 {
        return ActionResult::NoPiecesLeft;
    }
    random_act(board, side, &all_moves)
}

/// Plays one candidate action out on a private copy of the board: the
/// action is applied to the copy, which is then played to completion
/// with the sub-policy for both sides, Red moving first. The returned
/// outcome depends on the random draws of that play-out; `None` means
/// the turn cap stopped it before either side won. When the candidate
/// leaves Red without a move, no draws are involved: the play-out ends
/// at once with Blue the winner.
pub fn simulate_action(board: &Board, action: &Action, actor_type: SimulatedActorType) -> (r:
    Option<GameResult>)
    requires
        board.wf(),
        board.in_bounds(action.from),
        board.in_bounds(action.to),
        board.piece_at(action.from.x as int, action.from.y as int) is Some,
        board.piece_at(action.to.x as int, action.to.y as int) is None,
        actor_type == SimulatedActorType::Random,
    ensures
        (forall|post: Board|
            Board::apply_result(*board, *action, post) ==> !post.side_has_move(Side::Red)) ==> (
        r matches Some(gr) && gr.winner == Side::Blue && gr.moves == 0),
        (r matches Some(gr) ==> gr.moves <= 2 * crate::game::MOVE_LIMIT),
{
    let mut game = Game { board: board.clone() };
    proof {
        assert(game.board.piece_at(action.from.x as int, action.from.y as int) == board.piece_at(
            action.from.x as int,
            action.from.y as int,
        ));
        assert(game.board.piece_at(action.to.x as int, action.to.y as int) == board.piece_at(
            action.to.x as int,
            action.to.y as int,
        ));
        assert(action.from != action.to);
    }
    game.board.do_action(action);
    game.play_basic()
}

/// The candidate a lookahead actor selects, as an index into `results`:
/// if any play-out was won, the winning one with the fewest moves (the
/// fastest forced win); otherwise the one that lasted the most moves
/// (the slowest loss, an unfinished play-out counting as longest). Ties
/// go to the earliest candidate, which makes the choice deterministic:
/// candidates come in map order, lowest origin first, then lowest
/// destination, in column-first scan order.
pub fn pick_best(side: Side, results: &Vec<(Action, Option<GameResult>)>) -> (best: usize)
    requires
        results@.len() > 0,
    ensures
        best < results@.len(),
        (exists|i: int| 0 <= i < results@.len() && sim_is_win(side, (#[trigger] results@[i]).1))
            ==> {
            &&& sim_is_win(side, results@[best as int].1)
            &&& forall|i: int|
                0 <= i < results@.len() && sim_is_win(side, (#[trigger] results@[i]).1)
                    ==> sim_moves(results@[best as int].1) <= sim_moves(results@[i].1)
            &&& forall|i: int|
                0 <= i < best as int && sim_is_win(side, (#[trigger] results@[i]).1)
                    ==> sim_moves(results@[best as int].1) < sim_moves(results@[i].1)
        },
        (!exists|i: int| 0 <= i < results@.len() && sim_is_win(side, (#[trigger] results@[i]).1))
            ==> {
            &&& forall|i: int|
                0 <= i < results@.len() ==> sim_moves(results@[best as int].1) >= sim_moves(
                    (#[trigger] results@[i]).1,
                )
            &&& forall|i: int|
                0 <= i < best as int ==> sim_moves(results@[best as int].1) > sim_moves(
                    (#[trigger] results@[i]).1,
                )
        },
{
    let mut best_win: usize = 0;
    let mut have_win = false;
    let mut best_all: usize = 0;
    let mut j: usize = 1;

    if is_win(side, &results[0].1) {
        have_win = true;
    }
    while j < results.len()
        invariant
            1 <= j <= results@.len(),
            best_all < j,
            have_win ==> best_win < j,
            have_win ==> sim_is_win(side, results@[best_win as int].1),
            have_win ==> forall|i: int|
                0 <= i < j && sim_is_win(side, (#[trigger] results@[i]).1) ==> sim_moves(
                    results@[best_win as int].1,
                ) <= sim_moves(results@[i].1),
            have_win ==> forall|i: int|
                0 <= i < best_win as int && sim_is_win(side, (#[trigger] results@[i]).1)
                    ==> sim_moves(results@[best_win as int].1) < sim_moves(results@[i].1),
            !have_win ==> forall|i: int|
                0 <= i < j ==> !sim_is_win(side, (#[trigger] results@[i]).1),
            forall|i: int|
                0 <= i < j ==> sim_moves(results@[best_all as int].1) >= sim_moves(
                    (#[trigger] results@[i]).1,
                ),
            forall|i: int|
                0 <= i < best_all as int ==> sim_moves(results@[best_all as int].1) > sim_moves(
                    (#[trigger] results@[i]).1,
                ),
        decreases results@.len() - j as int,
    {
        if is_win(side, &results[j].1) {
            if !have_win {
                have_win = true;
                best_win = j;
            } else if shorter(&results[j].1, &results[best_win].1) {
                best_win = j;
            }
        }
        if longer(&results[j].1, &results[best_all].1) {
            best_all = j;
        }
        j += 1;
    }
    if have_win {
        best_win
    } else {
        best_all
    }
}

/// The play-out was won by `side`.
fn is_win(side: Side, r: &Option<GameResult>) -> (b: bool)
    ensures
        b == sim_is_win(side, *r),
{
    match r {
        Some(gr) => gr.winner == side,
        None => false,
    }
}

/// `a` lasted strictly fewer moves than `b`.
fn shorter(a: &Option<GameResult>, b: &Option<GameResult>) -> (r: bool)
    ensures
        r == (sim_moves(*a) < sim_moves(*b)),
{
    match (a, b) {
        (Some(ga), Some(gb)) => ga.moves < gb.moves,
        (Some(_), None) => true,
        (None, _) => false,
    }
}

/// `a` lasted strictly more moves than `b`.
fn longer(a: &Option<GameResult>, b: &Option<GameResult>) -> (r: bool)
    ensures
        r == (sim_moves(*a) > sim_moves(*b)),
{
    match (a, b) {
        (Some(ga), Some(gb)) => ga.moves > gb.moves,
        (None, Some(_)) => true,
        (_, None) => false,
    }
}

/// One turn of the lookahead policy: every (origin, destination) pair in
/// the legal-move map is played out on its own copy of the board with
/// the sub-policy for both sides; only after every play-out has finished
/// is the best candidate chosen, per `pick_best`.
#[verifier::loop_isolation(false)]
fn simulated_act(
    board: &Board,
    side: Side,
    all_moves: &Vec<(Point, Vec<Point>)>,
    simulated_actor: SimulatedActorType,
) -> (r: ActionResult)
    requires
        board.wf(),
        board.is_move_map(side, all_moves@),
        all_moves@.len() > 0,
        simulated_actor == SimulatedActorType::Random,
    ensures
        r is TookAction,
        (r matches ActionResult::TookAction(a) ==> board.is_legal_action(side, a)),
{
    let mut candidates: Vec<Action> = Vec::new();
    let mut i: usize = 0;
    while i < all_moves.len()
        invariant
            board.wf(),
            board.is_move_map(side, all_moves@),
            i <= all_moves@.len(),
            i > 0 ==> candidates@.len() > 0,
            forall|k: int|
                0 <= k < candidates@.len() ==> board.is_legal_action(
                    side,
                    #[trigger] candidates@[k],
                ),
        decreases all_moves@.len() - i as int,
    {
        let entry = &all_moves[i];
        proof {
            assert(board.entry_ok(side, entry.0, entry.1@));
        }
        let mut k: usize = 0;
        while k < entry.1.len()
            invariant
                board.wf(),
                board.entry_ok(side, entry.0, entry.1@),
                k <= entry.1@.len(),
                k > 0 || i > 0 ==> candidates@.len() > 0,
                forall|c: int|
                    0 <= c < candidates@.len() ==> board.is_legal_action(
                        side,
                        #[trigger] candidates@[c],
                    ),
            decreases entry.1@.len() - k as int,
        {
            candidates.push(Action { from: entry.0, to: entry.1[k] });
            k += 1;
        }
        i += 1;
    }

    let mut results: Vec<(Action, Option<GameResult>)> = Vec::new();
    let mut j: usize = 0;
    while j < candidates.len()
        invariant
            board.wf(),
            results@.len() == j as int,
            j <= candidates@.len(),
            forall|k: int|
                0 <= k < candidates@.len() ==> board.is_legal_action(
                    side,
                    #[trigger] candidates@[k],
                ),
            forall|k: int| 0 <= k < j as int ==> (#[trigger] results@[k]).0 == candidates@[k],
        decreases candidates@.len() - j as int,
    {
        let action = candidates[j];
        let outcome = simulate_action(board, &action, simulated_actor);
        results.push((action, outcome));
        j += 1;
    }

    let best = pick_best(side, &results);
    ActionResult::TookAction(results[best].0)
}

impl Actor {
    /// Computes this actor's move against the current board: the answer
    /// is `NoPiecesLeft` exactly when this actor's side has no legal
    /// move (the loss signal), and otherwise an action drawn from the
    /// side's legal-move map, chosen by this actor's policy.
    pub fn act(&self, game: &Game) -> (r: ActionResult)
        requires
            game.board.wf(),
            runnable_policy(self.actor_type),
        ensures
            (r == ActionResult::NoPiecesLeft) <==> !game.board.side_has_move(self.side),
            (r matches ActionResult::TookAction(a) ==> game.board.is_legal_action(self.side, a)),
    {
        let all_moves = game.board.get_all_moves(self.side);
        proof {
            game.board.lemma_move_map_empty(self.side, all_moves@);
        }
        if all_moves.len() == 0 {
            return ActionResult::NoPiecesLeft;
        }
        match self.actor_type {
            ActorType::Simulated(simulated_actor) => simulated_act(
                &game.board,
                self.side,
                &all_moves,
                simulated_actor,
            ),
            _ => random_act(&game.board, self.side, &all_moves),
        }
    }
}

} // verus!
