use checkers::actor::{Action, ActionResult, Actor, ActorType, SimulatedActorType};
use checkers::board::{contains_point, map_find, Board};
use checkers::game::{Game, GameError, GameResult};
use checkers::piece::Piece;
use checkers::point::Point;
use checkers::side::Side;

fn red() -> Piece {
    Piece { side: Side::Red, crowned: false }
}

fn blue() -> Piece {
    Piece { side: Side::Blue, crowned: false }
}

fn clear(board: &mut Board) {
    for column in board.state.iter_mut() {
        for cell in column.iter_mut() {
            cell.piece = None;
        }
    }
}

fn piece_at(board: &Board, x: u8, y: u8) -> Option<Piece> {
    board.state[x as usize][y as usize].piece
}

#[test]
fn initial_layout_standard_board() {
    let board = Board::new(8, 8);
    assert_eq!(board.width, 8);
    assert_eq!(board.height, 8);
    let mut reds = 0;
    let mut blues = 0;
    for x in 0..8u8 {
        for y in 0..8u8 {
            match piece_at(&board, x, y) {
                Some(p) => {
                    assert!(x % 2 == y % 2, "piece on a light square at ({x}, {y})");
                    assert!(!p.crowned);
                    if p.side == Side::Red {
                        assert!(y <= 2);
                        reds += 1;
                    } else {
                        assert!(y >= 5);
                        blues += 1;
                    }
                }
                None => {
                    assert!(x % 2 != y % 2 || (y == 3 || y == 4));
                }
            }
        }
    }
    assert_eq!(reds, 12);
    assert_eq!(blues, 12);
    assert!(!board.state[0][0].highlighted);
}

#[test]
fn initial_layout_small_boards() {
    // Height seven: three Red rows, one neutral row, three Blue rows.
    let board = Board::new(3, 7);
    assert_eq!(piece_at(&board, 0, 2), Some(red()));
    assert_eq!(piece_at(&board, 1, 3), None);
    assert_eq!(piece_at(&board, 0, 3), None);
    assert_eq!(piece_at(&board, 0, 4), Some(blue()));
    assert_eq!(piece_at(&board, 2, 6), Some(blue()));
    // Height three: the zones overlap and Red takes every dark square.
    let tiny = Board::new(3, 3);
    for x in 0..3u8 {
        for y in 0..3u8 {
            if x % 2 == y % 2 {
                assert_eq!(piece_at(&tiny, x, y), Some(red()));
            } else {
                assert_eq!(piece_at(&tiny, x, y), None);
            }
        }
    }
}

// Scenario: the opening legal-move map of the standard board. Movement is
// unrestricted-distance and path-blind, so every Red piece can reach some
// empty dark square in rows three or four, and the map holds all twelve
// pieces, not only the front row.
#[test]
fn opening_move_map() {
    let board = Board::new(8, 8);
    let map = board.get_all_moves(Side::Red);
    assert_eq!(map.len(), 12);
    // Origins come in column-first scan order.
    for w in map.windows(2) {
        let a = w[0].0;
        let b = w[1].0;
        assert!(a.x < b.x || (a.x == b.x && a.y < b.y));
    }
    // The back-row corner piece slides past its own pieces to row three.
    let i = map_find(&map, Point { x: 0, y: 0 }).expect("corner piece can move");
    assert_eq!(map[i].1, vec![Point { x: 3, y: 3 }, Point { x: 4, y: 4 }]);
    // A front-row piece sees all four empty cells on its diagonals.
    let i = map_find(&map, Point { x: 2, y: 2 }).expect("front piece can move");
    assert_eq!(
        map[i].1,
        vec![
            Point { x: 0, y: 4 },
            Point { x: 1, y: 3 },
            Point { x: 3, y: 3 },
            Point { x: 4, y: 4 },
        ]
    );
}

// Scenario: one Red piece at the origin and no Blue pieces anywhere; Blue
// has no legal move, so acting for Blue reports the loss immediately.
#[test]
fn lone_red_piece_blue_has_lost() {
    let mut game = Game::new(8, 8);
    clear(&mut game.board);
    game.board.state[0][0].piece = Some(red());
    let actor = Actor { actor_type: ActorType::Random, side: Side::Blue };
    assert_eq!(actor.act(&game), ActionResult::NoPiecesLeft);
}

// Scenario: Red at (2, 2), Blue at (3, 3), (4, 4) empty. The occupied
// cell in between does not block the move, and applying it captures the
// Blue piece.
#[test]
fn jump_capture_over_enemy() {
    let mut board = Board::new(8, 8);
    clear(&mut board);
    board.state[2][2].piece = Some(red());
    board.state[3][3].piece = Some(blue());
    let dests = board.valid_moves(&Point { x: 2, y: 2 }, red());
    assert!(dests.contains(&Point { x: 4, y: 4 }));
    assert!(!dests.contains(&Point { x: 3, y: 3 }), "occupied cells are no destinations");
    board.do_action(&Action { from: Point { x: 2, y: 2 }, to: Point { x: 4, y: 4 } });
    assert_eq!(piece_at(&board, 2, 2), None);
    assert_eq!(piece_at(&board, 3, 3), None, "the enemy in between is captured");
    // Row four is not the far edge of an eight-row board: no crown.
    assert_eq!(piece_at(&board, 4, 4), Some(red()));
}

#[test]
fn captures_work_in_every_direction() {
    let mut board = Board::new(8, 8);
    clear(&mut board);
    board.state[4][4].piece = Some(Piece { side: Side::Red, crowned: true });
    board.state[2][2].piece = Some(blue());
    board.state[3][3].piece = Some(blue());
    board.state[5][5].piece = Some(blue());
    board.state[5][3].piece = Some(blue());
    board.state[3][5].piece = Some(blue());
    // Down-left across two enemies: both captured.
    board.do_action(&Action { from: Point { x: 4, y: 4 }, to: Point { x: 1, y: 1 } });
    assert_eq!(piece_at(&board, 2, 2), None);
    assert_eq!(piece_at(&board, 3, 3), None);
    assert_eq!(piece_at(&board, 1, 1), Some(Piece { side: Side::Red, crowned: true }));
    // Up-right: the enemy at (5, 5) goes when crossing it.
    board.do_action(&Action { from: Point { x: 1, y: 1 }, to: Point { x: 6, y: 6 } });
    assert_eq!(piece_at(&board, 5, 5), None);
    // Up-left and down-right sweeps only touch the moved diagonal:
    // (5, 3) and (3, 5) still stand.
    assert_eq!(piece_at(&board, 5, 3), Some(blue()));
    assert_eq!(piece_at(&board, 3, 5), Some(blue()));
    board.do_action(&Action { from: Point { x: 6, y: 6 }, to: Point { x: 2, y: 2 } });
    assert_eq!(piece_at(&board, 3, 3), None);
    assert_eq!(piece_at(&board, 5, 5), None);
}

#[test]
fn friendly_pieces_in_the_span_survive() {
    let mut board = Board::new(8, 8);
    clear(&mut board);
    board.state[0][0].piece = Some(red());
    board.state[1][1].piece = Some(red());
    board.state[2][2].piece = Some(blue());
    board.do_action(&Action { from: Point { x: 0, y: 0 }, to: Point { x: 3, y: 3 } });
    assert_eq!(piece_at(&board, 0, 0), None);
    assert_eq!(piece_at(&board, 1, 1), Some(red()), "friendly pieces are never captured");
    assert_eq!(piece_at(&board, 2, 2), None, "the enemy in the span is captured");
    assert_eq!(piece_at(&board, 3, 3), Some(red()));
}

#[test]
fn promotion_at_the_far_edge() {
    let mut board = Board::new(8, 8);
    clear(&mut board);
    board.state[4][4].piece = Some(red());
    board.state[3][3].piece = Some(blue());
    // Red crowns on the top row.
    board.do_action(&Action { from: Point { x: 4, y: 4 }, to: Point { x: 7, y: 7 } });
    assert_eq!(piece_at(&board, 7, 7), Some(Piece { side: Side::Red, crowned: true }));
    // Blue crowns on row zero.
    board.do_action(&Action { from: Point { x: 3, y: 3 }, to: Point { x: 0, y: 0 } });
    assert_eq!(piece_at(&board, 0, 0), Some(Piece { side: Side::Blue, crowned: true }));
    // A crowned piece stays crowned wherever it lands.
    board.do_action(&Action { from: Point { x: 7, y: 7 }, to: Point { x: 5, y: 5 } });
    assert_eq!(piece_at(&board, 5, 5), Some(Piece { side: Side::Red, crowned: true }));
}

#[test]
fn uncrowned_pieces_never_move_backward() {
    let mut board = Board::new(8, 8);
    clear(&mut board);
    board.state[4][4].piece = Some(blue());
    let dests = board.valid_moves(&Point { x: 4, y: 4 }, blue());
    for d in &dests {
        assert!(d.y <= 4, "an uncrowned Blue piece moves toward row zero only");
    }
    assert!(dests.contains(&Point { x: 1, y: 1 }));
    let crowned = Piece { side: Side::Blue, crowned: true };
    board.state[4][4].piece = Some(crowned);
    let dests = board.valid_moves(&Point { x: 4, y: 4 }, crowned);
    assert!(dests.contains(&Point { x: 7, y: 7 }), "a crowned piece moves either way");
    assert!(dests.contains(&Point { x: 1, y: 1 }));
}

#[test]
fn destinations_come_in_scan_order() {
    let mut board = Board::new(8, 8);
    clear(&mut board);
    board.state[4][4].piece = Some(Piece { side: Side::Red, crowned: true });
    let dests = board.valid_moves(&Point { x: 4, y: 4 }, Piece { side: Side::Red, crowned: true });
    for w in dests.windows(2) {
        assert!(w[0].x < w[1].x || (w[0].x == w[1].x && w[0].y < w[1].y));
    }
}

#[test]
fn highlight_flags_are_settable_and_survive_moves() {
    let mut board = Board::new(8, 8);
    clear(&mut board);
    board.state[5][5].highlighted = true;
    board.state[0][0].piece = Some(red());
    board.do_action(&Action { from: Point { x: 0, y: 0 }, to: Point { x: 2, y: 2 } });
    assert!(board.state[5][5].highlighted);
    assert!(!board.state[0][0].highlighted);
}

// The random policy only ever answers with a pair out of the current
// legal-move map.
#[test]
fn random_actions_come_from_the_move_map() {
    let game = Game::new(8, 8);
    let actor = Actor { actor_type: ActorType::Random, side: Side::Red };
    let map = game.board.get_all_moves(Side::Red);
    for _ in 0..25 {
        match actor.act(&game) {
            ActionResult::TookAction(action) => {
                let i = map_find(&map, action.from).expect("origin must be in the map");
                assert!(contains_point(&map[i].1, action.to));
            }
            ActionResult::NoPiecesLeft => panic!("the opening position has moves"),
        }
    }
}

// With exactly one legal move on the board, the random policy must pick
// it; a faulty sampler that returned its bound unchanged would fail here.
#[test]
fn random_policy_single_move_is_forced() {
    let mut game = Game::new(8, 8);
    clear(&mut game.board);
    game.board.state[7][6].piece = Some(red());
    let actor = Actor { actor_type: ActorType::Random, side: Side::Red };
    assert_eq!(
        actor.act(&game),
        ActionResult::TookAction(Action {
            from: Point { x: 7, y: 6 },
            to: Point { x: 6, y: 7 },
        })
    );
}

// The lookahead policy also only answers with pairs from the map, and it
// answers at all once every simulation has run.
#[test]
fn simulated_actions_come_from_the_move_map() {
    let game = Game::new(3, 7);
    let actor = Actor {
        actor_type: ActorType::Simulated(SimulatedActorType::Random),
        side: Side::Red,
    };
    let map = game.board.get_all_moves(Side::Red);
    match actor.act(&game) {
        ActionResult::TookAction(action) => {
            let i = map_find(&map, action.from).expect("origin must be in the map");
            assert!(contains_point(&map[i].1, action.to));
        }
        ActionResult::NoPiecesLeft => panic!("the opening position has moves"),
    }
}

#[test]
fn simulate_action_plays_a_full_game() {
    let board = Board::new(3, 7);
    let action = Action { from: Point { x: 0, y: 2 }, to: Point { x: 1, y: 3 } };
    let result = checkers::actor::simulate_action(&board, &action, SimulatedActorType::Random);
    let result = result.expect("a small random game finishes well inside the cap");
    assert!(result.winner == Side::Red || result.winner == Side::Blue);
}

// Scenario: a full random-against-random game on the standard board
// terminates and produces a winner after at least one move.
#[test]
fn random_game_runs_to_completion() {
    let mut game = Game::new(8, 8);
    let result = game
        .play(ActorType::Random, ActorType::Random)
        .expect("no human policy involved")
        .expect("a random game on the standard board finishes inside the cap");
    assert!(result.winner == Side::Red || result.winner == Side::Blue);
    assert!(result.moves >= 1);
    // The recorded winner's opponent really is out of moves.
    let loser = match result.winner {
        Side::Red => Side::Blue,
        Side::Blue => Side::Red,
    };
    assert!(game.board.get_all_moves(loser).is_empty());
}

// Red moves first; with no Red piece on the board the game is over
// before any action, and Blue is the winner at zero moves.
#[test]
fn red_without_moves_loses_immediately() {
    let mut game = Game::new(8, 8);
    clear(&mut game.board);
    game.board.state[4][4].piece = Some(blue());
    let result = game
        .play(ActorType::Random, ActorType::Random)
        .expect("no human policy involved")
        .expect("an immediate loss is decided on the first turn");
    assert_eq!(result, GameResult { moves: 0, winner: Side::Blue });
}

#[test]
fn human_policy_needs_a_collaborator() {
    let mut game = Game::new(8, 8);
    assert_eq!(
        game.play(ActorType::Human, ActorType::Random),
        Err(GameError::Configuration)
    );
    assert_eq!(
        game.play(ActorType::Random, ActorType::Human),
        Err(GameError::Configuration)
    );
}

fn sample_action(x: u8) -> Action {
    Action { from: Point { x, y: 0 }, to: Point { x, y: 1 } }
}

#[test]
fn pick_best_prefers_the_quickest_win() {
    let results = vec![
        (sample_action(0), Some(GameResult { moves: 5, winner: Side::Red })),
        (sample_action(1), Some(GameResult { moves: 3, winner: Side::Red })),
        (sample_action(2), Some(GameResult { moves: 1, winner: Side::Blue })),
        (sample_action(3), None),
    ];
    assert_eq!(checkers::actor::pick_best(Side::Red, &results), 1);
}

#[test]
fn pick_best_breaks_win_ties_by_candidate_order() {
    let results = vec![
        (sample_action(0), Some(GameResult { moves: 9, winner: Side::Blue })),
        (sample_action(1), Some(GameResult { moves: 3, winner: Side::Red })),
        (sample_action(2), Some(GameResult { moves: 3, winner: Side::Red })),
    ];
    assert_eq!(checkers::actor::pick_best(Side::Red, &results), 1);
}

#[test]
fn pick_best_falls_back_to_the_slowest_loss() {
    let results = vec![
        (sample_action(0), Some(GameResult { moves: 2, winner: Side::Blue })),
        (sample_action(1), Some(GameResult { moves: 9, winner: Side::Blue })),
        (sample_action(2), Some(GameResult { moves: 9, winner: Side::Blue })),
    ];
    assert_eq!(checkers::actor::pick_best(Side::Red, &results), 1);
}

#[test]
fn pick_best_counts_an_unfinished_game_as_longest() {
    let results = vec![
        (sample_action(0), Some(GameResult { moves: 2, winner: Side::Blue })),
        (sample_action(1), None),
        (sample_action(2), Some(GameResult { moves: 90, winner: Side::Blue })),
    ];
    assert_eq!(checkers::actor::pick_best(Side::Red, &results), 1);
}

#[test]
fn map_lookup_helpers() {
    let board = Board::new(8, 8);
    let map = board.get_all_moves(Side::Red);
    assert!(map_find(&map, Point { x: 1, y: 1 }).is_some());
    assert_eq!(map_find(&map, Point { x: 1, y: 0 }), None, "light squares hold no piece");
    let dests = vec![Point { x: 1, y: 3 }, Point { x: 3, y: 3 }];
    assert!(contains_point(&dests, Point { x: 3, y: 3 }));
    assert!(!contains_point(&dests, Point { x: 5, y: 3 }));
}

#[test]
fn policy_conversions() {
    assert_eq!(ActorType::from(SimulatedActorType::Random), ActorType::Random);
    assert_eq!(ActorType::from(SimulatedActorType::MostKills), ActorType::MostKills);
    assert_eq!(Point::from((3, 4)), Point { x: 3, y: 4 });
}

#[test]
fn boards_clone_deeply() {
    let original = Board::new(8, 8);
    let mut copy = original.clone();
    copy.state[0][0].piece = None;
    assert_eq!(piece_at(&original, 0, 0), Some(red()));
    assert_eq!(piece_at(&copy, 0, 0), None);
    assert_eq!(copy.width, 8);
    assert_eq!(copy.height, 8);
}
