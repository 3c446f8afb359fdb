use std::time::Duration;

use rival::{
    max_n, negamax, play_then_unplay, Evaluate, EvaluateZeroSum, MaxN, Moves, Negamax, Place,
    PlayClone, Rival, RivalError, SearchExt, Symbol, TicTacToe, TranspositionTable,
};

fn place(x: usize, y: usize) -> Place {
    Place { x, y }
}

/// Plays the given sequence of moves, which must all be legal.
fn played(moves: &[(usize, usize)]) -> TicTacToe {
    let mut game = TicTacToe::new();
    for &(x, y) in moves {
        PlayClone::play(&mut game, &place(x, y));
    }
    game
}

#[test]
fn undo_restores_state() {
    let mut game = played(&[(0, 0), (1, 0)]);
    let before = game;
    for m in game.moves() {
        play_then_unplay(&mut game, &m);
        assert_eq!(game, before);
    }
}

#[test]
fn terminal_reports_no_move() {
    // O completes the first column: O at (0,0), (0,1), (0,2).
    let mut game = played(&[(0, 0), (1, 0), (0, 1), (1, 1), (0, 2)]);
    assert!(game.moves().is_empty());
    assert_eq!(game.winner(), Some(Symbol::O));
    assert_eq!(EvaluateZeroSum::evaluate(&game), -1);
    assert_eq!(Evaluate::evaluate(&game), vec![-1, 1]);

    let mut rival: Rival<TicTacToe, Negamax> = Rival::new(64);
    assert_eq!(rival.get_best(&mut game, 9), Err(RivalError::NoMove));
    assert_eq!(rival.play(&mut game, 9), Err(RivalError::NoMove));
    assert_eq!(
        rival.get_best_within(&mut game, Duration::from_millis(5)),
        Err(RivalError::NoMove)
    );
    assert_eq!(game.best_move(9), None);
}

#[test]
fn depth_zero_leaf_equivalence() {
    // A non-terminal, quiet state: searching at depth 0 returns no move
    // and the state's own evaluation, unmodified.
    let mut game = played(&[(0, 0)]);
    let result = max_n(&mut game, 0);
    assert_eq!(result.best, None);
    assert_eq!(result.depth, 0);
    assert_eq!(result.value, Evaluate::evaluate(&game));
    assert_eq!(result.value, vec![0, 0]);

    let zs = negamax(&mut game, 0);
    assert_eq!(zs.best, None);
    assert_eq!(zs.depth, 0);
    // X is to move and the position is level.
    assert_eq!(zs.value, 0);
}

#[test]
fn pruning_never_changes_the_answer() {
    // The zero-sum alpha-beta search must agree with the exhaustive
    // maximizing search on value, move and explored depth, at every
    // depth, from several positions.
    let positions = [
        vec![],
        vec![(0, 0)],
        vec![(0, 0), (1, 0)],
        vec![(0, 0), (1, 0), (0, 1)],
        vec![(1, 1), (0, 0), (2, 2)],
    ];
    for moves in positions.iter() {
        for depth in 0..7u8 {
            let mut a = played(moves);
            let mut b = played(moves);
            let full = max_n(&mut a, depth);
            let pruned = negamax(&mut b, depth);
            let turn = if EvaluateZeroSum::min_turn(&a) { 1 } else { 0 };
            assert_eq!(pruned.value, full.value[turn]);
            assert_eq!(pruned.best, full.best);
            assert_eq!(pruned.depth, full.depth);
        }
    }
}

#[test]
fn tie_break_takes_first_enumerated_move() {
    // At depth 2 no line can yet be completed from an empty board, so all
    // nine moves evaluate equal and the first enumerated cell must win.
    let mut game = TicTacToe::new();
    let m = game.best_move(2).unwrap();
    assert_eq!(m, place(0, 0));
    let r = negamax(&mut game, 2);
    assert_eq!(r.best, Some(place(0, 0)));
}

#[test]
fn cache_round_trip_and_collision() {
    // A single-slot table: every state collides on the same slot, so only
    // the key witness tells entries apart.
    let s1 = TicTacToe::new();
    let s2 = played(&[(0, 0)]);
    let mut table: TranspositionTable<TicTacToe, i16> = TranspositionTable::new(1);

    assert_eq!(table.get(&s1), None);
    table.insert(&s1, 42);
    assert_eq!(table.get(&s1), Some(&42));
    // A colliding, different state misses: its witness differs.
    assert_eq!(table.get(&s2), None);
    // Last write wins, unconditionally.
    table.insert(&s2, 7);
    assert_eq!(table.get(&s2), Some(&7));
    assert_eq!(table.get(&s1), None);
}

#[test]
fn forced_block_is_found() {
    // O owns (0,0) and (0,1) of the first column and X is to move: at
    // sufficient depth X must occupy the third cell of that line.
    let mut game = played(&[(0, 0), (1, 0), (0, 1)]);
    let mut rival: Rival<TicTacToe, Negamax> = Rival::new(2000);
    let m = rival.get_best(&mut game, 9).unwrap();
    assert_eq!(m, place(0, 2));
    assert_eq!(rival.play(&mut game, 9), Ok(()));
    assert!(game.at(0, 2).is_some());
}

#[test]
fn test_tictactoe_negamax_tie() {
    let mut game = TicTacToe::new();
    let mut rival: Rival<TicTacToe, Negamax> = Rival::new(2000);

    for _ in 0..9 {
        assert_eq!(rival.play(&mut game, 9), Ok(()));
    }

    assert_eq!(game.moves().len(), 0);
    assert_eq!(EvaluateZeroSum::evaluate(&game), 0);
}

#[test]
fn test_tictactoe_negamax_best_move() {
    let mut game = TicTacToe::new();

    PlayClone::play(&mut game, &place(0, 0));
    PlayClone::play(&mut game, &place(1, 0));
    PlayClone::play(&mut game, &place(0, 1));

    let mut rival: Rival<TicTacToe, Negamax> = Rival::new(2000);
    assert_eq!(rival.play(&mut game, 9), Ok(()));

    assert!(game.at(0, 2).is_some());
}

#[test]
fn play_within_time_budget() {
    let mut game = TicTacToe::new();
    let mut rival: Rival<TicTacToe, Negamax> = Rival::new(2000);
    assert_eq!(rival.play_within(&mut game, Duration::from_millis(50)), Ok(()));
    assert_eq!(game.moves().len(), 8);
    let m = rival
        .get_best_within(&mut game, Duration::from_millis(20))
        .unwrap();
    assert!(game.moves().contains(&m));
}

#[test]
fn repeated_search_returns_the_identical_move() {
    // The first search stores its own root result deep enough that an
    // immediate repeat of the same query is answered from the table.
    let mut game = played(&[(0, 0)]);
    let mut with_negamax: Rival<TicTacToe, Negamax> = Rival::new(512);
    let a = with_negamax.get_best(&mut game, 5).unwrap();
    let b = with_negamax.get_best(&mut game, 5).unwrap();
    assert_eq!(a, b);

    let mut with_max_n: Rival<TicTacToe, MaxN> = Rival::new(512);
    let c = with_max_n.get_best(&mut game, 5).unwrap();
    let d = with_max_n.get_best(&mut game, 5).unwrap();
    assert_eq!(c, d);
}

#[test]
fn a_win_for_x_scores_plus_one() {
    // X completes the first column while O scatters harmlessly.
    let game = played(&[(1, 0), (0, 0), (1, 1), (0, 1), (2, 2), (0, 2)]);
    assert_eq!(game.winner(), Some(Symbol::X));
    assert_eq!(EvaluateZeroSum::evaluate(&game), 1);
    assert_eq!(Evaluate::evaluate(&game), vec![1, -1]);
    assert!(game.moves().is_empty());
}

#[test]
fn error_message_names_the_condition() {
    assert_eq!(RivalError::NoMove.message(), "no move possible");
    assert_eq!(RivalError::NoMove, RivalError::NoMove);
}
