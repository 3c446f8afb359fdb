use rival::{Evaluate, MaxN, Moves, PlayClone, Rival, SearchExt, TicTacToe};

#[test]
fn tictactoe() {
    let mut game = TicTacToe::new();

    for _ in 0..9 {
        let m = game.best_move(9).unwrap();
        PlayClone::play(&mut game, &m);
        println!("{:?}", game);
    }

    assert!(game.moves().is_empty());
    assert_eq!(Evaluate::evaluate(&game), vec![0, 0]);
}

#[test]
fn cached_tictactoe() {
    let mut game = TicTacToe::new();
    let mut rival: Rival<TicTacToe, MaxN> = Rival::new(20000);

    for _ in 0..9 {
        let m = rival.get_best(&mut game, 9).unwrap();
        PlayClone::play(&mut game, &m);
        println!("{:?}", game);
    }

    assert!(game.moves().is_empty());
    assert_eq!(Evaluate::evaluate(&game), vec![0, 0]);
}
