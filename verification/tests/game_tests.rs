use codenames::game::{CodeNamesError, Game, Tile};
use codenames::models::{Action, Clue, Group, Guess, Player, TeamColour, TileColour};

fn spectator(name: &str) -> Player {
    Player { name: name.to_string(), group: Group::Spectators, is_host: false }
}

fn uniform_tiles() -> Vec<Tile> {
    let mut tiles: Vec<Tile> = Vec::new();
    for _ in 0..25 {
        tiles.push(Tile { word: "s".to_string(), colour: TileColour::Blue });
    }
    tiles
}

/// A board with a known layout: tiles 0-8 Red, 9-16 Blue, 17-23 Grey, 24 Black.
fn known_tiles() -> Vec<Tile> {
    let mut tiles: Vec<Tile> = Vec::new();
    for i in 0..25 {
        let colour = if i < 9 {
            TileColour::Red
        } else if i < 17 {
            TileColour::Blue
        } else if i < 24 {
            TileColour::Grey
        } else {
            TileColour::Black
        };
        tiles.push(Tile { word: format!("word{}", i), colour });
    }
    tiles
}

/// A started game on the known board: Red's turn, host is a spectator,
/// player_1/player_2 are Red's spy master and guesser, player_3/player_4 Blue's.
fn started_game() -> Game {
    let mut game = Game::new(known_tiles(), "host".to_string(), TeamColour::Red);
    game.add_player(&"host".to_string(), spectator("host_name")).unwrap();
    for (id, name, group) in [
        ("player_1", "player_1_name", Group::RedSpyMasters),
        ("player_2", "player_2_name", Group::RedGuessers),
        ("player_3", "player_3_name", Group::BlueSpyMasters),
        ("player_4", "player_4_name", Group::BlueGuessers),
    ] {
        game.add_player(&id.to_string(), spectator(name)).unwrap();
        game.move_player(&id.to_string(), group).unwrap();
    }
    game.start(&"host".to_string()).unwrap();
    game
}

#[test]
fn when_enough_players_then_game_can_be_started() {
    let tiles = uniform_tiles();
    assert_eq!(tiles.len(), 25);
    let player1_id = "player_1";
    let mut game = Game::new(tiles, player1_id.to_string(), TeamColour::Red);
    for (id, name, group) in [
        ("player_1", "player_1_name", Group::BlueSpyMasters),
        ("player_2", "player_2_name", Group::BlueGuessers),
        ("player_3", "player_3_name", Group::RedSpyMasters),
        ("player_4", "player_4_name", Group::RedGuessers),
    ] {
        game.add_player(&id.to_string(), spectator(name)).unwrap();
        game.move_player(&id.to_string(), group).unwrap();
    }
    assert!(!game.is_started);
    game.start(&player1_id.to_string()).unwrap();
    assert!(game.is_started);
}

#[test]
fn start_fails_for_non_host() {
    let mut game = Game::new(uniform_tiles(), "host".to_string(), TeamColour::Red);
    for (id, group) in [
        ("a", Group::BlueSpyMasters),
        ("b", Group::BlueGuessers),
        ("c", Group::RedSpyMasters),
        ("d", Group::RedGuessers),
    ] {
        game.add_player(&id.to_string(), spectator(id)).unwrap();
        game.move_player(&id.to_string(), group).unwrap();
    }
    assert_eq!(game.start(&"a".to_string()), Err(CodeNamesError::NotHostError));
    assert!(!game.is_started);
}

#[test]
fn start_fails_without_enough_players_regardless_of_spectators() {
    let mut game = Game::new(uniform_tiles(), "host".to_string(), TeamColour::Red);
    // plenty of spectators, but no team roles filled
    for id in ["host", "s1", "s2", "s3", "s4", "s5"] {
        game.add_player(&id.to_string(), spectator(id)).unwrap();
    }
    assert_eq!(game.start(&"host".to_string()), Err(CodeNamesError::NotEnoughPlayersError));
}

#[test]
fn start_fails_when_a_team_lacks_a_guesser() {
    let mut game = Game::new(uniform_tiles(), "host".to_string(), TeamColour::Red);
    for (id, group) in [
        ("a", Group::BlueSpyMasters),
        ("b", Group::BlueGuessers),
        ("c", Group::RedSpyMasters),
    ] {
        game.add_player(&id.to_string(), spectator(id)).unwrap();
        game.move_player(&id.to_string(), group).unwrap();
    }
    assert_eq!(game.start(&"host".to_string()), Err(CodeNamesError::NotEnoughPlayersError));
}

#[test]
fn start_fails_when_a_team_has_two_spy_masters() {
    let mut game = Game::new(uniform_tiles(), "host".to_string(), TeamColour::Red);
    for (id, group) in [
        ("a", Group::BlueSpyMasters),
        ("a2", Group::BlueSpyMasters),
        ("b", Group::BlueGuessers),
        ("c", Group::RedSpyMasters),
        ("d", Group::RedGuessers),
    ] {
        game.add_player(&id.to_string(), spectator(id)).unwrap();
        game.move_player(&id.to_string(), group).unwrap();
    }
    assert_eq!(game.start(&"host".to_string()), Err(CodeNamesError::NotEnoughPlayersError));
}

#[test]
fn start_fails_when_already_started() {
    let mut game = started_game();
    assert_eq!(game.start(&"host".to_string()), Err(CodeNamesError::GameAlreadyStartedError));
}

#[test]
fn add_player_twice_is_refused() {
    let mut game = Game::new(uniform_tiles(), "host".to_string(), TeamColour::Red);
    game.add_player(&"a".to_string(), spectator("a")).unwrap();
    assert_eq!(
        game.add_player(&"a".to_string(), spectator("a")),
        Err(CodeNamesError::PlayerAlreadyInGameError)
    );
}

#[test]
fn move_and_remove_of_unknown_player_are_refused() {
    let mut game = Game::new(uniform_tiles(), "host".to_string(), TeamColour::Red);
    assert_eq!(
        game.move_player(&"ghost".to_string(), Group::BlueGuessers),
        Err(CodeNamesError::NoSuchPlayerError)
    );
    assert_eq!(game.remove_player(&"ghost".to_string()), Err(CodeNamesError::NoSuchPlayerError));
}

#[test]
fn membership_is_exclusive_across_moves() {
    let mut game = Game::new(uniform_tiles(), "host".to_string(), TeamColour::Red);
    game.add_player(&"a".to_string(), spectator("a")).unwrap();
    assert!(game.player_exists(&"a".to_string()));
    game.move_player(&"a".to_string(), Group::RedGuessers).unwrap();
    assert!(game.player_exists(&"a".to_string()));
    game.move_player(&"a".to_string(), Group::BlueSpyMasters).unwrap();
    assert!(game.player_exists(&"a".to_string()));
    game.remove_player(&"a".to_string()).unwrap();
    assert!(!game.player_exists(&"a".to_string()));
}

#[test]
fn example_scenario_clue_then_guesses() {
    // New game, starting team Red with 9 tiles; 1 spy master + 1 guesser per
    // team; Red spy master gives Clue{animal, 2}; a Red tile keeps the turn;
    // a Grey tile ends it and hands the turn to Blue.
    let mut game = started_game();
    assert_eq!(game.team_turn, TeamColour::Red);
    assert_eq!(game.next_action, Action::Clue);
    game.provide_clue(
        &"player_1".to_string(),
        Clue { word: "animal".to_string(), count: 2 },
    )
    .unwrap();
    assert_eq!(game.next_action, Action::Guess);
    assert_eq!(game.team_turn, TeamColour::Red);
    game.guess(&"player_2".to_string(), Guess { tile_index: 0 }).unwrap();
    assert_eq!(game.next_action, Action::Guess);
    assert_eq!(game.team_turn, TeamColour::Red);
    game.guess(&"player_2".to_string(), Guess { tile_index: 17 }).unwrap();
    assert_eq!(game.next_action, Action::Clue);
    assert_eq!(game.team_turn, TeamColour::Blue);
    assert!(game.winner.is_none());
}

#[test]
fn opponent_tile_ends_the_turn() {
    let mut game = started_game();
    game.provide_clue(&"player_1".to_string(), Clue { word: "c".to_string(), count: 3 }).unwrap();
    // tile 9 is Blue: an opponent tile for the Red guesser
    game.guess(&"player_2".to_string(), Guess { tile_index: 9 }).unwrap();
    assert_eq!(game.next_action, Action::Clue);
    assert_eq!(game.team_turn, TeamColour::Blue);
    assert!(game.winner.is_none());
}

#[test]
fn exhausting_the_clue_count_ends_the_turn() {
    let mut game = started_game();
    game.provide_clue(&"player_1".to_string(), Clue { word: "c".to_string(), count: 1 }).unwrap();
    // An own-colour guess, but the single allowed guess is used up.
    game.guess(&"player_2".to_string(), Guess { tile_index: 1 }).unwrap();
    assert_eq!(game.next_action, Action::Clue);
    assert_eq!(game.team_turn, TeamColour::Blue);
}

#[test]
fn black_tile_ends_the_game() {
    let mut game = started_game();
    game.provide_clue(&"player_1".to_string(), Clue { word: "c".to_string(), count: 2 }).unwrap();
    game.guess(&"player_2".to_string(), Guess { tile_index: 24 }).unwrap();
    assert_eq!(game.winner, Some(TeamColour::Blue));
    assert_eq!(game.team_turn, TeamColour::Blue);
    assert_eq!(game.next_action, Action::Clue);
    // No further move is accepted once the game is over.
    assert_eq!(
        game.provide_clue(&"player_3".to_string(), Clue { word: "d".to_string(), count: 1 }),
        Err(CodeNamesError::InvalidActionError)
    );
}

#[test]
fn clue_before_start_is_refused() {
    let mut game = Game::new(uniform_tiles(), "host".to_string(), TeamColour::Red);
    game.add_player(&"a".to_string(), spectator("a")).unwrap();
    assert_eq!(
        game.provide_clue(&"a".to_string(), Clue { word: "c".to_string(), count: 1 }),
        Err(CodeNamesError::GameNotStartedError)
    );
    assert_eq!(
        game.guess(&"a".to_string(), Guess { tile_index: 0 }),
        Err(CodeNamesError::GameNotStartedError)
    );
}

#[test]
fn guess_when_clue_is_expected_is_refused() {
    let mut game = started_game();
    assert_eq!(
        game.guess(&"player_2".to_string(), Guess { tile_index: 0 }),
        Err(CodeNamesError::InvalidActionError)
    );
}

#[test]
fn wrong_group_and_unknown_player_are_distinguished() {
    let mut game = started_game();
    // Red's guesser tries to give the clue: wrong group, with both named.
    assert_eq!(
        game.provide_clue(&"player_2".to_string(), Clue { word: "c".to_string(), count: 1 }),
        Err(CodeNamesError::IllegalPlayerGroupError {
            exp_group: Group::RedSpyMasters,
            act_group: Group::RedGuessers,
        })
    );
    // An id in no group at all is no player.
    assert_eq!(
        game.provide_clue(&"ghost".to_string(), Clue { word: "c".to_string(), count: 1 }),
        Err(CodeNamesError::NoSuchPlayerError)
    );
}

#[test]
fn guess_out_of_bounds_is_refused() {
    let mut game = started_game();
    game.provide_clue(&"player_1".to_string(), Clue { word: "c".to_string(), count: 1 }).unwrap();
    assert_eq!(
        game.guess(&"player_2".to_string(), Guess { tile_index: 25 }),
        Err(CodeNamesError::TileIndexOutOfBoundsError { tile_index: 25 })
    );
}

#[test]
fn team_colour_other_swaps_the_teams() {
    assert_eq!(TeamColour::Red.other(), TeamColour::Blue);
    assert_eq!(TeamColour::Blue.other(), TeamColour::Red);
}

#[test]
fn clue_count_zero_allows_no_continuation() {
    let mut game = started_game();
    game.provide_clue(&"player_1".to_string(), Clue { word: "c".to_string(), count: 0 }).unwrap();
    // Even an own-colour guess cannot continue a turn whose clue allows none.
    game.guess(&"player_2".to_string(), Guess { tile_index: 2 }).unwrap();
    assert_eq!(game.next_action, Action::Clue);
    assert_eq!(game.team_turn, TeamColour::Blue);
}

#[test]
fn moving_a_player_within_the_same_group_keeps_it_there() {
    let mut game = Game::new(uniform_tiles(), "host".to_string(), TeamColour::Red);
    game.add_player(&"a".to_string(), spectator("a")).unwrap();
    game.move_player(&"a".to_string(), Group::RedGuessers).unwrap();
    game.move_player(&"a".to_string(), Group::RedGuessers).unwrap();
    assert!(game.player_exists(&"a".to_string()));
    assert!(game.teams.red.guessers.contains_key(&"a".to_string()));
}
