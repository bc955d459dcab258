use codenames::game::{Game, Tile};
use codenames::models::{Action, Clue, Group, Guess, Player, TeamColour, TileColour};
use codenames::view::GameView;

fn spectator(name: &str) -> Player {
    Player { name: name.to_string(), group: Group::Spectators, is_host: false }
}

fn known_tiles() -> Vec<Tile> {
    let mut tiles: Vec<Tile> = Vec::new();
    for i in 0..25 {
        let colour = if i < 9 {
            TileColour::Red
        } else if i < 17 {
            TileColour::Blue
        } else if i < 24 {
            TileColour::Grey
        } else {
            TileColour::Black
        };
        tiles.push(Tile { word: format!("word{}", i), colour });
    }
    tiles
}

fn started_game() -> Game {
    let mut game = Game::new(known_tiles(), "host".to_string(), TeamColour::Red);
    game.add_player(&"host".to_string(), spectator("host_name")).unwrap();
    for (id, group) in [
        ("player_1", Group::RedSpyMasters),
        ("player_2", Group::RedGuessers),
        ("player_3", Group::BlueSpyMasters),
        ("player_4", Group::BlueGuessers),
    ] {
        game.add_player(&id.to_string(), spectator(id)).unwrap();
        game.move_player(&id.to_string(), group).unwrap();
    }
    game.start(&"host".to_string()).unwrap();
    game
}

#[test]
fn spectator_view_withholds_every_unguessed_colour() {
    let game = started_game();
    let view = GameView::from_game(game, false, &"host".to_string());
    assert_eq!(view.tiles.len(), 25);
    for (i, tile) in view.tiles.iter().enumerate() {
        assert_eq!(tile.word, format!("word{}", i));
        assert_eq!(tile.colour, None);
    }
    assert_eq!(view.this_player.name, "host_name");
}

#[test]
fn spy_master_view_reveals_every_colour() {
    let game = started_game();
    let original_colours: Vec<TileColour> = known_tiles().iter().map(|t| t.colour).collect();
    let view = GameView::from_game(game, true, &"player_1".to_string());
    for (i, tile) in view.tiles.iter().enumerate() {
        assert_eq!(tile.colour, Some(original_colours[i]));
    }
}

#[test]
fn guessed_tiles_are_revealed_to_everyone() {
    let mut game = started_game();
    game.provide_clue(&"player_1".to_string(), Clue { word: "c".to_string(), count: 2 }).unwrap();
    game.guess(&"player_2".to_string(), Guess { tile_index: 3 }).unwrap();
    game.guess(&"player_2".to_string(), Guess { tile_index: 19 }).unwrap();
    let view = GameView::from_game(game, false, &"player_4".to_string());
    for (i, tile) in view.tiles.iter().enumerate() {
        match i {
            3 => assert_eq!(tile.colour, Some(TileColour::Red)),
            19 => assert_eq!(tile.colour, Some(TileColour::Grey)),
            _ => assert_eq!(tile.colour, None),
        }
    }
}

#[test]
fn view_passes_public_state_through() {
    let mut game = started_game();
    game.provide_clue(&"player_1".to_string(), Clue { word: "animal".to_string(), count: 2 })
        .unwrap();
    let view = GameView::from_game(game, false, &"player_2".to_string());
    assert!(view.is_started);
    assert_eq!(view.team_turn, TeamColour::Red);
    assert_eq!(view.next_action, Action::Guess);
    assert_eq!(view.history.len(), 1);
    assert!(view.winner.is_none());
    assert_eq!(view.this_player.name, "player_2");
    assert_eq!(view.this_player.group, Group::RedGuessers);
    assert!(view.teams.blue.spy_masters.contains_key(&"player_3".to_string()));
    assert!(view.teams.red.guessers.contains_key(&"player_2".to_string()));
    assert!(view.teams.spectators.contains_key(&"host".to_string()));
}
