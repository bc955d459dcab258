use codenames::game::CodeNamesError;
use codenames::models::{Action, EventRequest, Group, Guess, Player, TeamColour, TileColour};
use codenames::service::GameService;
use rand::rngs::StdRng;
use rand::SeedableRng;

fn vocabulary() -> Vec<String> {
    let mut words: Vec<String> = Vec::new();
    for i in 0..40 {
        words.push(format!("word{}", i));
    }
    words
}

fn spectator(name: &str) -> Player {
    Player { name: name.to_string(), group: Group::Spectators, is_host: false }
}

fn service_with_game() -> (GameService, String) {
    let mut service = GameService::new();
    let mut rng = StdRng::seed_from_u64(11);
    let game_id = service.new_game("host".to_string(), &mut rng, &vocabulary());
    (service, game_id)
}

#[test]
fn new_game_stores_a_fresh_game_under_a_32_character_id() {
    let (service, game_id) = service_with_game();
    assert_eq!(game_id.len(), 32);
    let game = service.get_game(&game_id).unwrap();
    assert!(!game.is_started);
    assert_eq!(game.host_id, "host");
    assert_eq!(game.tiles.len(), 25);
    assert_eq!(game.next_action, Action::Clue);
    assert!(game.winner.is_none());
    assert_eq!(game.tiles.iter().filter(|t| t.colour == TileColour::Black).count(), 1);
    assert_eq!(game.tiles.iter().filter(|t| t.colour == TileColour::Grey).count(), 7);
}

#[test]
fn two_new_games_get_distinct_ids() {
    let mut service = GameService::new();
    let mut rng = StdRng::seed_from_u64(11);
    let a = service.new_game("host".to_string(), &mut rng, &vocabulary());
    let b = service.new_game("host".to_string(), &mut rng, &vocabulary());
    assert_ne!(a, b);
}

#[test]
fn unknown_game_id_is_refused_everywhere() {
    let (mut service, _) = service_with_game();
    let missing = "nosuchgame".to_string();
    assert!(matches!(service.get_game(&missing), Err(CodeNamesError::NoSuchGameError)));
    assert!(matches!(
        service.player_exists(&missing, &"host".to_string()),
        Err(CodeNamesError::NoSuchGameError)
    ));
    assert!(matches!(
        service.start_game(&missing, &"host".to_string()),
        Err(CodeNamesError::NoSuchGameError)
    ));
    assert!(matches!(
        service.guess(&missing, &"host".to_string(), Guess { tile_index: 0 }),
        Err(CodeNamesError::NoSuchGameError)
    ));
}

#[test]
fn mutations_are_persisted_across_loads() {
    let (mut service, game_id) = service_with_game();
    service.add_player(&game_id, &"a".to_string(), spectator("a_name")).unwrap();
    assert_eq!(service.player_exists(&game_id, &"a".to_string()), Ok(true));
    assert_eq!(service.player_exists(&game_id, &"b".to_string()), Ok(false));
    service.move_player(&game_id, &"a".to_string(), Group::RedGuessers).unwrap();
    let game = service.get_game(&game_id).unwrap();
    assert!(game.teams.red.guessers.contains_key(&"a".to_string()));
    assert!(!game.teams.spectators.contains_key(&"a".to_string()));
}

#[test]
fn failed_mutations_change_nothing() {
    let (mut service, game_id) = service_with_game();
    service.add_player(&game_id, &"a".to_string(), spectator("a_name")).unwrap();
    assert!(matches!(
        service.start_game(&game_id, &"a".to_string()),
        Err(CodeNamesError::NotHostError)
    ));
    let game = service.get_game(&game_id).unwrap();
    assert!(!game.is_started);
}

#[test]
fn removing_the_last_participant_removes_the_game() {
    let (mut service, game_id) = service_with_game();
    service.add_player(&game_id, &"a".to_string(), spectator("a_name")).unwrap();
    service.add_player(&game_id, &"b".to_string(), spectator("b_name")).unwrap();
    service.remove_player(&game_id, &"a".to_string()).unwrap();
    assert!(service.get_game(&game_id).is_ok());
    service.remove_player(&game_id, &"b".to_string()).unwrap();
    assert!(matches!(service.get_game(&game_id), Err(CodeNamesError::NoSuchGameError)));
}

#[test]
fn handle_request_drives_a_whole_session() {
    let (mut service, game_id) = service_with_game();
    for (id, group) in [
        ("player_1", Group::RedSpyMasters),
        ("player_2", Group::RedGuessers),
        ("player_3", Group::BlueSpyMasters),
        ("player_4", Group::BlueGuessers),
    ] {
        service
            .handle_request(
                &game_id,
                &id.to_string(),
                EventRequest::AddPlayer { name: format!("{}_name", id) },
            )
            .unwrap();
        service
            .handle_request(&game_id, &id.to_string(), EventRequest::MovePlayer {
                new_group: group,
            })
            .unwrap();
    }
    service
        .handle_request(&game_id, &"host".to_string(), EventRequest::StartGame)
        .unwrap();
    let game = service.get_game(&game_id).unwrap();
    assert!(game.is_started);
    // The active spy master gives a clue through the request path.
    let spy_master = match game.team_turn {
        TeamColour::Red => "player_1",
        TeamColour::Blue => "player_3",
    };
    let updated = service
        .handle_request(
            &game_id,
            &spy_master.to_string(),
            EventRequest::Clue { word: "animal".to_string(), count: 2 },
        )
        .unwrap();
    assert_eq!(updated.next_action, Action::Guess);
    assert_eq!(updated.history.len(), 1);
    // A wrong-group clue is refused and dropped without effect.
    assert!(service
        .handle_request(
            &game_id,
            &"host".to_string(),
            EventRequest::Clue { word: "x".to_string(), count: 1 },
        )
        .is_err());
    assert_eq!(service.get_game(&game_id).unwrap().history.len(), 1);
}

#[test]
fn handle_request_remove_player_can_empty_the_store() {
    let (mut service, game_id) = service_with_game();
    service
        .handle_request(&game_id, &"a".to_string(), EventRequest::AddPlayer {
            name: "a_name".to_string(),
        })
        .unwrap();
    service.handle_request(&game_id, &"a".to_string(), EventRequest::RemovePlayer).unwrap();
    assert!(matches!(service.get_game(&game_id), Err(CodeNamesError::NoSuchGameError)));
}
