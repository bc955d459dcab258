//! The session operations over the game store: every mutating call loads
//! one game, applies exactly one state-machine operation, and persists the
//! result as an atomic snapshot replace. A game whose last participant
//! leaves is deleted from the store. Callers serialize these operations per
//! game id; each operation here is one such exclusive read-modify-write
//! cycle.

use vstd::prelude::*;

use crate::board::{board_wf, generate_tiles};
use crate::game::{CodeNamesError, Game, GameModel};
use crate::models::{
    Action, Clue, ClueModel, EventModel, EventRequest, Group, Guess, Player, PlayerModel,
    TeamColour,
};
use crate::randomness::{new_game_id, random_bool};
use crate::roster::TeamsModel;
use crate::string_map::StringMap;

verus! {

/// A game as `new_game` creates it: not yet started, hosted by the caller,
/// with an empty roster, an empty history, a clue expected, no winner, and
/// a board well-formed for the randomly chosen starting team.
pub open spec fn spec_fresh_game(m: GameModel, host: Seq<char>) -> bool {
    &&& m.inv()
    &&& !m.is_started
    &&& m.host_id == host
    &&& m.teams == TeamsModel::spec_empty()
    &&& m.history == Seq::<EventModel>::empty()
    &&& m.next_action == Action::Clue
    &&& m.winner is None
    &&& board_wf(m.tiles, m.team_turn)
}

/// The state-machine transition one event request asks for.
pub open spec fn request_tr(g: GameModel, pid: Seq<char>, request: EventRequest) -> Result<
    GameModel,
    CodeNamesError,
> {
    match request {
        EventRequest::StartGame => g.start_tr(pid),
        EventRequest::AddPlayer { name } => g.add_player_tr(
            pid,
            PlayerModel { name: name@, group: Group::Spectators, is_host: false },
        ),
        EventRequest::MovePlayer { new_group } => g.move_player_tr(pid, new_group),
        EventRequest::RemovePlayer => g.remove_player_tr(pid),
        EventRequest::Clue { word, count } => g.provide_clue_tr(
            pid,
            ClueModel { word: word@, count },
        ),
        EventRequest::Guess { tile_index } => g.guess_tr(pid, Guess { tile_index }),
    }
}

proof fn lemma_nonempty_dom(m: Map<Seq<char>, PlayerModel>)
    requires
        !(m.dom() =~= Set::<Seq<char>>::empty()),
    ensures
        exists|id: Seq<char>| m.dom().contains(id),
{
    if forall|id: Seq<char>| !(#[trigger] m.dom().contains(id)) {
        assert(m.dom() =~= Set::<Seq<char>>::empty());
    }
}

/// The game store and the operations serialized on it, keyed by game id.
pub struct GameService {
    repo: StringMap<Game>,
}

impl View for GameService {
    type V = Map<Seq<char>, GameModel>;

    closed spec fn view(&self) -> Map<Seq<char>, GameModel> {
        self.repo@
    }
}

impl GameService {
    /// The store's keys are distinct and every stored game is well-formed.
    pub closed spec fn wf(self) -> bool {
        &&& self.repo.wf()
        &&& forall|g: Game| #[trigger] self.repo.stores(g) ==> g.wf()
    }

    /// An empty store.
    pub fn new() -> (r: Self)
        ensures
            r.wf(),
            r@ == Map::<Seq<char>, GameModel>::empty(),
    {
        GameService { repo: StringMap::new() }
    }

    /// Create a game: a fresh random id, a random starting team, a fresh
    /// board from the vocabulary, and the caller as host.
    pub fn new_game(
        &mut self,
        player_id: String,
        rng: &mut rand::rngs::StdRng,
        words: &Vec<String>,
    ) -> (r: String)
        requires
            old(self).wf(),
            words@.len() >= 25,
            forall|i: int, j: int| 0 <= i < j < words@.len() ==> words@[i]@ != words@[j]@,
        ensures
            final(self).wf(),
            r@.len() == 32,
            exists|m: GameModel| #[trigger] spec_fresh_game(m, player_id@) && final(self)@ == old(
                self,
            )@.insert(r@, m),
    {
        let game_id = new_game_id();
        let first_turn = if random_bool(rng) {
            TeamColour::Blue
        } else {
            TeamColour::Red
        };
        let tiles = generate_tiles(rng, &first_turn, words);
        let ghost host = player_id@;
        let game = Game::new(tiles, player_id, first_turn);
        let ghost m = game@;
        self.repo.insert(game_id.clone(), game);
        proof {
            assert(spec_fresh_game(m, host));
        }
        game_id
    }

    /// Load a snapshot of a game.
    pub fn get_game(&self, game_id: &String) -> (r: Result<Game, CodeNamesError>)
        requires
            self.wf(),
        ensures
            (if self@.dom().contains(game_id@) {
                r matches Ok(g) && g@ == self@[game_id@] && g.wf()
            } else {
                r == Err::<Game, CodeNamesError>(CodeNamesError::NoSuchGameError)
            }),
    {
        match self.repo.get(game_id) {
            Some(g) => Ok(g.clone()),
            None => Err(CodeNamesError::NoSuchGameError),
        }
    }

    /// Whether an id is a participant of a game.
    pub fn player_exists(&self, game_id: &String, player_id: &String) -> (r: Result<
        bool,
        CodeNamesError,
    >)
        requires
            self.wf(),
        ensures
            (if self@.dom().contains(game_id@) {
                r == Ok::<bool, CodeNamesError>(self@[game_id@].teams.contains(player_id@))
            } else {
                r == Err::<bool, CodeNamesError>(CodeNamesError::NoSuchGameError)
            }),
    {
        match self.repo.get(game_id) {
            Some(g) => Ok(g.player_exists(player_id)),
            None => Err(CodeNamesError::NoSuchGameError),
        }
    }

    /// Start a game.
    pub fn start_game(&mut self, game_id: &String, player_id: &String) -> (r: Result<
        Game,
        CodeNamesError,
    >)
        requires
            old(self).wf(),
        ensures
            final(self).wf(),
            (if !old(self)@.dom().contains(game_id@) {
                r == Err::<Game, CodeNamesError>(CodeNamesError::NoSuchGameError) && final(self)@
                    == old(self)@
            } else {
                match old(self)@[game_id@].start_tr(player_id@) {
                    Ok(m) => (r matches Ok(g) && g@ == m) && final(self)@ == old(self)@.insert(
                        game_id@,
                        m,
                    ),
                    Err(e) => r == Err::<Game, CodeNamesError>(e) && final(self)@ == old(self)@,
                }
            }),
    {
        let mut game = match self.repo.get(game_id) {
            Some(g) => g.clone(),
            None => return Err(CodeNamesError::NoSuchGameError),
        };
        match game.start(player_id) {
            Err(e) => return Err(e),
            Ok(()) => {},
        }
        self.repo.insert(game_id.clone(), game.clone());
        Ok(game)
    }

    /// Add a player to a game, as a spectator.
    pub fn add_player(&mut self, game_id: &String, player_id: &String, player: Player) -> (r:
        Result<Game, CodeNamesError>)
        requires
            old(self).wf(),
        ensures
            final(self).wf(),
            (if !old(self)@.dom().contains(game_id@) {
                r == Err::<Game, CodeNamesError>(CodeNamesError::NoSuchGameError) && final(self)@
                    == old(self)@
            } else {
                match old(self)@[game_id@].add_player_tr(player_id@, player@) {
                    Ok(m) => (r matches Ok(g) && g@ == m) && final(self)@ == old(self)@.insert(
                        game_id@,
                        m,
                    ),
                    Err(e) => r == Err::<Game, CodeNamesError>(e) && final(self)@ == old(self)@,
                }
            }),
    {
        let mut game = match self.repo.get(game_id) {
            Some(g) => g.clone(),
            None => return Err(CodeNamesError::NoSuchGameError),
        };
        match game.add_player(player_id, player) {
            Err(e) => return Err(e),
            Ok(()) => {},
        }
        self.repo.insert(game_id.clone(), game.clone());
        Ok(game)
    }

    /// Move a player to another group.
    pub fn move_player(&mut self, game_id: &String, player_id: &String, new_group: Group) -> (r:
        Result<Game, CodeNamesError>)
        requires
            old(self).wf(),
        ensures
            final(self).wf(),
            (if !old(self)@.dom().contains(game_id@) {
                r == Err::<Game, CodeNamesError>(CodeNamesError::NoSuchGameError) && final(self)@
                    == old(self)@
            } else {
                match old(self)@[game_id@].move_player_tr(player_id@, new_group) {
                    Ok(m) => (r matches Ok(g) && g@ == m) && final(self)@ == old(self)@.insert(
                        game_id@,
                        m,
                    ),
                    Err(e) => r == Err::<Game, CodeNamesError>(e) && final(self)@ == old(self)@,
                }
            }),
    {
        let mut game = match self.repo.get(game_id) {
            Some(g) => g.clone(),
            None => return Err(CodeNamesError::NoSuchGameError),
        };
        match game.move_player(player_id, new_group) {
            Err(e) => return Err(e),
            Ok(()) => {},
        }
        self.repo.insert(game_id.clone(), game.clone());
        Ok(game)
    }

    /// Remove a player. If the game is then empty of participants, the game
    /// itself is deleted from the store.
    pub fn remove_player(&mut self, game_id: &String, player_id: &String) -> (r: Result<
        Game,
        CodeNamesError,
    >)
        requires
            old(self).wf(),
        ensures
            final(self).wf(),
            (if !old(self)@.dom().contains(game_id@) {
                r == Err::<Game, CodeNamesError>(CodeNamesError::NoSuchGameError) && final(self)@
                    == old(self)@
            } else {
                match old(self)@[game_id@].remove_player_tr(player_id@) {
                    Ok(m) => (r matches Ok(g) && g@ == m) && final(self)@ == (if m.teams.no_players() {
                        old(self)@.remove(game_id@)
                    } else {
                        old(self)@.insert(game_id@, m)
                    }),
                    Err(e) => r == Err::<Game, CodeNamesError>(e) && final(self)@ == old(self)@,
                }
            }),
    {
        let mut game = match self.repo.get(game_id) {
            Some(g) => g.clone(),
            None => return Err(CodeNamesError::NoSuchGameError),
        };
        match game.remove_player(player_id) {
            Err(e) => return Err(e),
            Ok(()) => {},
        }
        let spectators_empty = game.teams.spectators.is_empty();
        let blue_sm_empty = game.teams.blue.spy_masters.is_empty();
        let blue_g_empty = game.teams.blue.guessers.is_empty();
        let red_sm_empty = game.teams.red.spy_masters.is_empty();
        let red_g_empty = game.teams.red.guessers.is_empty();
        let deserted = spectators_empty && blue_sm_empty && blue_g_empty && red_sm_empty
            && red_g_empty;
        proof {
            let t = game@.teams;
            if deserted {
                assert(forall|id: Seq<char>| !t.contains(id));
            } else {
                if !spectators_empty {
                    lemma_nonempty_dom(t.spectators);
                    let id = choose|id: Seq<char>| t.spectators.dom().contains(id);
                    assert(t.contains(id));
                } else if !blue_sm_empty {
                    lemma_nonempty_dom(t.blue.spy_masters);
                    let id = choose|id: Seq<char>| t.blue.spy_masters.dom().contains(id);
                    assert(t.contains(id));
                } else if !blue_g_empty {
                    lemma_nonempty_dom(t.blue.guessers);
                    let id = choose|id: Seq<char>| t.blue.guessers.dom().contains(id);
                    assert(t.contains(id));
                } else if !red_sm_empty {
                    lemma_nonempty_dom(t.red.spy_masters);
                    let id = choose|id: Seq<char>| t.red.spy_masters.dom().contains(id);
                    assert(t.contains(id));
                } else {
                    lemma_nonempty_dom(t.red.guessers);
                    let id = choose|id: Seq<char>| t.red.guessers.dom().contains(id);
                    assert(t.contains(id));
                }
                assert(!t.no_players());
            }
        }
        if deserted {
            self.repo.remove(game_id);
        } else {
            self.repo.insert(game_id.clone(), game.clone());
        }
        Ok(game)
    }

    /// Record a clue for a game.
    pub fn provide_clue(&mut self, game_id: &String, player_id: &String, clue: Clue) -> (r: Result<
        Game,
        CodeNamesError,
    >)
        requires
            old(self).wf(),
        ensures
            final(self).wf(),
            (if !old(self)@.dom().contains(game_id@) {
                r == Err::<Game, CodeNamesError>(CodeNamesError::NoSuchGameError) && final(self)@
                    == old(self)@
            } else {
                match old(self)@[game_id@].provide_clue_tr(player_id@, clue@) {
                    Ok(m) => (r matches Ok(g) && g@ == m) && final(self)@ == old(self)@.insert(
                        game_id@,
                        m,
                    ),
                    Err(e) => r == Err::<Game, CodeNamesError>(e) && final(self)@ == old(self)@,
                }
            }),
    {
        let mut game = match self.repo.get(game_id) {
            Some(g) => g.clone(),
            None => return Err(CodeNamesError::NoSuchGameError),
        };
        match game.provide_clue(player_id, clue) {
            Err(e) => return Err(e),
            Ok(()) => {},
        }
        self.repo.insert(game_id.clone(), game.clone());
        Ok(game)
    }

    /// Record a guess for a game.
    pub fn guess(&mut self, game_id: &String, player_id: &String, guess: Guess) -> (r: Result<
        Game,
        CodeNamesError,
    >)
        requires
            old(self).wf(),
        ensures
            final(self).wf(),
            (if !old(self)@.dom().contains(game_id@) {
                r == Err::<Game, CodeNamesError>(CodeNamesError::NoSuchGameError) && final(self)@
                    == old(self)@
            } else {
                match old(self)@[game_id@].guess_tr(player_id@, guess) {
                    Ok(m) => (r matches Ok(g) && g@ == m) && final(self)@ == old(self)@.insert(
                        game_id@,
                        m,
                    ),
                    Err(e) => r == Err::<Game, CodeNamesError>(e) && final(self)@ == old(self)@,
                }
            }),
    {
        let mut game = match self.repo.get(game_id) {
            Some(g) => g.clone(),
            None => return Err(CodeNamesError::NoSuchGameError),
        };
        match game.guess(player_id, guess) {
            Err(e) => return Err(e),
            Ok(()) => {},
        }
        self.repo.insert(game_id.clone(), game.clone());
        Ok(game)
    }

    /// Apply one realtime event request to one game: the dispatch from the
    /// protocol's requests to the state machine's operations.
    pub fn handle_request(
        &mut self,
        game_id: &String,
        player_id: &String,
        request: EventRequest,
    ) -> (r: Result<Game, CodeNamesError>)
        requires
            old(self).wf(),
        ensures
            final(self).wf(),
            (if !old(self)@.dom().contains(game_id@) {
                r == Err::<Game, CodeNamesError>(CodeNamesError::NoSuchGameError) && final(self)@
                    == old(self)@
            } else {
                match request_tr(old(self)@[game_id@], player_id@, request) {
                    Ok(m) => (r matches Ok(g) && g@ == m) && (if (request
                        matches EventRequest::RemovePlayer) && m.teams.no_players() {
                        final(self)@ == old(self)@.remove(game_id@)
                    } else {
                        final(self)@ == old(self)@.insert(game_id@, m)
                    }),
                    Err(e) => r == Err::<Game, CodeNamesError>(e) && final(self)@ == old(self)@,
                }
            }),
    {
        match request {
            EventRequest::StartGame => self.start_game(game_id, player_id),
            EventRequest::AddPlayer { name } => self.add_player(
                game_id,
                player_id,
                Player { name, group: Group::Spectators, is_host: false },
            ),
            EventRequest::MovePlayer { new_group } => self.move_player(
                game_id,
                player_id,
                new_group,
            ),
            EventRequest::RemovePlayer => self.remove_player(game_id, player_id),
            EventRequest::Clue { word, count } => self.provide_clue(
                game_id,
                player_id,
                Clue { word, count },
            ),
            EventRequest::Guess { tile_index } => self.guess(
                game_id,
                player_id,
                Guess { tile_index },
            ),
        }
    }
}

} // verus!
