//! The game state machine: membership, turn order, clue and guess
//! validation, and win detection.
//!
//! Every mutating operation is specified against a transition function on
//! [`GameModel`], the abstract value of a [`Game`]. Guessing the Black
//! assassin tile is a terminal condition: the game records the opposing
//! team as the winner, and no further clue or guess is accepted.

use vstd::prelude::*;

use crate::models::{
    Action, Clue, ClueModel, EventModel, GameEvent, Group, Guess, Player, PlayerModel, TeamColour,
    TileColour,
};
use crate::roster::{Team, Teams, TeamsModel};

verus! {

/// One board tile: a word and its hidden colour.
#[derive(Debug)]
pub struct Tile {
    pub word: String,
    pub colour: TileColour,
}

/// The abstract value of a [`Tile`].
pub struct TileModel {
    pub word: Seq<char>,
    pub colour: TileColour,
}

impl View for Tile {
    type V = TileModel;

    open spec fn view(&self) -> TileModel {
        TileModel { word: self.word@, colour: self.colour }
    }
}

impl Clone for Tile {
    fn clone(&self) -> (res: Self)
        ensures
            res == *self,
    {
        Tile { word: self.word.clone(), colour: self.colour }
    }
}

/// Every way a game operation can be refused. All variants are recoverable,
/// caller-facing validation failures.
#[derive(Clone, Copy, Debug, PartialEq, Eq, Structural)]
pub enum CodeNamesError {
    GameAlreadyStartedError,
    GameNotStartedError,
    IllegalPlayerGroupError { exp_group: Group, act_group: Group },
    InvalidActionError,
    NoSuchGameError,
    NoSuchPlayerError,
    NotEnoughPlayersError,
    NotHostError,
    PlayerAlreadyInGameError,
    TileIndexOutOfBoundsError { tile_index: u8 },
}

/// The clue the current run of guesses answers: the most recent clue event.
pub open spec fn current_clue(h: Seq<EventModel>) -> Option<ClueModel>
    decreases h.len(),
{
    if h.len() == 0 {
        None
    } else {
        match h.last() {
            EventModel::Clue(c) => Some(c),
            EventModel::Guess(_) => current_clue(h.drop_last()),
        }
    }
}

/// How many guesses have been made since the most recent clue.
pub open spec fn guesses_since_clue(h: Seq<EventModel>) -> nat
    decreases h.len(),
{
    if h.len() == 0 {
        0
    } else {
        match h.last() {
            EventModel::Clue(_) => 0,
            EventModel::Guess(_) => guesses_since_clue(h.drop_last()) + 1,
        }
    }
}

/// Whether a board position has already been guessed, and so publicly
/// revealed by play.
pub open spec fn tile_guessed(h: Seq<EventModel>, idx: int) -> bool {
    exists|j: int|
        0 <= j < h.len() && ((#[trigger] h[j]) matches EventModel::Guess(t) && t.tile_index == idx)
}

/// A guess event refers to a board position.
pub open spec fn event_ok(e: EventModel) -> bool {
    match e {
        EventModel::Clue(_) => true,
        EventModel::Guess(t) => t.tile_index < 25,
    }
}

/// The abstract value of a [`Game`].
#[verifier::ext_equal]
pub struct GameModel {
    pub is_started: bool,
    pub tiles: Seq<TileModel>,
    pub teams: TeamsModel,
    pub host_id: Seq<char>,
    pub team_turn: TeamColour,
    pub next_action: Action,
    pub history: Seq<EventModel>,
    pub winner: Option<TeamColour>,
}

impl GameModel {
    /// The game invariant: a board of 25 tiles, a roster in which no id is
    /// in two groups, a clue on record whenever a guess is expected, and a
    /// history that only refers to board positions.
    pub open spec fn inv(self) -> bool {
        &&& self.tiles.len() == 25
        &&& self.teams.wf()
        &&& (self.next_action == Action::Guess ==> current_clue(self.history) is Some)
        &&& forall|i: int| 0 <= i < self.history.len() ==> event_ok(#[trigger] self.history[i])
    }

    /// The one group allowed to act now: the active team's spy masters for a
    /// clue, its guessers for a guess.
    pub open spec fn expected_group(self) -> Group {
        match (self.next_action, self.team_turn) {
            (Action::Clue, TeamColour::Red) => Group::RedSpyMasters,
            (Action::Clue, TeamColour::Blue) => Group::BlueSpyMasters,
            (Action::Guess, TeamColour::Red) => Group::RedGuessers,
            (Action::Guess, TeamColour::Blue) => Group::BlueGuessers,
        }
    }

    /// Why a caller may not act now: a participant in the wrong group is
    /// told which group was expected; an unknown id is told it is no player.
    pub open spec fn player_err(self, pid: Seq<char>) -> Option<CodeNamesError> {
        if self.teams.group_map(self.expected_group()).dom().contains(pid) {
            None
        } else {
            match self.teams.group_of(pid) {
                Some(g) => Some(
                    CodeNamesError::IllegalPlayerGroupError {
                        exp_group: self.expected_group(),
                        act_group: g,
                    },
                ),
                None => Some(CodeNamesError::NoSuchPlayerError),
            }
        }
    }

    /// Whether the turn goes on after guessing tile `t`: the tile must be
    /// the active team's own colour, and the clue's count must allow a
    /// further guess.
    pub open spec fn turn_continues(self, t: Guess) -> bool {
        let h = self.history.push(EventModel::Guess(t));
        &&& self.tiles[t.tile_index as int].colour == self.team_turn.tile_colour()
        &&& (current_clue(h) matches Some(c) && guesses_since_clue(h) < c.count)
    }

    /// Transition for `start`.
    pub open spec fn start_tr(self, pid: Seq<char>) -> Result<GameModel, CodeNamesError> {
        if self.is_started {
            Err(CodeNamesError::GameAlreadyStartedError)
        } else if self.host_id != pid {
            Err(CodeNamesError::NotHostError)
        } else if !self.teams.blue.valid_for_start() {
            Err(CodeNamesError::NotEnoughPlayersError)
        } else if !self.teams.red.valid_for_start() {
            Err(CodeNamesError::NotEnoughPlayersError)
        } else {
            Ok(GameModel { is_started: true, ..self })
        }
    }

    /// Transition for `add_player`: a new player always enters the
    /// spectators, whatever group it may ask for.
    pub open spec fn add_player_tr(self, pid: Seq<char>, p: PlayerModel) -> Result<
        GameModel,
        CodeNamesError,
    > {
        if self.teams.contains(pid) {
            Err(CodeNamesError::PlayerAlreadyInGameError)
        } else {
            Ok(GameModel { teams: self.teams.insert_member(Group::Spectators, pid, p), ..self })
        }
    }

    /// Transition for `move_player`.
    pub open spec fn move_player_tr(self, pid: Seq<char>, new_group: Group) -> Result<
        GameModel,
        CodeNamesError,
    > {
        match self.teams.group_of(pid) {
            None => Err(CodeNamesError::NoSuchPlayerError),
            Some(g) => {
                let p = self.teams.group_map(g)[pid];
                Ok(
                    GameModel {
                        teams: self.teams.remove_member(g, pid).insert_member(
                            new_group,
                            pid,
                            PlayerModel { group: new_group, ..p },
                        ),
                        ..self
                    },
                )
            },
        }
    }

    /// Transition for `remove_player`.
    pub open spec fn remove_player_tr(self, pid: Seq<char>) -> Result<GameModel, CodeNamesError> {
        match self.teams.group_of(pid) {
            None => Err(CodeNamesError::NoSuchPlayerError),
            Some(g) => Ok(GameModel { teams: self.teams.remove_member(g, pid), ..self }),
        }
    }

    /// Transition for `provide_clue`.
    pub open spec fn provide_clue_tr(self, pid: Seq<char>, c: ClueModel) -> Result<
        GameModel,
        CodeNamesError,
    > {
        if !self.is_started {
            Err(CodeNamesError::GameNotStartedError)
        } else if self.winner is Some {
            Err(CodeNamesError::InvalidActionError)
        } else if self.next_action != Action::Clue {
            Err(CodeNamesError::InvalidActionError)
        } else {
            match self.player_err(pid) {
                Some(e) => Err(e),
                None => Ok(
                    GameModel {
                        history: self.history.push(EventModel::Clue(c)),
                        next_action: Action::Guess,
                        ..self
                    },
                ),
            }
        }
    }

    /// Transition for `guess`. A turn-ending guess hands the turn to the
    /// other team; guessing the Black tile additionally ends the game with
    /// the opposing team as winner.
    pub open spec fn guess_tr(self, pid: Seq<char>, t: Guess) -> Result<
        GameModel,
        CodeNamesError,
    > {
        if !self.is_started {
            Err(CodeNamesError::GameNotStartedError)
        } else if self.winner is Some {
            Err(CodeNamesError::InvalidActionError)
        } else if self.next_action != Action::Guess {
            Err(CodeNamesError::InvalidActionError)
        } else {
            match self.player_err(pid) {
                Some(e) => Err(e),
                None => if t.tile_index >= 25 {
                    Err(CodeNamesError::TileIndexOutOfBoundsError { tile_index: t.tile_index })
                } else {
                    let cont = self.turn_continues(t);
                    let colour = self.tiles[t.tile_index as int].colour;
                    Ok(
                        GameModel {
                            history: self.history.push(EventModel::Guess(t)),
                            next_action: if cont {
                                Action::Guess
                            } else {
                                Action::Clue
                            },
                            team_turn: if cont {
                                self.team_turn
                            } else {
                                self.team_turn.spec_other()
                            },
                            winner: if colour == TileColour::Black {
                                Some(self.team_turn.spec_other())
                            } else {
                                self.winner
                            },
                            ..self
                        },
                    )
                },
            }
        }
    }
}

/// One running game.
#[derive(Debug)]
pub struct Game {
    pub is_started: bool,
    pub tiles: Vec<Tile>,
    pub teams: Teams,
    pub host_id: String,
    pub team_turn: TeamColour,
    pub next_action: Action,
    pub history: Vec<GameEvent>,
    pub winner: Option<TeamColour>,
}

impl View for Game {
    type V = GameModel;

    open spec fn view(&self) -> GameModel {
        GameModel {
            is_started: self.is_started,
            tiles: self.tiles@.map_values(|t: Tile| t@),
            teams: self.teams@,
            host_id: self.host_id@,
            team_turn: self.team_turn,
            next_action: self.next_action,
            history: self.history@.map_values(|e: GameEvent| e@),
            winner: self.winner,
        }
    }
}

/// If every event at or after position `i` is a guess, the clue and the
/// guess count of the whole history are those of the prefix before `i`,
/// plus the trailing guesses.
proof fn lemma_history_suffix(h: Seq<EventModel>, i: int)
    requires
        0 <= i <= h.len(),
        forall|j: int| i <= j < h.len() ==> (#[trigger] h[j]) matches EventModel::Guess(_),
    ensures
        guesses_since_clue(h) == guesses_since_clue(h.take(i)) + (h.len() - i),
        current_clue(h) == current_clue(h.take(i)),
    decreases h.len() - i,
{
    if i == h.len() {
        assert(h.take(i) =~= h);
    } else {
        assert(h[h.len() - 1] matches EventModel::Guess(_));
        lemma_history_suffix(h.drop_last(), i);
        assert(h.drop_last().take(i) =~= h.take(i));
    }
}

impl Game {
    /// The game invariant, together with the rosters' own well-formedness.
    pub open spec fn wf(self) -> bool {
        self.teams.wf() && self@.inv()
    }

    /// A not-yet-started game over a given board, with an empty roster and
    /// an empty history.
    pub fn new(tiles: Vec<Tile>, host_id: String, first_turn: TeamColour) -> (r: Game)
        requires
            tiles@.len() == 25,
        ensures
            r.wf(),
            r@ == (GameModel {
                is_started: false,
                tiles: tiles@.map_values(|t: Tile| t@),
                teams: TeamsModel::spec_empty(),
                host_id: host_id@,
                team_turn: first_turn,
                next_action: Action::Clue,
                history: Seq::<EventModel>::empty(),
                winner: None,
            }),
    {
        let r = Game {
            is_started: false,
            tiles,
            teams: Teams::new(),
            host_id,
            team_turn: first_turn,
            next_action: Action::Clue,
            history: Vec::new(),
            winner: None,
        };
        proof {
            assert(r.history@.map_values(|e: GameEvent| e@) =~= Seq::<EventModel>::empty());
        }
        r
    }

    /// Whether a player id belongs to any of the five groups.
    pub fn player_exists(&self, player_id: &String) -> (r: bool)
        ensures
            r == self@.teams.contains(player_id@),
    {
        self.teams.player_exists(player_id)
    }

    fn validate_team(&self, team: &Team) -> (r: Result<(), CodeNamesError>)
        requires
            team.wf(),
        ensures
            r == if team@.valid_for_start() {
                Ok::<(), CodeNamesError>(())
            } else {
                Err::<(), CodeNamesError>(CodeNamesError::NotEnoughPlayersError)
            },
    {
        if team.spy_masters.len() != 1 {
            Err(CodeNamesError::NotEnoughPlayersError)
        } else if team.guessers.len() == 0 {
            Err(CodeNamesError::NotEnoughPlayersError)
        } else {
            Ok(())
        }
    }

    /// Start the game. Only the host may start it, only once, and only when
    /// both teams have exactly one spy master and at least one guesser.
    pub fn start(&mut self, player_id: &String) -> (r: Result<(), CodeNamesError>)
        requires
            old(self).wf(),
        ensures
            final(self).wf(),
            (match old(self)@.start_tr(player_id@) {
                Ok(m) => r == Ok::<(), CodeNamesError>(()) && final(self)@ == m,
                Err(e) => r == Err::<(), CodeNamesError>(e) && final(self)@ == old(self)@,
            }),
    {
        if self.is_started {
            return Err(CodeNamesError::GameAlreadyStartedError);
        }
        if !(self.host_id == *player_id) {
            return Err(CodeNamesError::NotHostError);
        }
        match self.validate_team(&self.teams.blue) {
            Err(e) => return Err(e),
            Ok(()) => {},
        }
        match self.validate_team(&self.teams.red) {
            Err(e) => return Err(e),
            Ok(()) => {},
        }
        self.is_started = true;
        Ok(())
    }

    /// Add a player. A new player always enters the spectators.
    pub fn add_player(&mut self, player_id: &String, player: Player) -> (r: Result<
        (),
        CodeNamesError,
    >)
        requires
            old(self).wf(),
        ensures
            final(self).wf(),
            (match old(self)@.add_player_tr(player_id@, player@) {
                Ok(m) => r == Ok::<(), CodeNamesError>(()) && final(self)@ == m,
                Err(e) => r == Err::<(), CodeNamesError>(e) && final(self)@ == old(self)@,
            }),
    {
        if self.teams.player_exists(player_id) {
            return Err(CodeNamesError::PlayerAlreadyInGameError);
        }
        self.teams.insert_into(Group::Spectators, player_id.clone(), player);
        Ok(())
    }

    /// Move a player to another group. Any number of moves is allowed; team
    /// balance is only checked by `start`.
    pub fn move_player(&mut self, player_id: &String, new_group: Group) -> (r: Result<
        (),
        CodeNamesError,
    >)
        requires
            old(self).wf(),
        ensures
            final(self).wf(),
            (match old(self)@.move_player_tr(player_id@, new_group) {
                Ok(m) => r == Ok::<(), CodeNamesError>(()) && final(self)@ == m,
                Err(e) => r == Err::<(), CodeNamesError>(e) && final(self)@ == old(self)@,
            }),
    {
        let g = match self.teams.group_of_player(player_id) {
            Some(g) => g,
            None => return Err(CodeNamesError::NoSuchPlayerError),
        };
        let mut player = match self.teams.remove_from(g, player_id) {
            Some(p) => p,
            None => {
                proof {
                    assert(false);
                }
                return Err(CodeNamesError::NoSuchPlayerError);
            },
        };
        player.group = new_group;
        proof {
            assert forall|g2: Group| g2 != new_group implies !(#[trigger] self.teams@.group_map(
                g2,
            ).dom().contains(player_id@)) by {
                if g2 != g && self.teams@.group_map(g2).dom().contains(player_id@) {
                    assert(old(self).teams@.group_map(g2).dom().contains(player_id@));
                    assert(old(self).teams@.group_map(g).dom().contains(player_id@));
                }
            }
        }
        self.teams.insert_into(new_group, player_id.clone(), player);
        Ok(())
    }

    /// Remove a player from whichever group holds it.
    pub fn remove_player(&mut self, player_id: &String) -> (r: Result<(), CodeNamesError>)
        requires
            old(self).wf(),
        ensures
            final(self).wf(),
            (match old(self)@.remove_player_tr(player_id@) {
                Ok(m) => r == Ok::<(), CodeNamesError>(()) && final(self)@ == m,
                Err(e) => r == Err::<(), CodeNamesError>(e) && final(self)@ == old(self)@,
            }),
    {
        let g = match self.teams.group_of_player(player_id) {
            Some(g) => g,
            None => return Err(CodeNamesError::NoSuchPlayerError),
        };
        self.teams.remove_from(g, player_id);
        Ok(())
    }

    fn expected_group(&self) -> (r: Group)
        ensures
            r == self@.expected_group(),
    {
        match (self.next_action, self.team_turn) {
            (Action::Clue, TeamColour::Red) => Group::RedSpyMasters,
            (Action::Clue, TeamColour::Blue) => Group::BlueSpyMasters,
            (Action::Guess, TeamColour::Red) => Group::RedGuessers,
            (Action::Guess, TeamColour::Blue) => Group::BlueGuessers,
        }
    }

    fn validate_player(&self, player_id: &String) -> (r: Result<(), CodeNamesError>)
        requires
            self.wf(),
        ensures
            r == (match self@.player_err(player_id@) {
                None => Ok::<(), CodeNamesError>(()),
                Some(e) => Err::<(), CodeNamesError>(e),
            }),
    {
        let exp = self.expected_group();
        match self.teams.get_from(exp, player_id) {
            Some(_) => Ok(()),
            None => match self.teams.group_of_player(player_id) {
                Some(act) => Err(
                    CodeNamesError::IllegalPlayerGroupError { exp_group: exp, act_group: act },
                ),
                None => Err(CodeNamesError::NoSuchPlayerError),
            },
        }
    }

    /// Record a clue. Only the active team's spy master may give one, and
    /// only when a clue is expected.
    pub fn provide_clue(&mut self, player_id: &String, clue: Clue) -> (r: Result<
        (),
        CodeNamesError,
    >)
        requires
            old(self).wf(),
        ensures
            final(self).wf(),
            (match old(self)@.provide_clue_tr(player_id@, clue@) {
                Ok(m) => r == Ok::<(), CodeNamesError>(()) && final(self)@ == m,
                Err(e) => r == Err::<(), CodeNamesError>(e) && final(self)@ == old(self)@,
            }),
    {
        if !self.is_started {
            return Err(CodeNamesError::GameNotStartedError);
        }
        if self.winner.is_some() {
            return Err(CodeNamesError::InvalidActionError);
        }
        if !(self.next_action == Action::Clue) {
            return Err(CodeNamesError::InvalidActionError);
        }
        match self.validate_player(player_id) {
            Err(e) => return Err(e),
            Ok(()) => {},
        }
        let ghost pre = self@;
        self.history.push(GameEvent::Clue(clue));
        self.next_action = Action::Guess;
        proof {
            assert(self@.history =~= pre.history.push(EventModel::Clue(clue@)));
            assert(self@ =~~= (GameModel {
                history: pre.history.push(EventModel::Clue(clue@)),
                next_action: Action::Guess,
                ..pre
            }));
        }
        Ok(())
    }

    fn can_guess_more(&self) -> (r: bool)
        requires
            self@.tiles.len() == 25,
            self@.history.len() > 0,
            self@.history.last() matches EventModel::Guess(t) && t.tile_index < 25,
            current_clue(self@.history) is Some,
        ensures
            r == ({
                &&& (self@.history.last() matches EventModel::Guess(t) && self@.tiles[
                    t.tile_index as int
                ].colour == self@.team_turn.tile_colour())
                &&& (current_clue(self@.history) matches Some(c) && guesses_since_clue(
                    self@.history,
                ) < c.count)
            }),
    {
        let ghost h = self@.history;
        let last_index = self.history.len() - 1;
        let last_guess = match &self.history[last_index] {
            GameEvent::Guess(t) => *t,
            GameEvent::Clue(_) => {
                proof {
                    assert(false);
                }
                return false;
            },
        };
        let own_colour = match self.team_turn {
            TeamColour::Red => TileColour::Red,
            TeamColour::Blue => TileColour::Blue,
        };
        proof {
            assert(h.last() == EventModel::Guess(last_guess));
            assert(self@.tiles[last_guess.tile_index as int].colour == self.tiles@[
                last_guess.tile_index as int
            ]@.colour);
        }
        if !(match self.tiles[last_guess.tile_index as usize].colour {
            TileColour::Red => own_colour == TileColour::Red,
            TileColour::Blue => own_colour == TileColour::Blue,
            TileColour::Grey => false,
            TileColour::Black => false,
        }) {
            return false;
        }
        let mut i = self.history.len();
        let mut guesses: usize = 0;
        while i > 0
            invariant
                0 <= i <= h.len(),
                h == self@.history,
                h.len() == self.history.len(),
                guesses == h.len() - i,
                current_clue(h) is Some,
                self@.tiles.len() == 25,
                (h.last() matches EventModel::Guess(t) && t.tile_index < 25),
                (h.last() matches EventModel::Guess(t) && self@.tiles[t.tile_index as int].colour
                    == self@.team_turn.tile_colour()),
                forall|j: int| i <= j < h.len() ==> (#[trigger] h[j]) matches EventModel::Guess(
                    _,
                ),
            decreases i,
        {
            i -= 1;
            match &self.history[i] {
                GameEvent::Clue(c) => {
                    proof {
                        lemma_history_suffix(h, i + 1);
                        assert(h.take(i + 1).last() == h[i as int]);
                        assert(guesses_since_clue(h.take(i + 1)) == 0);
                        assert(current_clue(h.take(i + 1)) == Some(c@));
                    }
                    return guesses < c.count as usize;
                },
                GameEvent::Guess(_) => {
                    guesses += 1;
                },
            }
        }
        proof {
            lemma_history_suffix(h, 0);
            assert(h.take(0) =~= Seq::<EventModel>::empty());
            assert(false);
        }
        false
    }

    /// Record a guess. Only the active team's guesser may guess, only when a
    /// guess is expected, and only at a board position. A guess that is not
    /// the team's own colour, or that exhausts the clue's count, ends the
    /// turn; the Black tile also ends the game.
    pub fn guess(&mut self, player_id: &String, guess: Guess) -> (r: Result<(), CodeNamesError>)
        requires
            old(self).wf(),
        ensures
            final(self).wf(),
            (match old(self)@.guess_tr(player_id@, guess) {
                Ok(m) => r == Ok::<(), CodeNamesError>(()) && final(self)@ == m,
                Err(e) => r == Err::<(), CodeNamesError>(e) && final(self)@ == old(self)@,
            }),
    {
        if !self.is_started {
            return Err(CodeNamesError::GameNotStartedError);
        }
        if self.winner.is_some() {
            return Err(CodeNamesError::InvalidActionError);
        }
        if !(self.next_action == Action::Guess) {
            return Err(CodeNamesError::InvalidActionError);
        }
        match self.validate_player(player_id) {
            Err(e) => return Err(e),
            Ok(()) => {},
        }
        if guess.tile_index >= 25 {
            return Err(CodeNamesError::TileIndexOutOfBoundsError { tile_index: guess.tile_index });
        }
        let ghost pre = self@;
        let colour = self.tiles[guess.tile_index as usize].colour;
        self.history.push(GameEvent::Guess(guess));
        proof {
            assert(self@.history =~= pre.history.push(EventModel::Guess(guess)));
            assert(self@.history.drop_last() =~= pre.history);
            assert(self@.history.last() == EventModel::Guess(guess));
            assert(current_clue(self@.history) == current_clue(pre.history));
        }
        let cont = self.can_guess_more();
        proof {
            assert(self@.history.last() == EventModel::Guess(guess));
            assert(cont == pre.turn_continues(guess));
        }
        if colour == TileColour::Black {
            self.winner = Some(self.team_turn.other());
        }
        if !cont {
            self.next_action = Action::Clue;
            self.team_turn = self.team_turn.other();
        }
        proof {
            assert(self@ =~~= (match pre.guess_tr(player_id@, guess) {
                Ok(m) => m,
                Err(_) => pre,
            }));
        }
        Ok(())
    }
}

impl Clone for Game {
    fn clone(&self) -> (res: Self)
        ensures
            res@ == self@,
            res.wf() == self.wf(),
    {
        let mut tiles: Vec<Tile> = Vec::new();
        let mut i: usize = 0;
        while i < self.tiles.len()
            invariant
                i <= self.tiles@.len(),
                tiles@.len() == i,
                forall|j: int| 0 <= j < i ==> tiles@[j] == self.tiles@[j],
            decreases self.tiles@.len() - i,
        {
            tiles.push(self.tiles[i].clone());
            i += 1;
        }
        let mut history: Vec<GameEvent> = Vec::new();
        let mut k: usize = 0;
        while k < self.history.len()
            invariant
                k <= self.history@.len(),
                history@.len() == k,
                forall|j: int| 0 <= j < k ==> history@[j] == self.history@[j],
            decreases self.history@.len() - k,
        {
            history.push(self.history[k].clone());
            k += 1;
        }
        proof {
            assert(tiles@ =~= self.tiles@);
            assert(history@ =~= self.history@);
        }
        let res = Game {
            is_started: self.is_started,
            tiles,
            teams: self.teams.clone(),
            host_id: self.host_id.clone(),
            team_turn: self.team_turn,
            next_action: self.next_action,
            history,
            winner: self.winner,
        };
        proof {
            assert(res@ =~~= self@);
        }
        res
    }
}

/// `start` succeeds exactly when the game has not started, the caller is
/// the host, and both teams have exactly one spy master and at least one
/// guesser; a mere roster shortfall is reported as `NotEnoughPlayers`,
/// regardless of how many spectators there are.
pub proof fn lemma_start_condition(g: GameModel, pid: Seq<char>)
    ensures
        (g.start_tr(pid) matches Ok(_)) <==> (!g.is_started && g.host_id == pid
            && g.teams.blue.valid_for_start() && g.teams.red.valid_for_start()),
        (!g.is_started && g.host_id == pid && !(g.teams.blue.valid_for_start()
            && g.teams.red.valid_for_start())) ==> g.start_tr(pid) == Err::<
            GameModel,
            CodeNamesError,
        >(CodeNamesError::NotEnoughPlayersError),
{
}

/// A successful clue always moves the game to the guessing state and never
/// hands the turn over; a successful guess moves it back to the clue state
/// exactly when the turn ends, and the turn flips exactly then. No other
/// operation touches `team_turn` or `next_action`.
pub proof fn lemma_clue_guess_alternation(
    g: GameModel,
    pid: Seq<char>,
    c: ClueModel,
    t: Guess,
    p: PlayerModel,
    new_group: Group,
)
    ensures
        g.provide_clue_tr(pid, c) matches Ok(m) ==> m.next_action == Action::Guess && m.team_turn
            == g.team_turn,
        g.guess_tr(pid, t) matches Ok(m) ==> m.next_action == (if g.turn_continues(t) {
            Action::Guess
        } else {
            Action::Clue
        }) && m.team_turn == (if g.turn_continues(t) {
            g.team_turn
        } else {
            g.team_turn.spec_other()
        }),
        g.start_tr(pid) matches Ok(m) ==> m.team_turn == g.team_turn && m.next_action
            == g.next_action,
        g.add_player_tr(pid, p) matches Ok(m) ==> m.team_turn == g.team_turn && m.next_action
            == g.next_action,
        g.move_player_tr(pid, new_group) matches Ok(m) ==> m.team_turn == g.team_turn
            && m.next_action == g.next_action,
        g.remove_player_tr(pid) matches Ok(m) ==> m.team_turn == g.team_turn && m.next_action
            == g.next_action,
{
}

/// The board is immutable after creation and the history is append-only:
/// no operation replaces a tile, and no operation shrinks or reorders the
/// history. Roster changes and `start` leave the history untouched; a
/// successful clue or guess appends exactly one event.
pub proof fn lemma_board_and_history_stability(
    g: GameModel,
    pid: Seq<char>,
    c: ClueModel,
    t: Guess,
    p: PlayerModel,
    new_group: Group,
)
    ensures
        g.start_tr(pid) matches Ok(m) ==> m.tiles == g.tiles && m.history == g.history,
        g.add_player_tr(pid, p) matches Ok(m) ==> m.tiles == g.tiles && m.history == g.history,
        g.move_player_tr(pid, new_group) matches Ok(m) ==> m.tiles == g.tiles && m.history
            == g.history,
        g.remove_player_tr(pid) matches Ok(m) ==> m.tiles == g.tiles && m.history == g.history,
        g.provide_clue_tr(pid, c) matches Ok(m) ==> m.tiles == g.tiles && m.history
            == g.history.push(EventModel::Clue(c)),
        g.guess_tr(pid, t) matches Ok(m) ==> m.tiles == g.tiles && m.history == g.history.push(
            EventModel::Guess(t),
        ),
{
}

/// Guessing an opponent-colour, Grey or Black tile ends the turn and flips
/// it to the other team; guessing an own-colour tile while the clue's count
/// still allows a further guess keeps the game guessing with the turn
/// unchanged; and guessing the Black tile makes the opposing team the
/// winner.
pub proof fn lemma_guess_outcome(g: GameModel, pid: Seq<char>, t: Guess)
    requires
        g.inv(),
    ensures
        g.guess_tr(pid, t) matches Ok(m) ==> ({
            let colour = g.tiles[t.tile_index as int].colour;
            &&& (colour != g.team_turn.tile_colour() ==> m.next_action == Action::Clue
                && m.team_turn == g.team_turn.spec_other())
            &&& ((colour == g.team_turn.tile_colour() && (current_clue(g.history) matches Some(c)
                && guesses_since_clue(g.history) + 1 < c.count)) ==> m.next_action == Action::Guess
                && m.team_turn == g.team_turn)
            &&& (colour == TileColour::Black ==> m.winner == Some(g.team_turn.spec_other()))
            &&& (colour != TileColour::Black ==> m.winner == g.winner)
        }),
{
    if g.guess_tr(pid, t) is Ok {
        let h = g.history.push(EventModel::Guess(t));
        assert(h.drop_last() =~= g.history);
        assert(guesses_since_clue(h) == guesses_since_clue(g.history) + 1);
        assert(current_clue(h) == current_clue(g.history));
    }
}

} // verus!
