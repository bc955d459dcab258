//! The shared data model: colours, actions, membership groups, players,
//! clues, guesses and the events they leave in a game's history, together
//! with the abstract values that contracts speak of.

use vstd::prelude::*;

verus! {

/// The two competing teams.
#[derive(Clone, Copy, Debug, PartialEq, Eq, Structural)]
pub enum TeamColour {
    Red,
    Blue,
}

impl TeamColour {
    /// The opposing team.
    pub fn other(&self) -> (r: TeamColour)
        ensures
            r == self.spec_other(),
    {
        match self {
            TeamColour::Red => TeamColour::Blue,
            TeamColour::Blue => TeamColour::Red,
        }
    }

    /// The opposing team, for use in contracts.
    pub open spec fn spec_other(self) -> TeamColour {
        match self {
            TeamColour::Red => TeamColour::Blue,
            TeamColour::Blue => TeamColour::Red,
        }
    }

    /// The tile colour owned by this team.
    pub open spec fn tile_colour(self) -> TileColour {
        match self {
            TeamColour::Red => TileColour::Red,
            TeamColour::Blue => TileColour::Blue,
        }
    }
}

/// The colour of a board tile. `Black` is the single assassin tile.
#[derive(Clone, Copy, Debug, PartialEq, Eq, Structural)]
pub enum TileColour {
    Red,
    Blue,
    Grey,
    Black,
}

/// The kind of move the game expects next.
#[derive(Clone, Copy, Debug, PartialEq, Eq, Structural)]
pub enum Action {
    Clue,
    Guess,
}

/// The role a participant plays within their group.
#[derive(Clone, Copy, Debug, PartialEq, Eq, Structural)]
pub enum Role {
    SpyMaster,
    Guesser,
    Spectator,
}

/// The five membership groups. A player id occupies at most one of them.
#[derive(Clone, Copy, Debug, PartialEq, Eq, Structural)]
pub enum Group {
    Spectators,
    BlueGuessers,
    BlueSpyMasters,
    RedGuessers,
    RedSpyMasters,
}

/// A participant, as stored inside one of the five groups.
#[derive(Debug)]
pub struct Player {
    pub name: String,
    pub group: Group,
    pub is_host: bool,
}

/// The abstract value of a [`Player`].
pub struct PlayerModel {
    pub name: Seq<char>,
    pub group: Group,
    pub is_host: bool,
}

impl View for Player {
    type V = PlayerModel;

    open spec fn view(&self) -> PlayerModel {
        PlayerModel { name: self.name@, group: self.group, is_host: self.is_host }
    }
}

impl Clone for Player {
    fn clone(&self) -> (res: Self)
        ensures
            res == *self,
    {
        Player { name: self.name.clone(), group: self.group, is_host: self.is_host }
    }
}

/// A clue: one word and the number of guesses it is meant to cover.
#[derive(Debug)]
pub struct Clue {
    pub word: String,
    pub count: u8,
}

/// The abstract value of a [`Clue`].
pub struct ClueModel {
    pub word: Seq<char>,
    pub count: u8,
}

impl View for Clue {
    type V = ClueModel;

    open spec fn view(&self) -> ClueModel {
        ClueModel { word: self.word@, count: self.count }
    }
}

impl Clone for Clue {
    fn clone(&self) -> (res: Self)
        ensures
            res == *self,
    {
        Clue { word: self.word.clone(), count: self.count }
    }
}

/// A guess: the board position of the chosen tile.
#[derive(Clone, Copy, Debug, PartialEq, Eq, Structural)]
pub struct Guess {
    pub tile_index: u8,
}

/// One entry of a game's history.
#[derive(Debug)]
pub enum GameEvent {
    Clue(Clue),
    Guess(Guess),
}

/// The abstract value of a [`GameEvent`].
pub enum EventModel {
    Clue(ClueModel),
    Guess(Guess),
}

impl View for GameEvent {
    type V = EventModel;

    open spec fn view(&self) -> EventModel {
        match self {
            GameEvent::Clue(c) => EventModel::Clue(c@),
            GameEvent::Guess(g) => EventModel::Guess(*g),
        }
    }
}

impl Clone for GameEvent {
    fn clone(&self) -> (res: Self)
        ensures
            res == *self,
    {
        match self {
            GameEvent::Clue(c) => GameEvent::Clue(c.clone()),
            GameEvent::Guess(g) => GameEvent::Guess(*g),
        }
    }
}

/// A request to mutate one game, as sent over a realtime connection.
#[derive(Debug)]
pub enum EventRequest {
    StartGame,
    AddPlayer { name: String },
    MovePlayer { new_group: Group },
    RemovePlayer,
    Clue { word: String, count: u8 },
    Guess { tile_index: u8 },
}

/// An inbound realtime message: either a keep-alive or an event request.
#[derive(Debug)]
pub enum ClientMessage {
    Heartbeat,
    EventRequest(EventRequest),
}

/// The body of a create-game request.
#[derive(Debug)]
pub struct NewGameRequest {
    pub player_name: String,
}

/// The body of a create-game response: the fresh game id.
#[derive(Debug)]
pub struct NewGameResponse {
    pub game_id: String,
}

/// The body of a join-game request.
#[derive(Debug)]
pub struct JoinGameRequest {
    pub game_id: String,
    pub player_name: String,
}

/// The body of a membership-check response.
#[derive(Debug)]
pub struct PlayerJoinedResponse {
    pub already_joined: bool,
}

} // verus!
