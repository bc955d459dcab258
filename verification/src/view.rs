//! The view projector: the role-redacted projection of a game for exactly
//! one viewing player. A view is derived, never stored, and recomputed on
//! every broadcast.

use vstd::prelude::*;

use crate::game::{tile_guessed, Game, GameModel};
use crate::models::{
    Action, EventModel, GameEvent, Group, Player, PlayerModel, TeamColour, TileColour,
};
use crate::roster::{Teams, TeamsModel};

verus! {

/// One tile as a viewer sees it: the word always, the colour only when the
/// viewer is permitted to see it.
#[derive(Debug)]
pub struct Tile {
    pub word: String,
    pub colour: Option<TileColour>,
}

/// The abstract value of a view [`Tile`].
pub struct ViewTileModel {
    pub word: Seq<char>,
    pub colour: Option<TileColour>,
}

impl View for Tile {
    type V = ViewTileModel;

    open spec fn view(&self) -> ViewTileModel {
        ViewTileModel { word: self.word@, colour: self.colour }
    }
}

/// What one participant may see of a game. Rosters, the history and the
/// turn state are public; tile colours are redacted by role.
#[derive(Debug)]
pub struct GameView {
    pub is_started: bool,
    pub tiles: Vec<Tile>,
    pub teams: Teams,
    pub this_player: Player,
    pub team_turn: TeamColour,
    pub next_action: Action,
    pub history: Vec<GameEvent>,
    pub winner: Option<TeamColour>,
}

/// The abstract value of a [`GameView`].
#[verifier::ext_equal]
pub struct GameViewModel {
    pub is_started: bool,
    pub tiles: Seq<ViewTileModel>,
    pub teams: TeamsModel,
    pub this_player: PlayerModel,
    pub team_turn: TeamColour,
    pub next_action: Action,
    pub history: Seq<EventModel>,
    pub winner: Option<TeamColour>,
}

impl View for GameView {
    type V = GameViewModel;

    open spec fn view(&self) -> GameViewModel {
        GameViewModel {
            is_started: self.is_started,
            tiles: self.tiles@.map_values(|t: Tile| t@),
            teams: self.teams@,
            this_player: self.this_player@,
            team_turn: self.team_turn,
            next_action: self.next_action,
            history: self.history@.map_values(|e: GameEvent| e@),
            winner: self.winner,
        }
    }
}

/// An outbound realtime message: a fresh view of the game's state.
#[derive(Debug)]
pub enum ServerMessage {
    StateUpdate(GameView),
}

/// What a viewer is permitted to see: a tile's colour is shown if and only
/// if the viewer is a spy master or the tile has already been guessed;
/// every other field passes through unredacted.
pub open spec fn spec_view_of(g: GameModel, is_spymaster: bool, pid: Seq<char>) -> GameViewModel {
    GameViewModel {
        is_started: g.is_started,
        tiles: Seq::new(
            g.tiles.len(),
            |i: int|
                ViewTileModel {
                    word: g.tiles[i].word,
                    colour: if is_spymaster || tile_guessed(g.history, i) {
                        Some(g.tiles[i].colour)
                    } else {
                        None
                    },
                },
        ),
        teams: g.teams,
        this_player: g.teams.player_of(pid),
        team_turn: g.team_turn,
        next_action: g.next_action,
        history: g.history,
        winner: g.winner,
    }
}

fn index_guessed(history: &Vec<GameEvent>, idx: u8) -> (r: bool)
    ensures
        r == tile_guessed(history@.map_values(|e: GameEvent| e@), idx as int),
{
    let ghost h = history@.map_values(|e: GameEvent| e@);
    let mut j: usize = 0;
    let mut found = false;
    while j < history.len()
        invariant
            j <= history@.len(),
            h == history@.map_values(|e: GameEvent| e@),
            h.len() == history@.len(),
            found <==> exists|k: int|
                0 <= k < j && ((#[trigger] h[k]) matches EventModel::Guess(t) && t.tile_index
                    == idx),
        decreases history@.len() - j,
    {
        match &history[j] {
            GameEvent::Guess(t) => {
                if t.tile_index == idx {
                    proof {
                        assert(h[j as int] matches EventModel::Guess(t2) && t2.tile_index == idx);
                    }
                    found = true;
                }
            },
            GameEvent::Clue(_) => {},
        }
        j += 1;
    }
    found
}

impl GameView {
    /// Project a game for one viewer, who must already be a participant.
    /// The caller says whether the viewer is a spy master; the projection
    /// reveals a tile's colour only to a spy master or where play has
    /// already revealed it.
    pub fn from_game(game: Game, is_spymaster: bool, player_id: &String) -> (r: GameView)
        requires
            game.wf(),
            game@.teams.contains(player_id@),
        ensures
            r@ == spec_view_of(game@, is_spymaster, player_id@),
    {
        let this_player = match game.teams.group_of_player(player_id) {
            Some(g) => match game.teams.get_from(g, player_id) {
                Some(p) => p.clone(),
                None => {
                    proof {
                        assert(false);
                    }
                    Player { name: String::new(), group: Group::Spectators, is_host: false }
                },
            },
            None => {
                proof {
                    assert(false);
                }
                Player { name: String::new(), group: Group::Spectators, is_host: false }
            },
        };
        let mut tiles: Vec<Tile> = Vec::new();
        let mut i: usize = 0;
        while i < game.tiles.len()
            invariant
                i <= game.tiles@.len(),
                game.wf(),
                tiles@.len() == i,
                forall|j: int| 0 <= j < i ==> (#[trigger] tiles@[j])@ == spec_view_of(
                    game@,
                    is_spymaster,
                    player_id@,
                ).tiles[j],
            decreases game.tiles@.len() - i,
        {
            proof {
                assert(i < 25);
            }
            let revealed = is_spymaster || index_guessed(&game.history, i as u8);
            let colour = if revealed {
                Some(game.tiles[i].colour)
            } else {
                None
            };
            tiles.push(Tile { word: game.tiles[i].word.clone(), colour });
            i += 1;
        }
        let r = GameView {
            is_started: game.is_started,
            tiles,
            teams: game.teams,
            this_player,
            team_turn: game.team_turn,
            next_action: game.next_action,
            history: game.history,
            winner: game.winner,
        };
        proof {
            assert(r@ =~~= spec_view_of(game@, is_spymaster, player_id@));
        }
        r
    }
}

/// A viewer who is not a spy master has every tile colour withheld except
/// on tiles already revealed by a guess; a spy master's view reveals every
/// tile colour.
pub proof fn lemma_view_redaction(g: GameModel, is_spymaster: bool, pid: Seq<char>)
    ensures
        !is_spymaster ==> forall|i: int|
            0 <= i < g.tiles.len() && !tile_guessed(g.history, i) ==> (#[trigger] spec_view_of(
                g,
                is_spymaster,
                pid,
            ).tiles[i]).colour is None,
        !is_spymaster ==> forall|i: int|
            0 <= i < g.tiles.len() && tile_guessed(g.history, i) ==> (#[trigger] spec_view_of(
                g,
                is_spymaster,
                pid,
            ).tiles[i]).colour == Some(g.tiles[i].colour),
        is_spymaster ==> forall|i: int|
            0 <= i < g.tiles.len() ==> (#[trigger] spec_view_of(g, is_spymaster, pid).tiles[
                i
            ]).colour == Some(g.tiles[i].colour),
{
}

} // verus!
