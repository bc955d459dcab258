//! Team rosters: the five membership groups and the invariant that a player
//! id occupies at most one of them.

use vstd::prelude::*;

use crate::models::{Group, Player, PlayerModel};
use crate::string_map::StringMap;

verus! {

/// One team's roster: its spy masters and its guessers.
#[derive(Debug)]
pub struct Team {
    pub spy_masters: StringMap<Player>,
    pub guessers: StringMap<Player>,
}

/// The abstract value of a [`Team`].
#[verifier::ext_equal]
pub struct TeamModel {
    pub spy_masters: Map<Seq<char>, PlayerModel>,
    pub guessers: Map<Seq<char>, PlayerModel>,
}

impl View for Team {
    type V = TeamModel;

    open spec fn view(&self) -> TeamModel {
        TeamModel { spy_masters: self.spy_masters@, guessers: self.guessers@ }
    }
}

impl Team {
    /// Both group maps have distinct keys.
    pub open spec fn wf(self) -> bool {
        self.spy_masters.wf() && self.guessers.wf()
    }

    fn new() -> (r: Self)
        ensures
            r.wf(),
            r@ == TeamModel::spec_empty(),
    {
        Team { spy_masters: StringMap::new(), guessers: StringMap::new() }
    }
}

impl Default for Team {
    /// A team with no members.
    fn default() -> (r: Self)
        ensures
            r.wf(),
            r@ == TeamModel::spec_empty(),
    {
        Team::new()
    }
}

impl Clone for Team {
    fn clone(&self) -> (res: Self)
        ensures
            res@ == self@,
            res.wf() == self.wf(),
    {
        Team { spy_masters: self.spy_masters.clone(), guessers: self.guessers.clone() }
    }
}

impl TeamModel {
    /// A team with no members.
    pub open spec fn spec_empty() -> TeamModel {
        TeamModel {
            spy_masters: Map::empty(),
            guessers: Map::empty(),
        }
    }

    /// Exactly one spy master and at least one guesser: what `start` demands.
    pub open spec fn valid_for_start(self) -> bool {
        self.spy_masters.len() == 1 && self.guessers.len() >= 1
    }
}

/// The full roster: the two teams and the spectators.
#[derive(Debug)]
pub struct Teams {
    pub blue: Team,
    pub red: Team,
    pub spectators: StringMap<Player>,
}

/// The abstract value of a [`Teams`].
#[verifier::ext_equal]
pub struct TeamsModel {
    pub blue: TeamModel,
    pub red: TeamModel,
    pub spectators: Map<Seq<char>, PlayerModel>,
}

impl View for Teams {
    type V = TeamsModel;

    open spec fn view(&self) -> TeamsModel {
        TeamsModel { blue: self.blue@, red: self.red@, spectators: self.spectators@ }
    }
}

impl TeamsModel {
    /// A roster with no members at all.
    pub open spec fn spec_empty() -> TeamsModel {
        TeamsModel {
            blue: TeamModel::spec_empty(),
            red: TeamModel::spec_empty(),
            spectators: Map::empty(),
        }
    }

    /// The map that stores one group's members.
    pub open spec fn group_map(self, g: Group) -> Map<Seq<char>, PlayerModel> {
        match g {
            Group::Spectators => self.spectators,
            Group::BlueGuessers => self.blue.guessers,
            Group::BlueSpyMasters => self.blue.spy_masters,
            Group::RedGuessers => self.red.guessers,
            Group::RedSpyMasters => self.red.spy_masters,
        }
    }

    /// This roster with one group's map replaced.
    pub open spec fn set_group(self, g: Group, m: Map<Seq<char>, PlayerModel>) -> TeamsModel {
        match g {
            Group::Spectators => TeamsModel { spectators: m, ..self },
            Group::BlueGuessers => TeamsModel {
                blue: TeamModel { guessers: m, ..self.blue },
                ..self
            },
            Group::BlueSpyMasters => TeamsModel {
                blue: TeamModel { spy_masters: m, ..self.blue },
                ..self
            },
            Group::RedGuessers => TeamsModel {
                red: TeamModel { guessers: m, ..self.red },
                ..self
            },
            Group::RedSpyMasters => TeamsModel {
                red: TeamModel { spy_masters: m, ..self.red },
                ..self
            },
        }
    }

    /// This roster with an id removed from one group.
    pub open spec fn remove_member(self, g: Group, id: Seq<char>) -> TeamsModel {
        self.set_group(g, self.group_map(g).remove(id))
    }

    /// This roster with a player bound in one group.
    pub open spec fn insert_member(self, g: Group, id: Seq<char>, p: PlayerModel) -> TeamsModel {
        self.set_group(g, self.group_map(g).insert(id, p))
    }

    /// The group an id belongs to, if any.
    pub open spec fn group_of(self, id: Seq<char>) -> Option<Group> {
        if self.spectators.dom().contains(id) {
            Some(Group::Spectators)
        } else if self.blue.spy_masters.dom().contains(id) {
            Some(Group::BlueSpyMasters)
        } else if self.blue.guessers.dom().contains(id) {
            Some(Group::BlueGuessers)
        } else if self.red.spy_masters.dom().contains(id) {
            Some(Group::RedSpyMasters)
        } else if self.red.guessers.dom().contains(id) {
            Some(Group::RedGuessers)
        } else {
            None
        }
    }

    /// Whether an id belongs to any of the five groups.
    pub open spec fn contains(self, id: Seq<char>) -> bool {
        self.group_of(id) is Some
    }

    /// The player bound to an id, wherever it is stored.
    pub open spec fn player_of(self, id: Seq<char>) -> PlayerModel
        recommends
            self.contains(id),
    {
        match self.group_of(id) {
            Some(g) => self.group_map(g)[id],
            None => arbitrary(),
        }
    }

    /// No id belongs to two groups.
    pub open spec fn wf(self) -> bool {
        forall|id: Seq<char>, g1: Group, g2: Group|
            #![trigger self.group_map(g1).dom().contains(id), self.group_map(g2).dom().contains(id)]
            g1 != g2 && self.group_map(g1).dom().contains(id)
                ==> !self.group_map(g2).dom().contains(id)
    }

    /// No id belongs to any group.
    pub open spec fn no_players(self) -> bool {
        forall|id: Seq<char>| !self.contains(id)
    }
}

/// A player id can occupy at most one of the five groups at any time:
/// membership in one group excludes membership in every other.
pub proof fn lemma_player_in_at_most_one_group(t: TeamsModel, id: Seq<char>, g1: Group, g2: Group)
    requires
        t.wf(),
        g1 != g2,
        t.group_map(g1).dom().contains(id),
    ensures
        !t.group_map(g2).dom().contains(id),
{
}

impl Teams {
    /// All five group maps have distinct keys and no id is in two groups.
    pub open spec fn wf(self) -> bool {
        &&& self.spectators.wf()
        &&& self.blue.wf()
        &&& self.red.wf()
        &&& self@.wf()
    }

    /// A roster with no members.
    pub fn new() -> (r: Self)
        ensures
            r.wf(),
            r@ == TeamsModel::spec_empty(),
    {
        Teams { blue: Team::new(), red: Team::new(), spectators: StringMap::new() }
    }

    /// The group a player id belongs to, if any.
    pub fn group_of_player(&self, id: &String) -> (r: Option<Group>)
        ensures
            r == self@.group_of(id@),
    {
        if self.spectators.contains_key(id) {
            Some(Group::Spectators)
        } else if self.blue.spy_masters.contains_key(id) {
            Some(Group::BlueSpyMasters)
        } else if self.blue.guessers.contains_key(id) {
            Some(Group::BlueGuessers)
        } else if self.red.spy_masters.contains_key(id) {
            Some(Group::RedSpyMasters)
        } else if self.red.guessers.contains_key(id) {
            Some(Group::RedGuessers)
        } else {
            None
        }
    }

    /// Whether a player id belongs to any group.
    pub fn player_exists(&self, id: &String) -> (r: bool)
        ensures
            r == self@.contains(id@),
    {
        match self.group_of_player(id) {
            Some(_) => true,
            None => false,
        }
    }

    /// Look a player up inside one group.
    pub fn get_from(&self, g: Group, id: &String) -> (r: Option<&Player>)
        requires
            self.wf(),
        ensures
            match r {
                Some(p) => self@.group_map(g).dom().contains(id@) && p@ == self@.group_map(g)[id@],
                None => !self@.group_map(g).dom().contains(id@),
            },
    {
        match g {
            Group::Spectators => self.spectators.get(id),
            Group::BlueGuessers => self.blue.guessers.get(id),
            Group::BlueSpyMasters => self.blue.spy_masters.get(id),
            Group::RedGuessers => self.red.guessers.get(id),
            Group::RedSpyMasters => self.red.spy_masters.get(id),
        }
    }

    /// Remove a player id from one group.
    pub fn remove_from(&mut self, g: Group, id: &String) -> (r: Option<Player>)
        requires
            old(self).wf(),
        ensures
            final(self).wf(),
            final(self)@ == old(self)@.remove_member(g, id@),
            match r {
                Some(p) => old(self)@.group_map(g).dom().contains(id@)
                    && p@ == old(self)@.group_map(g)[id@],
                None => !old(self)@.group_map(g).dom().contains(id@),
            },
    {
        let r = match g {
            Group::Spectators => self.spectators.remove(id),
            Group::BlueGuessers => self.blue.guessers.remove(id),
            Group::BlueSpyMasters => self.blue.spy_masters.remove(id),
            Group::RedGuessers => self.red.guessers.remove(id),
            Group::RedSpyMasters => self.red.spy_masters.remove(id),
        };
        proof {
            assert(self@ =~~= old(self)@.remove_member(g, id@));
            assert forall|id2: Seq<char>, g1: Group, g2: Group|
                g1 != g2 && #[trigger] self@.group_map(g1).dom().contains(id2)
                    implies !(#[trigger] self@.group_map(g2).dom().contains(id2)) by {
                assert(old(self)@.group_map(g1).dom().contains(id2));
                assert(!old(self)@.group_map(g2).dom().contains(id2));
            }
        }
        r
    }

    /// Bind a player in one group. The id must not sit in another group.
    pub fn insert_into(&mut self, g: Group, id: String, player: Player)
        requires
            old(self).wf(),
            forall|g2: Group| g2 != g ==> !(#[trigger] old(self)@.group_map(g2).dom().contains(
                id@,
            )),
        ensures
            final(self).wf(),
            final(self)@ == old(self)@.insert_member(g, id@, player@),
    {
        let ghost id_view = id@;
        match g {
            Group::Spectators => self.spectators.insert(id, player),
            Group::BlueGuessers => self.blue.guessers.insert(id, player),
            Group::BlueSpyMasters => self.blue.spy_masters.insert(id, player),
            Group::RedGuessers => self.red.guessers.insert(id, player),
            Group::RedSpyMasters => self.red.spy_masters.insert(id, player),
        }
        proof {
            assert(self@ =~~= old(self)@.insert_member(g, id_view, player@));
            assert forall|id2: Seq<char>, g1: Group, g2: Group|
                g1 != g2 && #[trigger] self@.group_map(g1).dom().contains(id2)
                    implies !(#[trigger] self@.group_map(g2).dom().contains(id2)) by {
                if id2 == id_view {
                    if g1 != g {
                        assert(old(self)@.group_map(g1).dom().contains(id2));
                        assert(false);
                    }
                    assert(!old(self)@.group_map(g2).dom().contains(id_view));
                } else {
                    assert(old(self)@.group_map(g1).dom().contains(id2));
                    assert(!old(self)@.group_map(g2).dom().contains(id2));
                }
            }
        }
    }
}

impl Clone for Teams {
    fn clone(&self) -> (res: Self)
        ensures
            res@ == self@,
            res.wf() == self.wf(),
    {
        Teams {
            blue: self.blue.clone(),
            red: self.red.clone(),
            spectators: self.spectators.clone(),
        }
    }
}

} // verus!
