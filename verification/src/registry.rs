//! The connection registry and broadcaster: the live realtime connections
//! of each game, and the per-connection views one broadcast must deliver
//! after a successful mutation. Callers guard the registry with the same
//! exclusion they use for game mutation and perform the actual sends.

use vstd::prelude::*;

use crate::game::Game;
use crate::roster::{Teams, TeamsModel};
use crate::string_map::StringMap;
use crate::view::{spec_view_of, GameView, ServerMessage};

verus! {

/// One live connection: its identity and the player behind it.
#[derive(Debug)]
pub struct Connection {
    pub connection_id: String,
    pub player_id: String,
}

/// The abstract value of a [`Connection`].
pub struct ConnectionModel {
    pub connection_id: Seq<char>,
    pub player_id: Seq<char>,
}

impl View for Connection {
    type V = ConnectionModel;

    open spec fn view(&self) -> ConnectionModel {
        ConnectionModel { connection_id: self.connection_id@, player_id: self.player_id@ }
    }
}

/// A connection list with the first entry of a given connection id removed;
/// the list itself when no entry has that id.
pub open spec fn remove_first_conn(s: Seq<Connection>, cid: Seq<char>) -> Seq<Connection>
    decreases s.len(),
{
    if s.len() == 0 {
        s
    } else if s.first().connection_id@ == cid {
        s.drop_first()
    } else {
        seq![s.first()] + remove_first_conn(s.drop_first(), cid)
    }
}

proof fn lemma_remove_first_conn_at(s: Seq<Connection>, cid: Seq<char>, i: int)
    requires
        0 <= i < s.len(),
        s[i].connection_id@ == cid,
        forall|j: int| 0 <= j < i ==> s[j].connection_id@ != cid,
    ensures
        remove_first_conn(s, cid) =~= s.remove(i),
    decreases i,
{
    if i == 0 {
        assert(s.drop_first() =~= s.remove(0));
    } else {
        assert(s.first().connection_id@ != cid);
        lemma_remove_first_conn_at(s.drop_first(), cid, i - 1);
        assert(s.drop_first()[i - 1] == s[i]);
        assert(seq![s.first()] + s.drop_first().remove(i - 1) =~= s.remove(i));
    }
}

proof fn lemma_remove_first_conn_absent(s: Seq<Connection>, cid: Seq<char>)
    requires
        forall|j: int| 0 <= j < s.len() ==> (#[trigger] s[j]).connection_id@ != cid,
    ensures
        remove_first_conn(s, cid) =~= s,
    decreases s.len(),
{
    if s.len() > 0 {
        lemma_remove_first_conn_absent(s.drop_first(), cid);
        assert(seq![s.first()] + s.drop_first() =~= s);
    }
}

/// Whether an id is a spy master of either team: the role flag the
/// broadcaster hands to the view projection, taken from current membership
/// and never cached.
pub open spec fn spec_is_spymaster(t: TeamsModel, pid: Seq<char>) -> bool {
    t.red.spy_masters.dom().contains(pid) || t.blue.spy_masters.dom().contains(pid)
}

fn is_spymaster(teams: &Teams, pid: &String) -> (r: bool)
    ensures
        r == spec_is_spymaster(teams@, pid@),
{
    teams.red.spy_masters.contains_key(pid) || teams.blue.spy_masters.contains_key(pid)
}

/// The live connections of every game that anyone is watching, keyed by
/// game id. A game id with no connection left holds no entry at all.
pub struct ConnectionRegistry {
    games: StringMap<Vec<Connection>>,
}

impl View for ConnectionRegistry {
    type V = Map<Seq<char>, Seq<Connection>>;

    closed spec fn view(&self) -> Map<Seq<char>, Seq<Connection>> {
        self.games@
    }
}

impl ConnectionRegistry {
    /// Game ids are distinct and no registered game has an empty
    /// connection list.
    pub closed spec fn wf(self) -> bool {
        &&& self.games.wf()
        &&& forall|k: Seq<char>| self.games@.dom().contains(k) ==> (#[trigger] self.games@[
            k
        ]).len() > 0
    }

    /// An empty registry.
    pub fn new() -> (r: Self)
        ensures
            r.wf(),
            r@ == Map::<Seq<char>, Seq<Connection>>::empty(),
    {
        ConnectionRegistry { games: StringMap::new() }
    }

    /// The connections registered on a game, in registration order.
    pub fn connections(&self, game_id: &String) -> (r: Option<&Vec<Connection>>)
        requires
            self.wf(),
        ensures
            match r {
                Some(v) => self@.dom().contains(game_id@) && v@ == self@[game_id@],
                None => !self@.dom().contains(game_id@),
            },
    {
        self.games.get(game_id)
    }

    /// Whether anyone is watching a game.
    pub fn has_connections(&self, game_id: &String) -> (r: bool)
        ensures
            r == self@.dom().contains(game_id@),
    {
        self.games.contains_key(game_id)
    }

    /// How many connections a game has; zero when nobody watches it.
    pub fn connection_count(&self, game_id: &String) -> (r: usize)
        requires
            self.wf(),
        ensures
            r == (if self@.dom().contains(game_id@) {
                self@[game_id@].len()
            } else {
                0
            }),
    {
        match self.games.get(game_id) {
            Some(v) => v.len(),
            None => 0,
        }
    }

    /// Record a new live connection for a game.
    pub fn register(&mut self, game_id: &String, connection_id: String, player_id: String)
        requires
            old(self).wf(),
        ensures
            final(self).wf(),
            final(self)@ == old(self)@.insert(
                game_id@,
                (if old(self)@.dom().contains(game_id@) {
                    old(self)@[game_id@]
                } else {
                    Seq::<Connection>::empty()
                }).push((Connection { connection_id, player_id })),
            ),
    {
        let conn = Connection { connection_id, player_id };
        let mut conns = match self.games.remove(game_id) {
            Some(v) => v,
            None => Vec::new(),
        };
        conns.push(conn);
        self.games.insert(game_id.clone(), conns);
        proof {
            assert(self@ =~~= old(self)@.insert(
                game_id@,
                (if old(self)@.dom().contains(game_id@) {
                    old(self)@[game_id@]
                } else {
                    Seq::<Connection>::empty()
                }).push((Connection { connection_id: conn.connection_id, player_id: conn.player_id })),
            ));
        }
    }

    /// Drop a closed connection. When the game's last connection goes, the
    /// game's entry goes with it: the registry holds no per-game state once
    /// no one is watching.
    pub fn unregister(&mut self, game_id: &String, connection_id: &String)
        requires
            old(self).wf(),
            old(self)@.dom().contains(game_id@),
        ensures
            final(self).wf(),
            ({
                let s2 = remove_first_conn(old(self)@[game_id@], connection_id@);
                final(self)@ == (if s2.len() == 0 {
                    old(self)@.remove(game_id@)
                } else {
                    old(self)@.insert(game_id@, s2)
                })
            }),
    {
        let mut conns = match self.games.remove(game_id) {
            Some(v) => v,
            None => {
                proof {
                    assert(false);
                }
                Vec::new()
            },
        };
        let ghost s = conns@;
        let mut i: usize = 0;
        let mut found = false;
        while i < conns.len()
            invariant_except_break
                i <= s.len(),
                conns@ == s,
                !found,
                forall|j: int| 0 <= j < i ==> (#[trigger] s[j]).connection_id@ != connection_id@,
            ensures
                conns@ == s,
                found ==> i < s.len() && s[i as int].connection_id@ == connection_id@ && (forall|
                    j: int,
                | 0 <= j < i ==> (#[trigger] s[j]).connection_id@ != connection_id@),
                !found ==> forall|j: int| 0 <= j < s.len() ==> (#[trigger] s[
                    j
                ]).connection_id@ != connection_id@,
            decreases s.len() - i,
        {
            if conns[i].connection_id == *connection_id {
                found = true;
                break;
            }
            i += 1;
        }
        if found {
            proof {
                lemma_remove_first_conn_at(s, connection_id@, i as int);
            }
            conns.remove(i);
        } else {
            proof {
                lemma_remove_first_conn_absent(s, connection_id@);
            }
        }
        if conns.len() > 0 {
            self.games.insert(game_id.clone(), conns);
        }
        proof {
            let s2 = remove_first_conn(old(self)@[game_id@], connection_id@);
            if s2.len() == 0 {
                assert(self@ =~~= old(self)@.remove(game_id@));
            } else {
                assert(self@ =~~= old(self)@.insert(game_id@, s2));
            }
        }
    }

    /// The messages one broadcast must deliver: for every connection
    /// registered on the game, in order and exactly once, a state update
    /// projected for that connection's player, with the spy-master flag
    /// taken from current team membership. Every connected player must
    /// still be a participant; asking for a game nobody watches is a
    /// contract violation.
    pub fn broadcast_views(&self, game_id: &String, game: &Game) -> (r: Vec<(String, ServerMessage)>)
        requires
            self.wf(),
            game.wf(),
            self@.dom().contains(game_id@),
            forall|i: int| 0 <= i < self@[game_id@].len() ==> game@.teams.contains(
                (#[trigger] self@[game_id@][i])@.player_id,
            ),
        ensures
            r@.len() == self@[game_id@].len(),
            forall|i: int| 0 <= i < r@.len() ==> ({
                let c = self@[game_id@][i];
                &&& (#[trigger] r@[i]).0@ == c@.connection_id
                &&& (r@[i].1 matches ServerMessage::StateUpdate(v) && v@ == spec_view_of(
                    game@,
                    spec_is_spymaster(game@.teams, c@.player_id),
                    c@.player_id,
                ))
            }),
    {
        let conns = match self.games.get(game_id) {
            Some(v) => v,
            None => {
                proof {
                    assert(false);
                }
                return Vec::new();
            },
        };
        let mut out: Vec<(String, ServerMessage)> = Vec::new();
        let mut i: usize = 0;
        while i < conns.len()
            invariant
                i <= conns@.len(),
                conns@ == self@[game_id@],
                game.wf(),
                forall|j: int| 0 <= j < conns@.len() ==> game@.teams.contains(
                    (#[trigger] conns@[j])@.player_id,
                ),
                out@.len() == i,
                forall|j: int| 0 <= j < i ==> ({
                    let c = conns@[j];
                    &&& (#[trigger] out@[j]).0@ == c@.connection_id
                    &&& (out@[j].1 matches ServerMessage::StateUpdate(v) && v@ == spec_view_of(
                        game@,
                        spec_is_spymaster(game@.teams, c@.player_id),
                        c@.player_id,
                    ))
                }),
            decreases conns@.len() - i,
        {
            let conn = &conns[i];
            let spymaster = is_spymaster(&game.teams, &conn.player_id);
            let projected = GameView::from_game(game.clone(), spymaster, &conn.player_id);
            out.push((conn.connection_id.clone(), ServerMessage::StateUpdate(projected)));
            i += 1;
        }
        out
    }
}

} // verus!
