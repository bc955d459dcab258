//! The tile deck generator: a shuffled 25-tile board whose colour counts
//! favour the starting team, zipped with 25 distinct words sampled from a
//! vocabulary.

use vstd::prelude::*;

use crate::game::{Tile, TileModel};
use crate::models::{TeamColour, TileColour};
use crate::randomness::{sample_words, shuffle};

verus! {

broadcast use vstd::seq_lib::group_to_multiset_ensures;

/// How many tiles of a board carry one colour.
pub open spec fn colour_count(tiles: Seq<TileModel>, c: TileColour) -> nat {
    tiles.map_values(|t: TileModel| t.colour).to_multiset().count(c)
}

/// A well-formed board for a given starting team: 25 tiles; exactly 1
/// Black, 7 Grey, 9 of the starting team's colour and 8 of the other; and
/// pairwise distinct words.
pub open spec fn board_wf(tiles: Seq<TileModel>, first_turn: TeamColour) -> bool {
    &&& tiles.len() == 25
    &&& colour_count(tiles, TileColour::Black) == 1
    &&& colour_count(tiles, TileColour::Grey) == 7
    &&& colour_count(tiles, first_turn.tile_colour()) == 9
    &&& colour_count(tiles, first_turn.spec_other().tile_colour()) == 8
    &&& forall|i: int, j: int| 0 <= i < j < tiles.len() ==> tiles[i].word != tiles[j].word
}

fn push_copies(deck: &mut Vec<TileColour>, c: TileColour, n: usize)
    ensures
        final(deck)@.len() == old(deck)@.len() + n,
        forall|x: TileColour| #[trigger] final(deck)@.to_multiset().count(x) == old(
            deck,
        )@.to_multiset().count(x) + (if x == c {
            n as nat
        } else {
            0
        }),
{
    let mut i: usize = 0;
    while i < n
        invariant
            i <= n,
            deck@.len() == old(deck)@.len() + i,
            forall|x: TileColour| #[trigger] deck@.to_multiset().count(x) == old(
                deck,
            )@.to_multiset().count(x) + (if x == c {
                i as nat
            } else {
                0
            }),
        decreases n - i,
    {
        let ghost pre = deck@;
        deck.push(c);
        proof {
            assert(deck@ == pre.push(c));
            assert(deck@.to_multiset() =~= pre.to_multiset().insert(c));
        }
        i += 1;
    }
}

/// The unshuffled colour deck: 1 Black, 7 Grey, 9 of the starting team's
/// colour and 8 of the other, so the starting team owns the extra tile.
fn colour_deck(first_turn: &TeamColour) -> (r: Vec<TileColour>)
    ensures
        r@.len() == 25,
        r@.to_multiset().count(TileColour::Black) == 1,
        r@.to_multiset().count(TileColour::Grey) == 7,
        r@.to_multiset().count(first_turn.tile_colour()) == 9,
        r@.to_multiset().count(first_turn.spec_other().tile_colour()) == 8,
{
    let first = match first_turn {
        TeamColour::Red => TileColour::Red,
        TeamColour::Blue => TileColour::Blue,
    };
    let second = match first_turn {
        TeamColour::Red => TileColour::Blue,
        TeamColour::Blue => TileColour::Red,
    };
    let mut deck: Vec<TileColour> = Vec::new();
    proof {
        assert(forall|x: TileColour| !deck@.contains(x));
        assert(forall|x: TileColour| #[trigger] deck@.to_multiset().count(x) == 0);
    }
    push_copies(&mut deck, TileColour::Black, 1);
    push_copies(&mut deck, TileColour::Grey, 7);
    push_copies(&mut deck, first, 9);
    push_copies(&mut deck, second, 8);
    deck
}

/// Produce a board: shuffle the colour deck, sample 25 distinct words from
/// the vocabulary, and zip them positionally.
pub fn generate_tiles(
    rng: &mut rand::rngs::StdRng,
    first_turn: &TeamColour,
    words: &Vec<String>,
) -> (r: Vec<Tile>)
    requires
        words@.len() >= 25,
        forall|i: int, j: int| 0 <= i < j < words@.len() ==> words@[i]@ != words@[j]@,
    ensures
        r@.len() == 25,
        board_wf(r@.map_values(|t: Tile| t@), *first_turn),
{
    let mut colours = colour_deck(first_turn);
    shuffle(rng, &mut colours);
    let chosen = sample_words(rng, words, 25);
    let mut tiles: Vec<Tile> = Vec::new();
    let mut i: usize = 0;
    while i < 25
        invariant
            i <= 25,
            tiles@.len() == i,
            colours@.len() == 25,
            chosen@.len() == 25,
            forall|j: int| 0 <= j < i ==> (#[trigger] tiles@[j]).colour == colours@[j]
                && tiles@[j].word@ == chosen@[j]@,
        decreases 25 - i,
    {
        tiles.push(Tile { word: chosen[i].clone(), colour: colours[i] });
        i += 1;
    }
    proof {
        let m = tiles@.map_values(|t: Tile| t@);
        assert(m.map_values(|t: TileModel| t.colour) =~= colours@);
        assert forall|i2: int, j2: int| 0 <= i2 < j2 < m.len() implies m[i2].word != m[j2].word by {
            assert(chosen@[i2]@ != chosen@[j2]@);
        }
    }
    tiles
}

} // verus!
