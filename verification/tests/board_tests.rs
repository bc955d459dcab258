use codenames::board::generate_tiles;
use codenames::models::{TeamColour, TileColour};
use rand::rngs::StdRng;
use rand::SeedableRng;

fn vocabulary() -> Vec<String> {
    let mut words: Vec<String> = Vec::new();
    for i in 0..40 {
        words.push(format!("word{}", i));
    }
    words
}

fn colour_count(tiles: &[codenames::game::Tile], colour: TileColour) -> usize {
    tiles.iter().filter(|t| t.colour == colour).count()
}

#[test]
fn generated_board_has_the_fixed_colour_distribution() {
    for seed in 0..20u64 {
        for first_turn in [TeamColour::Red, TeamColour::Blue] {
            let mut rng = StdRng::seed_from_u64(seed);
            let tiles = generate_tiles(&mut rng, &first_turn, &vocabulary());
            assert_eq!(tiles.len(), 25);
            assert_eq!(colour_count(&tiles, TileColour::Black), 1);
            assert_eq!(colour_count(&tiles, TileColour::Grey), 7);
            let (own, other) = match first_turn {
                TeamColour::Red => (TileColour::Red, TileColour::Blue),
                TeamColour::Blue => (TileColour::Blue, TileColour::Red),
            };
            assert_eq!(colour_count(&tiles, own), 9);
            assert_eq!(colour_count(&tiles, other), 8);
        }
    }
}

#[test]
fn generated_board_has_distinct_words() {
    let mut rng = StdRng::seed_from_u64(7);
    let tiles = generate_tiles(&mut rng, &TeamColour::Red, &vocabulary());
    for i in 0..tiles.len() {
        for j in (i + 1)..tiles.len() {
            assert_ne!(tiles[i].word, tiles[j].word);
        }
    }
}

#[test]
fn generation_is_deterministic_for_a_fixed_seed() {
    let mut rng1 = StdRng::seed_from_u64(42);
    let mut rng2 = StdRng::seed_from_u64(42);
    let a = generate_tiles(&mut rng1, &TeamColour::Blue, &vocabulary());
    let b = generate_tiles(&mut rng2, &TeamColour::Blue, &vocabulary());
    assert_eq!(a.len(), b.len());
    for i in 0..a.len() {
        assert_eq!(a[i].word, b[i].word);
        assert_eq!(a[i].colour, b[i].colour);
    }
}

#[test]
fn generation_really_shuffles_and_samples() {
    // The unshuffled deck would put the Black tile first, then 7 Grey, and
    // the words would be the vocabulary's first 25 in order. A generated
    // board must not come back in that raw shape.
    let words = vocabulary();
    let mut rng = StdRng::seed_from_u64(3);
    let tiles = generate_tiles(&mut rng, &TeamColour::Red, &words);
    let colours_unshuffled = tiles[0].colour == TileColour::Black
        && (1..8).all(|i| tiles[i].colour == TileColour::Grey);
    assert!(!colours_unshuffled);
    let words_unsampled = (0..25).all(|i| tiles[i].word == words[i]);
    assert!(!words_unsampled);
}
