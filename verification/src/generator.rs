//! Puzzle generation interface, and the stand-in generator that fills every
//! cell with one fixed value.

use crate::args::Difficulty;
use crate::coords::{coords_seq, enumerate_coords, lemma_coords_seq_distinct};
use crate::model::{Cell, Coord, HexMap, Region};
use vstd::prelude::*;

verus! {

/// A generator capability: given a radius and a difficulty, produce a fully
/// populated map — one cell per coordinate of the grid, with a neighbour
/// count a correct generator can produce (0 to 6).
pub trait Generator {
    fn generate(&self, radius: u8, difficulty: Difficulty) -> (m: HexMap)
        ensures
            m.radius() == radius,
            m@.dom() == coords_seq(radius).to_set(),
            forall|c: Coord|
                m@.dom().contains(c) ==> (#[trigger] m@[c]).full_neighbor_count <= 6,
    ;
}

/// Stand-in generator: gives every cell the same fixed value, enough to
/// exercise the codec and the viewers until real generation exists.
pub struct DummyGenerator;

impl Generator for DummyGenerator {
    #[verifier::loop_isolation(false)]
    fn generate(&self, radius: u8, _difficulty: Difficulty) -> (m: HexMap) {
        let coords = enumerate_coords(radius);
        proof {
            lemma_coords_seq_distinct(radius);
        }
        let count = coords.len();
        let mut map = HexMap::new(radius);
        let mut i: usize = 0;
        while i < count
            invariant
                i <= count,
                map.radius() == radius,
                forall|j: int|
                    0 <= j < i ==> map@.dom().contains(#[trigger] coords@[j]) && map@[coords@[j]]
                        == (Cell {
                        region: Region::Inside,
                        full_neighbor_count: 3,
                        clue_visible: true,
                    }),
                forall|k: Coord|
                    #[trigger] map@.dom().contains(k) ==> exists|j: int|
                        0 <= j < i && #[trigger] coords@[j] == k,
            decreases count - i,
        {
            map.insert(coords[i], Cell::new(Region::Inside, 3, true));
            i += 1;
        }
        proof {
            assert forall|k: Coord| map@.dom().contains(k) implies coords_seq(
                radius,
            ).to_set().contains(k) by {
                let j = choose|j: int| 0 <= j < count && #[trigger] coords@[j] == k;
                assert(coords_seq(radius).contains(k));
            }
            assert forall|k: Coord| coords_seq(radius).to_set().contains(k) implies
                map@.dom().contains(k) by {
                let j = choose|j: int|
                    0 <= j < coords_seq(radius).len() && coords_seq(radius)[j] == k;
                assert(map@.dom().contains(coords@[j]));
            }
            assert(map@.dom() =~= coords_seq(radius).to_set());
        }
        map
    }
}

} // verus!
