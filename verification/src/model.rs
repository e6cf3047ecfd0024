//! The in-memory data model: axial coordinates, cells, and the hexagonal map.

use crate::coords::{coords_seq, enumerate_coords};
use vstd::prelude::*;

verus! {

/// Axial coordinate `(q, r)` on a hexagonal grid. Both components are
/// bounded by the grid radius (at most 255), so `i16` holds every value.
#[derive(Debug, Clone, Copy, PartialEq, Eq, Hash, Structural)]
pub struct Coord {
    pub q: i16,
    pub r: i16,
}

impl Coord {
    pub fn new(q: i16, r: i16) -> (c: Self)
        ensures
            c.q == q,
            c.r == r,
    {
        Self { q, r }
    }
}

/// Ground-truth loop membership of a cell: inside or outside the loop.
#[derive(Debug, Clone, Copy, PartialEq, Eq, Structural)]
pub enum Region {
    Inside,
    Outside,
}

/// A single hexagonal cell on the grid.
#[derive(Debug, Clone, PartialEq, Eq, Structural)]
pub struct Cell {
    /// True region of the cell (answer key).
    pub region: Region,
    /// Number of edges around this cell that are part of the loop (0-6).
    pub full_neighbor_count: u8,
    /// Whether the number clue is shown to the player.
    pub clue_visible: bool,
}

impl Cell {
    pub fn new(region: Region, count: u8, visible: bool) -> (c: Self)
        ensures
            c.region == region,
            c.full_neighbor_count == count,
            c.clue_visible == visible,
    {
        Self { region, full_neighbor_count: count, clue_visible: visible }
    }
}

/// True when no key occurs twice in the association list.
spec fn keys_distinct(s: Seq<(Coord, Cell)>) -> bool {
    forall|i: int, j: int| 0 <= i < j < s.len() ==> (#[trigger] s[i]).0 != (#[trigger] s[j]).0
}

/// The mathematical map an association list stands for (later entries win,
/// though the list never holds a key twice).
spec fn assoc_map(s: Seq<(Coord, Cell)>) -> Map<Coord, Cell>
    decreases s.len(),
{
    if s.len() == 0 {
        Map::empty()
    } else {
        assoc_map(s.drop_last()).insert(s.last().0, s.last().1)
    }
}

proof fn lemma_assoc_map_props(s: Seq<(Coord, Cell)>)
    requires
        keys_distinct(s),
    ensures
        assoc_map(s).dom().finite(),
        forall|k: Coord|
            #[trigger] assoc_map(s).dom().contains(k) <==> exists|i: int|
                0 <= i < s.len() && (#[trigger] s[i]).0 == k,
        forall|i: int|
            0 <= i < s.len() ==> assoc_map(s).dom().contains((#[trigger] s[i]).0) && assoc_map(
                s,
            )[s[i].0] == s[i].1,
    decreases s.len(),
{
    if s.len() == 0 {
    } else {
        let s0 = s.drop_last();
        let last = s.last();
        assert(keys_distinct(s0));
        lemma_assoc_map_props(s0);
        let m = assoc_map(s);
        assert(m == assoc_map(s0).insert(last.0, last.1));
        assert forall|k: Coord| #[trigger] m.dom().contains(k) implies exists|i: int|
            0 <= i < s.len() && (#[trigger] s[i]).0 == k by {
            if k == last.0 {
                assert((s[s.len() - 1]).0 == k);
            } else {
                assert(assoc_map(s0).dom().contains(k));
                let i = choose|i: int| 0 <= i < s0.len() && (#[trigger] s0[i]).0 == k;
                assert((s[i]).0 == k);
            }
        }
        assert forall|i: int| 0 <= i < s.len() implies m.dom().contains((#[trigger] s[i]).0)
            && m[s[i].0] == s[i].1 by {
            if i == s.len() - 1 {
            } else {
                assert(s0[i] == s[i]);
                assert(s[i].0 != last.0);
            }
        }
    }
}

proof fn lemma_assoc_map_dom_len(s: Seq<(Coord, Cell)>)
    requires
        keys_distinct(s),
    ensures
        assoc_map(s).dom().finite(),
        assoc_map(s).dom().len() == s.len(),
    decreases s.len(),
{
    if s.len() == 0 {
    } else {
        let s0 = s.drop_last();
        let last = s.last();
        assert(keys_distinct(s0));
        lemma_assoc_map_dom_len(s0);
        lemma_assoc_map_props(s0);
        assert(!assoc_map(s0).dom().contains(last.0));
        assert(assoc_map(s).dom() == assoc_map(s0).dom().insert(last.0));
    }
}

proof fn lemma_assoc_map_update(s: Seq<(Coord, Cell)>, i: int, p: (Coord, Cell))
    requires
        keys_distinct(s),
        0 <= i < s.len(),
        s[i].0 == p.0,
    ensures
        keys_distinct(s.update(i, p)),
        assoc_map(s.update(i, p)) == assoc_map(s).insert(p.0, p.1),
{
    let t = s.update(i, p);
    assert(forall|j: int| 0 <= j < t.len() ==> (#[trigger] t[j]).0 == s[j].0);
    lemma_assoc_map_props(s);
    lemma_assoc_map_props(t);
    let goal = assoc_map(s).insert(p.0, p.1);
    assert forall|k: Coord| assoc_map(t).dom().contains(k) <==> goal.dom().contains(k) by {
        if assoc_map(t).dom().contains(k) {
            let j = choose|j: int| 0 <= j < t.len() && (#[trigger] t[j]).0 == k;
            assert(s[j].0 == k);
        }
        if goal.dom().contains(k) {
            if k == p.0 {
                assert(t[i].0 == k);
            } else {
                let j = choose|j: int| 0 <= j < s.len() && (#[trigger] s[j]).0 == k;
                assert(t[j].0 == k);
            }
        }
    }
    assert forall|k: Coord| assoc_map(t).dom().contains(k) implies assoc_map(t)[k] == goal[k] by {
        if k == p.0 {
            assert(t[i] == p);
            assert(assoc_map(t)[t[i].0] == t[i].1);
        } else {
            let j = choose|j: int| 0 <= j < t.len() && (#[trigger] t[j]).0 == k;
            assert(j != i);
            assert(t[j] == s[j]);
            assert(assoc_map(t)[t[j].0] == t[j].1);
            assert(assoc_map(s)[s[j].0] == s[j].1);
        }
    }
    assert(assoc_map(t) =~= goal);
}

proof fn lemma_assoc_map_push(s: Seq<(Coord, Cell)>, p: (Coord, Cell))
    requires
        keys_distinct(s),
        forall|i: int| 0 <= i < s.len() ==> (#[trigger] s[i]).0 != p.0,
    ensures
        keys_distinct(s.push(p)),
        assoc_map(s.push(p)) == assoc_map(s).insert(p.0, p.1),
{
    let t = s.push(p);
    assert(t.drop_last() =~= s);
    assert(t.last() == p);
    assert forall|i: int, j: int| 0 <= i < j < t.len() implies (#[trigger] t[i]).0 != (
    #[trigger] t[j]).0 by {
        if j < t.len() - 1 {
            assert(t[i] == s[i] && t[j] == s[j]);
        } else {
            assert(t[i] == s[i] && t[j] == p);
        }
    }
}

/// The hexagonal game map: a radius together with one cell per coordinate.
///
/// Viewed in specifications as the mathematical map from coordinates to
/// cells that the private association list stands for. The radius is fixed
/// at creation; cells are added by `insert`.
#[derive(Debug)]
pub struct HexMap {
    radius: u8,
    cells: Vec<(Coord, Cell)>,
}

impl View for HexMap {
    type V = Map<Coord, Cell>;

    closed spec fn view(&self) -> Map<Coord, Cell> {
        assoc_map(self.cells@)
    }
}

impl HexMap {
    #[verifier::type_invariant]
    spec fn wf(self) -> bool {
        keys_distinct(self.cells@)
    }

    /// The grid radius this map was created with.
    pub closed spec fn spec_radius(&self) -> u8 {
        self.radius
    }

    #[verifier::when_used_as_spec(spec_radius)]
    pub fn radius(&self) -> (r: u8)
        ensures
            r == self.spec_radius(),
    {
        self.radius
    }

    /// An empty map with a fixed radius.
    pub fn new(radius: u8) -> (m: HexMap)
        ensures
            m@ == Map::<Coord, Cell>::empty(),
            m.spec_radius() == radius,
    {
        HexMap { radius, cells: Vec::new() }
    }

    /// Add or replace the cell at a coordinate.
    pub fn insert(&mut self, coord: Coord, cell: Cell)
        ensures
            final(self)@ == old(self)@.insert(coord, cell),
            final(self).spec_radius() == old(self).spec_radius(),
    {
        proof {
            use_type_invariant(&*self);
        }
        let n = self.cells.len();
        let mut i: usize = 0;
        while i < n
            invariant
                n == self.cells@.len(),
                i <= n,
                keys_distinct(self.cells@),
                self == old(self),
                forall|j: int| 0 <= j < i ==> (#[trigger] self.cells@[j]).0 != coord,
            decreases n - i,
        {
            if self.cells[i].0 == coord {
                proof {
                    lemma_assoc_map_update(self.cells@, i as int, (coord, cell));
                }
                // Mutating the field in place would have to re-establish the
                // type invariant mid-write: swap the list out and back.
                let mut cells: Vec<(Coord, Cell)> = Vec::new();
                core::mem::swap(&mut cells, &mut self.cells);
                cells[i] = (coord, cell);
                self.cells = cells;
                return ;
            }
            i += 1;
        }
        proof {
            lemma_assoc_map_push(self.cells@, (coord, cell));
        }
        // `Vec::push` may unwind, so it cannot act on the field directly while
        // the type invariant is in force: swap the list out and back.
        let mut cells: Vec<(Coord, Cell)> = Vec::new();
        core::mem::swap(&mut cells, &mut self.cells);
        cells.push((coord, cell));
        self.cells = cells;
    }

    /// Look up the cell at a coordinate.
    pub fn get(&self, coord: &Coord) -> (r: Option<&Cell>)
        ensures
            match r {
                Some(cell) => self@.dom().contains(*coord) && *cell == self@[*coord],
                None => !self@.dom().contains(*coord),
            },
    {
        proof {
            use_type_invariant(self);
            lemma_assoc_map_props(self.cells@);
        }
        let n = self.cells.len();
        let mut i: usize = 0;
        while i < n
            invariant
                n == self.cells@.len(),
                i <= n,
                keys_distinct(self.cells@),
                assoc_map(self.cells@) == self@,
                forall|k: Coord|
                    #[trigger] self@.dom().contains(k) <==> exists|j: int|
                        0 <= j < self.cells@.len() && (#[trigger] self.cells@[j]).0 == k,
                forall|j: int|
                    0 <= j < self.cells@.len() ==> self@.dom().contains(
                        (#[trigger] self.cells@[j]).0,
                    ) && self@[self.cells@[j].0] == self.cells@[j].1,
                forall|j: int| 0 <= j < i ==> (#[trigger] self.cells@[j]).0 != *coord,
            decreases n - i,
        {
            if self.cells[i].0 == *coord {
                return Some(&self.cells[i].1);
            }
            i += 1;
        }
        None
    }

    /// Number of cells currently stored.
    pub fn len(&self) -> (n: usize)
        ensures
            n == self@.dom().len(),
    {
        proof {
            use_type_invariant(self);
            lemma_assoc_map_dom_len(self.cells@);
        }
        self.cells.len()
    }

    /// All coordinates of this map's grid, in the canonical order.
    pub fn iter_coords(&self) -> (out: Vec<Coord>)
        ensures
            out@ == coords_seq(self.spec_radius()),
    {
        enumerate_coords(self.radius)
    }
}

} // verus!
