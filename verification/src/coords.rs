//! Canonical enumeration of the axial coordinates of a hexagonal grid.
//!
//! The binary format never stores coordinates: the writer emits one byte per
//! coordinate in this order, and the reader re-derives the same order from
//! the stored radius. Both directions of the codec therefore share the one
//! spec-level order `coords_seq` and the one executable walk
//! `enumerate_coords`.

use crate::model::Coord;
use vstd::prelude::*;

verus! {

/// Number of cells of a grid of the given radius: `3R^2 + 3R + 1`.
pub open spec fn cell_count(radius: int) -> int {
    3 * radius * radius + 3 * radius + 1
}

/// Smallest `r` of the row at column `q`: `max(-radius, -q - radius)`.
pub open spec fn row_min(radius: int, q: int) -> int {
    if -q - radius >= -radius {
        -q - radius
    } else {
        -radius
    }
}

/// Largest `r` of the row at column `q`: `min(radius, -q + radius)`.
pub open spec fn row_max(radius: int, q: int) -> int {
    if -q + radius <= radius {
        -q + radius
    } else {
        radius
    }
}

/// The row of coordinates at column `q`, by ascending `r`.
pub open spec fn row_seq(radius: int, q: int) -> Seq<Coord> {
    Seq::new((row_max(radius, q) - row_min(radius, q) + 1) as nat, |i: int| Coord {
        q: q as i16,
        r: (row_min(radius, q) + i) as i16,
    })
}

/// Concatenation of the rows at columns `-radius, ..., q_end - 1`.
pub open spec fn rows_upto(radius: int, q_end: int) -> Seq<Coord>
    decreases q_end + radius,
{
    if q_end <= -radius {
        Seq::empty()
    } else {
        rows_upto(radius, q_end - 1) + row_seq(radius, q_end - 1)
    }
}

/// The canonical coordinate order of a grid: columns `q` ascending from
/// `-radius` to `radius`, rows `r` ascending within each column over that
/// column's bounds.
pub open spec fn coords_seq(radius: u8) -> Seq<Coord> {
    rows_upto(radius as int, radius as int + 1)
}

/// Twice the number of coordinates in the rows before column `q`; doubled so
/// that the closed form needs no division.
spec fn prefix_count2(radius: int, q: int) -> int {
    if q <= 0 {
        (q + radius) * (3 * radius + q + 1)
    } else {
        radius * (3 * radius + 1) + 2 * q * (2 * radius + 1) - (q - 1) * q
    }
}

proof fn lemma_rows_upto_len(radius: int, q_end: int)
    requires
        0 <= radius,
        -radius <= q_end <= radius + 1,
    ensures
        2 * rows_upto(radius, q_end).len() == prefix_count2(radius, q_end),
    decreases q_end + radius,
{
    if q_end <= -radius {
        assert((q_end + radius) * (3 * radius + q_end + 1) == 0) by (nonlinear_arith)
            requires
                q_end == -radius,
        ;
    } else {
        lemma_rows_upto_len(radius, q_end - 1);
        let q = q_end - 1;
        let rl = row_max(radius, q) - row_min(radius, q) + 1;
        if q_end <= 0 {
            assert(rl == 2 * radius + 1 + q);
            assert((q_end + radius) * (3 * radius + q_end + 1) - (q + radius) * (3 * radius + q
                + 1) == 2 * (2 * radius + 1 + q)) by (nonlinear_arith)
                requires
                    q == q_end - 1,
            ;
        } else if q_end == 1 {
            assert(rl == 2 * radius + 1);
            assert(radius * (3 * radius + 1) + 2 * 1 * (2 * radius + 1) - (1 - 1) * 1 - (0
                + radius) * (3 * radius + 0 + 1) == 2 * (2 * radius + 1)) by (nonlinear_arith);
        } else {
            assert(rl == 2 * radius + 1 - q);
            assert((radius * (3 * radius + 1) + 2 * q_end * (2 * radius + 1) - (q_end - 1) * q_end)
                - (radius * (3 * radius + 1) + 2 * q * (2 * radius + 1) - (q - 1) * q) == 2 * (2
                * radius + 1 - q)) by (nonlinear_arith)
                requires
                    q == q_end - 1,
                    q >= 1,
            ;
        }
    }
}

/// Enumerator cardinality: the canonical order of a grid of radius `R` lists
/// exactly `3R^2 + 3R + 1` coordinates, for every radius.
pub proof fn lemma_coords_seq_len(radius: u8)
    ensures
        coords_seq(radius).len() == cell_count(radius as int),
        coords_seq(radius).len() == 3 * (radius as int) * (radius as int) + 3 * (radius as int)
            + 1,
{
    let r = radius as int;
    lemma_rows_upto_len(r, r + 1);
    assert(prefix_count2(r, r + 1) == r * (3 * r + 1) + 2 * (r + 1) * (2 * r + 1) - r * (r + 1));
    assert(r * (3 * r + 1) + 2 * (r + 1) * (2 * r + 1) - r * (r + 1) == 2 * (3 * r * r + 3 * r
        + 1)) by (nonlinear_arith);
}

proof fn lemma_rows_upto_distinct(radius: int, q_end: int)
    requires
        0 <= radius <= 255,
        -radius <= q_end <= radius + 1,
    ensures
        forall|i: int|
            0 <= i < rows_upto(radius, q_end).len() ==> -radius <= (#[trigger] rows_upto(
                radius,
                q_end,
            )[i]).q < q_end,
        forall|i: int, j: int|
            0 <= i < j < rows_upto(radius, q_end).len() ==> rows_upto(radius, q_end)[i]
                != rows_upto(radius, q_end)[j],
    decreases q_end + radius,
{
    if q_end <= -radius {
    } else {
        lemma_rows_upto_distinct(radius, q_end - 1);
        let q = q_end - 1;
        let prev = rows_upto(radius, q);
        let row = row_seq(radius, q);
        let s = rows_upto(radius, q_end);
        assert(s == prev + row);
        assert(-radius <= row_min(radius, q) <= row_max(radius, q) <= radius);
        assert forall|i: int| 0 <= i < s.len() implies -radius <= (#[trigger] s[i]).q
            < q_end by {
            if i < prev.len() {
                assert(s[i] == prev[i]);
            } else {
                assert(s[i] == row[i - prev.len()]);
                assert(s[i].q == q as i16);
            }
        }
        assert forall|i: int, j: int| 0 <= i < j < s.len() implies s[i] != s[j] by {
            if j < prev.len() {
                assert(s[i] == prev[i] && s[j] == prev[j]);
            } else if i >= prev.len() {
                let ki = i - prev.len();
                let kj = j - prev.len();
                assert(s[i] == row[ki] && s[j] == row[kj]);
                assert(row[ki].r == (row_min(radius, q) + ki) as i16);
                assert(row[kj].r == (row_min(radius, q) + kj) as i16);
                assert(row_min(radius, q) + ki < row_min(radius, q) + kj <= row_max(radius, q));
            } else {
                assert(s[i] == prev[i] && s[j] == row[j - prev.len()]);
                assert(prev[i].q < q && s[j].q == q as i16);
            }
        }
    }
}

/// The coordinates of the canonical order are pairwise distinct: each
/// coordinate of the grid appears exactly once.
pub proof fn lemma_coords_seq_distinct(radius: u8)
    ensures
        forall|i: int, j: int|
            0 <= i < j < coords_seq(radius).len() ==> coords_seq(radius)[i] != coords_seq(
                radius,
            )[j],
{
    lemma_rows_upto_distinct(radius as int, radius as int + 1);
}

/// Enumerator determinism: the canonical order is a pure function of the
/// radius, so any two sequences derived from the same radius are identical,
/// element for element. `enumerate_coords` returns exactly this sequence.
pub proof fn lemma_coords_seq_deterministic(radius: u8, s1: Seq<Coord>, s2: Seq<Coord>)
    requires
        s1 == coords_seq(radius),
        s2 == coords_seq(radius),
    ensures
        s1 == s2,
        s1.len() == s2.len(),
        forall|i: int| 0 <= i < s1.len() ==> s1[i] == s2[i],
{
}

/// Walk the grid of the given radius in the canonical order.
///
/// Restartable and deterministic: the result is a pure function of the
/// radius, pinned to the spec-level order `coords_seq`.
pub fn enumerate_coords(radius: u8) -> (out: Vec<Coord>)
    ensures
        out@ == coords_seq(radius),
{
    let rad: i16 = radius as i16;
    let mut out: Vec<Coord> = Vec::new();
    let mut q: i16 = -rad;
    while q <= rad
        invariant
            rad == radius as i16,
            -rad <= q <= rad + 1,
            out@ == rows_upto(radius as int, q as int),
        decreases rad + 1 - q,
    {
        let rmin: i16 = if -q - rad >= -rad {
            -q - rad
        } else {
            -rad
        };
        let rmax: i16 = if -q + rad <= rad {
            -q + rad
        } else {
            rad
        };
        assert(rmin as int == row_min(radius as int, q as int));
        assert(rmax as int == row_max(radius as int, q as int));
        let mut r: i16 = rmin;
        while r <= rmax
            invariant
                rad == radius as i16,
                -rad <= q <= rad,
                rmin as int == row_min(radius as int, q as int),
                rmax as int == row_max(radius as int, q as int),
                rmin <= r <= rmax + 1,
                out@ == rows_upto(radius as int, q as int) + row_seq(radius as int, q as int).take(
                    r - rmin,
                ),
            decreases rmax + 1 - r,
        {
            out.push(Coord { q, r });
            proof {
                let ri = radius as int;
                let qi = q as int;
                let k = r - rmin;
                assert(row_seq(ri, qi)[k as int] == Coord { q, r });
                assert(row_seq(ri, qi).take(k + 1) == row_seq(ri, qi).take(k as int).push(
                    row_seq(ri, qi)[k as int],
                )) by {
                    assert(row_seq(ri, qi).take(k + 1) =~= row_seq(ri, qi).take(k as int).push(
                        row_seq(ri, qi)[k as int],
                    ));
                }
            }
            r = r + 1;
        }
        proof {
            let ri = radius as int;
            let qi = q as int;
            assert(row_seq(ri, qi).take(r - rmin) == row_seq(ri, qi)) by {
                assert(row_seq(ri, qi).take(r - rmin) =~= row_seq(ri, qi));
            }
            assert(rows_upto(ri, qi + 1) == rows_upto(ri, qi) + row_seq(ri, qi));
        }
        q = q + 1;
    }
    out
}

/// Compute `3R^2 + 3R + 1`, the number of cells of a grid of radius `R`.
pub fn cell_count_exec(radius: u8) -> (n: usize)
    ensures
        n == cell_count(radius as int),
        n <= 195841,
{
    let r = radius as usize;
    assert(3 * r * r <= 195075 && 3 * r <= 765) by (nonlinear_arith)
        requires
            r <= 255,
    ;
    3 * r * r + 3 * r + 1
}

} // verus!
