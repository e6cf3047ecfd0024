//! The binary codec: one packed byte per cell, and the file-level layout in
//! its two revisions.
//!
//! Modern layout: `[flags = 0] [radius] [cell bytes...]`.
//! Legacy layout: `[radius] [cell bytes...]`.
//! A source is classified as legacy exactly when its total length equals
//! `1 + 3R^2 + 3R + 1` for the radius candidate `R` read at byte 0; there is
//! no version tag, so this length heuristic is the sole discriminator.

use crate::coords::{
    cell_count, cell_count_exec, coords_seq, enumerate_coords, lemma_coords_seq_distinct,
    lemma_coords_seq_len,
};
use crate::model::{Cell, Coord, HexMap, Region};
use vstd::prelude::*;

verus! {

/// Why an encode or decode failed.
#[derive(Debug, Clone, Copy, PartialEq, Eq, Structural)]
pub enum CodecError {
    /// The source ended before the layout it declares: empty, or shorter
    /// than the two header bytes of the modern format.
    UnexpectedEnd,
    /// The payload length does not match the cell count derived from the
    /// stored radius.
    SizeMismatch,
    /// A coordinate required by the enumeration has no cell in the map.
    IncompleteMap,
}

/// Bit 0 of the packed byte: 1 for a cell inside the loop, 0 outside.
pub open spec fn region_bit(region: Region) -> u8 {
    if region is Inside {
        1
    } else {
        0
    }
}

/// Bit 4 of the packed byte, already in position: 0x10 when the clue is
/// shown, 0 when hidden.
pub open spec fn visible_bits(visible: bool) -> u8 {
    if visible {
        0x10
    } else {
        0
    }
}

/// One cell packed into one byte: bit 0 the region, bits 1-3 the low three
/// bits of the neighbour count (counts above 7 are silently masked), bit 4
/// the clue visibility, bits 5-7 always zero.
pub open spec fn pack_spec(cell: Cell) -> u8 {
    region_bit(cell.region) | ((cell.full_neighbor_count & 0x7) << 1) | visible_bits(
        cell.clue_visible,
    )
}

/// The cell one byte stands for. Total on all 256 byte values: bits 5-7 are
/// ignored.
pub open spec fn unpack_spec(byte: u8) -> Cell {
    Cell {
        region: if byte & 0x1 != 0 {
            Region::Inside
        } else {
            Region::Outside
        },
        full_neighbor_count: (byte >> 1) & 0x7,
        clue_visible: byte & 0x10 != 0,
    }
}

/// Pack one cell into one byte.
pub fn pack_cell(cell: &Cell) -> (byte: u8)
    ensures
        byte == pack_spec(*cell),
{
    let region: u8 = if cell.region == Region::Inside {
        1
    } else {
        0
    };
    let visible: u8 = if cell.clue_visible {
        0x10
    } else {
        0
    };
    region | ((cell.full_neighbor_count & 0x7) << 1u8) | visible
}

/// Unpack one byte into the cell it stands for.
pub fn unpack_cell(byte: u8) -> (cell: Cell)
    ensures
        cell == unpack_spec(byte),
{
    let region = if byte & 0x1 != 0 {
        Region::Inside
    } else {
        Region::Outside
    };
    let count = (byte >> 1u8) & 0x7;
    let visible = byte & 0x10 != 0;
    Cell::new(region, count, visible)
}

/// Cell codec bijection: packing then unpacking reproduces every cell whose
/// neighbour count fits in the three bits the format stores.
pub proof fn lemma_pack_unpack_inverse(cell: Cell)
    requires
        cell.full_neighbor_count <= 7,
    ensures
        unpack_spec(pack_spec(cell)) == cell,
{
    let rb = region_bit(cell.region);
    let vb = visible_bits(cell.clue_visible);
    let n = cell.full_neighbor_count;
    assert({
        &&& ((rb | ((n & 0x7) << 1) | vb) & 0x1) == rb
        &&& (((rb | ((n & 0x7) << 1) | vb) >> 1) & 0x7) == n
        &&& ((rb | ((n & 0x7) << 1) | vb) & 0x10) == vb
    }) by (bit_vector)
        requires
            rb == 0 || rb == 1,
            vb == 0 || vb == 0x10,
            n <= 7,
    ;
}

/// The header of an encoded map: `[0, radius]` modern, `[radius]` legacy.
pub open spec fn header_bytes(radius: u8, legacy: bool) -> Seq<u8> {
    if legacy {
        seq![radius]
    } else {
        seq![0u8, radius]
    }
}

/// The payload of an encoded map: one packed byte per coordinate of the
/// grid, in the canonical order.
pub open spec fn payload_bytes(radius: u8, cells: Map<Coord, Cell>) -> Seq<u8> {
    Seq::new(coords_seq(radius).len(), |i: int| pack_spec(cells[coords_seq(radius)[i]]))
}

/// The complete encoding of a map: header, then payload.
pub open spec fn encoded_bytes(radius: u8, cells: Map<Coord, Cell>, legacy: bool) -> Seq<u8> {
    header_bytes(radius, legacy) + payload_bytes(radius, cells)
}

/// A map is complete when it holds a cell for every coordinate of its grid.
pub open spec fn map_complete(radius: u8, cells: Map<Coord, Cell>) -> bool {
    forall|i: int|
        0 <= i < coords_seq(radius).len() ==> cells.dom().contains(
            #[trigger] coords_seq(radius)[i],
        )
}

/// Serialize a map: the header for the chosen format mode, then one packed
/// byte per coordinate in the canonical order.
///
/// Succeeds if and only if the map is complete; an incomplete map yields
/// `IncompleteMap` and no bytes at all.
#[verifier::loop_isolation(false)]
pub fn encode_map(map: &HexMap, legacy: bool) -> (r: Result<Vec<u8>, CodecError>)
    ensures
        r is Ok <==> map_complete(map.radius(), map@),
        r is Ok ==> r->Ok_0@ == encoded_bytes(map.radius(), map@, legacy),
        r is Err ==> r->Err_0 == CodecError::IncompleteMap,
{
    let radius = map.radius();
    let coords = map.iter_coords();
    let mut out: Vec<u8> = Vec::new();
    if !legacy {
        out.push(0);
    }
    out.push(radius);
    assert(out@ =~= header_bytes(radius, legacy));
    let n = coords.len();
    let mut i: usize = 0;
    while i < n
        invariant
            i <= n,
            out@ == header_bytes(radius, legacy) + payload_bytes(radius, map@).take(i as int),
            forall|j: int| 0 <= j < i ==> map@.dom().contains(#[trigger] coords@[j]),
        decreases n - i,
    {
        match map.get(&coords[i]) {
            Some(cell) => {
                out.push(pack_cell(cell));
                proof {
                    assert(out@ =~= header_bytes(radius, legacy) + payload_bytes(
                        radius,
                        map@,
                    ).take(i as int + 1));
                }
            },
            None => {
                return Err(CodecError::IncompleteMap);
            },
        }
        i += 1;
    }
    proof {
        assert(payload_bytes(radius, map@).take(n as int) =~= payload_bytes(radius, map@));
    }
    Ok(out)
}

/// A source is classified as legacy exactly when its total length equals
/// `1 + cell_count(byte 0)`.
pub open spec fn is_legacy(bytes: Seq<u8>) -> bool {
    bytes.len() >= 1 && bytes.len() == 1 + cell_count(bytes[0] as int)
}

/// Offset of the first payload byte of a source: 1 legacy, 2 modern.
pub open spec fn payload_offset(bytes: Seq<u8>) -> int {
    if is_legacy(bytes) {
        1
    } else {
        2
    }
}

/// The radius a source declares: byte 0 legacy, byte 1 modern (byte 0 is
/// then the reserved flag byte, ignored on read).
pub open spec fn stored_radius(bytes: Seq<u8>) -> u8 {
    if is_legacy(bytes) {
        bytes[0]
    } else {
        bytes[1]
    }
}

/// A source decodes successfully iff it is a well-sized legacy file, or at
/// least two bytes long with a payload that exactly matches the cell count
/// of the radius stored at byte 1.
pub open spec fn decode_ok(bytes: Seq<u8>) -> bool {
    is_legacy(bytes) || (bytes.len() >= 2 && bytes.len() - 2 == cell_count(bytes[1] as int))
}

/// The error a source that does not decode is rejected with: too short for
/// any layout, or a payload length that contradicts the stored radius.
pub open spec fn decode_err(bytes: Seq<u8>) -> CodecError {
    if bytes.len() < 2 {
        CodecError::UnexpectedEnd
    } else {
        CodecError::SizeMismatch
    }
}

/// Deserialize a map: classify the source as legacy or modern by total
/// length, check the payload length against the stored radius, then rebuild
/// the cell mapping by walking the canonical coordinate order in lockstep
/// with the payload bytes.
///
/// Succeeds iff the source is well sized (`decode_ok`); the decoded map then
/// holds exactly one cell per coordinate of the stored radius's grid, each
/// unpacked from its payload byte. Size mismatches are reported as
/// `SizeMismatch`, sources too short for any layout as `UnexpectedEnd`.
///
/// The legacy format carries no version tag, so classification is by total
/// length alone. A modern file whose reserved flag byte were nonzero could
/// be taken for a legacy file whose expected size happens to coincide; this
/// writer always emits a zero flag byte, for which no such collision exists
/// (a zero radius candidate expects exactly 2 bytes, and a modern file holds
/// at least 3). The ambiguity for foreign writers is accepted
/// legacy-compatibility debt.
#[verifier::loop_isolation(false)]
pub fn decode_map(bytes: &Vec<u8>) -> (r: Result<HexMap, CodecError>)
    ensures
        r is Ok <==> decode_ok(bytes@),
        r is Err ==> r->Err_0 == decode_err(bytes@),
        r is Ok ==> ({
            let m = r->Ok_0;
            let radius = stored_radius(bytes@);
            let off = payload_offset(bytes@);
            &&& m.radius() == radius
            &&& m@.dom() == coords_seq(radius).to_set()
            &&& forall|i: int|
                0 <= i < coords_seq(radius).len() ==> m@[#[trigger] coords_seq(radius)[i]]
                    == unpack_spec(bytes@[off + i])
        }),
{
    let n = bytes.len();
    if n == 0 {
        return Err(CodecError::UnexpectedEnd);
    }
    let cand = bytes[0];
    proof {
        let c = cand as int;
        assert(cell_count(c) >= 1) by (nonlinear_arith)
            requires
                c >= 0,
        ;
    }
    let legacy_total = 1 + cell_count_exec(cand);
    let (radius, off): (u8, usize) = if n == legacy_total {
        (cand, 1)
    } else {
        if n < 2 {
            return Err(CodecError::UnexpectedEnd);
        }
        (bytes[1], 2)
    };
    let expected = cell_count_exec(radius);
    if n - off != expected {
        return Err(CodecError::SizeMismatch);
    }
    let coords = enumerate_coords(radius);
    proof {
        lemma_coords_seq_len(radius);
        lemma_coords_seq_distinct(radius);
    }
    let count = coords.len();
    let mut map = HexMap::new(radius);
    let mut i: usize = 0;
    while i < count
        invariant
            i <= count,
            map.radius() == radius,
            forall|j: int|
                0 <= j < i ==> map@.dom().contains(#[trigger] coords@[j]) && map@[coords@[j]]
                    == unpack_spec(bytes@[off + j]),
            forall|k: Coord|
                #[trigger] map@.dom().contains(k) ==> exists|j: int|
                    0 <= j < i && #[trigger] coords@[j] == k,
        decreases count - i,
    {
        let byte = bytes[off + i];
        let cell = unpack_cell(byte);
        map.insert(coords[i], cell);
        i += 1;
    }
    proof {
        assert forall|k: Coord| map@.dom().contains(k) implies coords_seq(
            radius,
        ).to_set().contains(k) by {
            let j = choose|j: int| 0 <= j < count && #[trigger] coords@[j] == k;
            assert(coords_seq(radius).contains(k));
        }
        assert forall|k: Coord| coords_seq(radius).to_set().contains(k) implies map@.dom().contains(
            k,
        ) by {
            let j = choose|j: int| 0 <= j < coords_seq(radius).len() && coords_seq(radius)[j] == k;
            assert(map@.dom().contains(coords@[j]));
        }
        assert(map@.dom() =~= coords_seq(radius).to_set());
    }
    Ok(map)
}

/// Round trip: encoding a complete map whose neighbour counts fit in three
/// bits, in either format mode, yields a source that decodes, is classified
/// as the mode it was written in, declares the same radius, and unpacks to
/// exactly the cells that were encoded.
pub proof fn lemma_encode_decode_round_trip(radius: u8, cells: Map<Coord, Cell>, legacy: bool)
    requires
        cells.dom() == coords_seq(radius).to_set(),
        forall|c: Coord|
            cells.dom().contains(c) ==> (#[trigger] cells[c]).full_neighbor_count <= 7,
    ensures
        ({
            let bytes = encoded_bytes(radius, cells, legacy);
            &&& decode_ok(bytes)
            &&& is_legacy(bytes) == legacy
            &&& stored_radius(bytes) == radius
            &&& payload_offset(bytes) == header_bytes(radius, legacy).len()
            &&& forall|i: int|
                0 <= i < coords_seq(radius).len() ==> unpack_spec(
                    bytes[payload_offset(bytes) + i],
                ) == cells[#[trigger] coords_seq(radius)[i]]
        }),
{
    lemma_coords_seq_len(radius);
    let bytes = encoded_bytes(radius, cells, legacy);
    let cnt = cell_count(radius as int);
    let r = radius as int;
    assert(cnt >= 1) by (nonlinear_arith)
        requires
            r >= 0,
            cnt == 3 * r * r + 3 * r + 1,
    ;
    if legacy {
        assert(bytes.len() == 1 + cnt);
        assert(bytes[0] == radius);
        assert(is_legacy(bytes));
    } else {
        assert(bytes.len() == 2 + cnt);
        assert(bytes[0] == 0);
        assert(cell_count(0) == 1);
        assert(!is_legacy(bytes));
        assert(bytes[1] == radius);
    }
    let off = payload_offset(bytes);
    assert forall|i: int| 0 <= i < coords_seq(radius).len() implies unpack_spec(bytes[off + i])
        == cells[#[trigger] coords_seq(radius)[i]] by {
        assert(bytes[off + i] == payload_bytes(radius, cells)[i]);
        let c = coords_seq(radius)[i];
        assert(coords_seq(radius).contains(c));
        assert(cells.dom().contains(c));
        lemma_pack_unpack_inverse(cells[c]);
    }
}

} // verus!
