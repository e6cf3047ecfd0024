use slithergen::args::Difficulty;
use slithergen::codec::{decode_map, encode_map, pack_cell, unpack_cell, CodecError};
use slithergen::generator::{DummyGenerator, Generator};
use slithergen::model::{Cell, HexMap, Region};

fn filled_map(radius: u8, cell: Cell) -> HexMap {
    let mut map = HexMap::new(radius);
    let coords = map.iter_coords();
    for coord in coords {
        map.insert(coord, cell.clone());
    }
    map
}

#[test]
fn test_pack_unpack() {
    let c1 = Cell::new(Region::Inside, 3, true);
    let b1 = pack_cell(&c1);
    let u1 = unpack_cell(b1);
    assert_eq!(u1, c1);

    // Manual bit check
    // Inside=1, Count=3 (011) << 1 = 6 (00110), Visible=1 << 4 = 16 (10000)
    // Total = 1 + 6 + 16 = 23 (0x17)
    assert_eq!(b1, 23);

    let c2 = Cell::new(Region::Outside, 0, false);
    let b2 = pack_cell(&c2);
    let u2 = unpack_cell(b2);
    assert_eq!(u2, c2);
    assert_eq!(b2, 0);
}

#[test]
fn pack_unpack_inverse_for_all_storable_cells() {
    // decode(encode(c)) == c for every cell whose count fits in 3 bits
    for &region in &[Region::Inside, Region::Outside] {
        for count in 0..=7u8 {
            for &visible in &[false, true] {
                let cell = Cell::new(region, count, visible);
                assert_eq!(unpack_cell(pack_cell(&cell)), cell);
            }
        }
    }
}

#[test]
fn pack_masks_counts_above_seven() {
    // counts >= 8 are silently masked to their low 3 bits
    let cell = Cell::new(Region::Outside, 8, false);
    assert_eq!(pack_cell(&cell), 0);
    let cell = Cell::new(Region::Outside, 9, false);
    assert_eq!(pack_cell(&cell), 2);
}

#[test]
fn unpack_ignores_reserved_bits() {
    // bits 5-7 are dropped on decode
    assert_eq!(unpack_cell(0xE0), Cell::new(Region::Outside, 0, false));
    assert_eq!(unpack_cell(0xF7), unpack_cell(0x17));
}

#[test]
fn test_save_load_roundtrip() {
    let mut map = HexMap::new(1); // Radius 1 = 7 hexes
    // Populate map cells manually for test
    let coords = map.iter_coords();
    for coord in &coords {
        map.insert(*coord, Cell::new(Region::Inside, 1, true));
    }

    // Save
    let bytes = encode_map(&map, false).unwrap();

    // Load
    let loaded = decode_map(&bytes).unwrap();

    assert_eq!(loaded.radius(), 1);
    assert_eq!(loaded.len(), map.len());

    for coord in &coords {
        assert_eq!(loaded.get(coord), map.get(coord));
    }
}

#[test]
fn test_save_load_legacy_roundtrip() {
    let mut map = HexMap::new(1);
    let coords = map.iter_coords();
    for coord in &coords {
        map.insert(*coord, Cell::new(Region::Inside, 1, true));
    }

    // Save legacy
    let bytes = encode_map(&map, true).unwrap();

    // Check size (should be 1 + 7 = 8 bytes, vs 9 bytes for modern)
    assert_eq!(bytes.len(), 8);

    // Load (auto-detect)
    let loaded = decode_map(&bytes).unwrap();

    assert_eq!(loaded.radius(), 1);
    assert_eq!(loaded.len(), map.len());
}

#[test]
fn roundtrip_preserves_distinct_cells() {
    // every cell different, so any drift between the write-time and
    // read-time coordinate order would show
    for &legacy in &[false, true] {
        let mut map = HexMap::new(2);
        let coords = map.iter_coords();
        for (i, coord) in coords.iter().enumerate() {
            let region = if i % 2 == 0 { Region::Inside } else { Region::Outside };
            map.insert(*coord, Cell::new(region, (i % 7) as u8, i % 3 == 0));
        }
        let bytes = encode_map(&map, legacy).unwrap();
        let loaded = decode_map(&bytes).unwrap();
        assert_eq!(loaded.radius(), 2);
        assert_eq!(loaded.len(), 19);
        for coord in &coords {
            assert_eq!(loaded.get(coord), map.get(coord));
        }
    }
}

#[test]
fn modern_layout_bytes() {
    // [flags 0] [radius] [one packed byte per coordinate]
    let map = filled_map(1, Cell::new(Region::Inside, 3, true));
    let bytes = encode_map(&map, false).unwrap();
    assert_eq!(bytes.len(), 9);
    assert_eq!(bytes[0], 0x00);
    assert_eq!(bytes[1], 1);
    for &b in &bytes[2..] {
        assert_eq!(b, 0x17);
    }
}

#[test]
fn size_mismatch_is_detected() {
    // a modern file one payload byte short of 3R^2+3R+1 fails as invalid data
    let map = filled_map(1, Cell::new(Region::Inside, 1, true));
    let mut bytes = encode_map(&map, false).unwrap();
    bytes.pop();
    assert_eq!(decode_map(&bytes).unwrap_err(), CodecError::SizeMismatch);
}

#[test]
fn incomplete_map_is_rejected() {
    // a map missing one required coordinate cannot be written
    let mut map = HexMap::new(1);
    let coords = map.iter_coords();
    for coord in &coords[..coords.len() - 1] {
        map.insert(*coord, Cell::new(Region::Inside, 1, true));
    }
    assert_eq!(encode_map(&map, false), Err(CodecError::IncompleteMap));
    assert_eq!(encode_map(&map, true), Err(CodecError::IncompleteMap));
}

#[test]
fn short_sources_are_rejected() {
    let empty: Vec<u8> = Vec::new();
    assert_eq!(decode_map(&empty).unwrap_err(), CodecError::UnexpectedEnd);
    // one byte can be neither legacy (needs at least radius + 1 cell) nor modern
    let one = vec![3u8];
    assert_eq!(decode_map(&one).unwrap_err(), CodecError::UnexpectedEnd);
}

#[test]
fn legacy_detection_by_total_length() {
    // radius 0 legacy: [radius, cell] — exactly 1 + 1 bytes
    let legacy = vec![0u8, 0x17];
    let loaded = decode_map(&legacy).unwrap();
    assert_eq!(loaded.radius(), 0);
    assert_eq!(loaded.len(), 1);
    // radius 0 modern: [flags, radius, cell]
    let modern = vec![0u8, 0u8, 0x17];
    let loaded = decode_map(&modern).unwrap();
    assert_eq!(loaded.radius(), 0);
    assert_eq!(loaded.len(), 1);
}

#[test]
fn dummy_generator_fills_every_cell() {
    let map = DummyGenerator.generate(2, Difficulty::Hard);
    assert_eq!(map.radius(), 2);
    assert_eq!(map.len(), 19);
    for coord in map.iter_coords() {
        assert_eq!(map.get(&coord), Some(&Cell::new(Region::Inside, 3, true)));
    }
    // a generated map always encodes
    assert!(encode_map(&map, false).is_ok());
}
