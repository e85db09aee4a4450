use duckdb_raster::cell::{
    check_center, check_descendants, check_level, check_place, check_valid,
};
use duckdb_raster::columns::ColumnType;
use duckdb_raster::s2_impl::{
    point_cell, point_text, s2_cell_id_from_point_impl, s2_cell_id_impl, s2_cell_level_impl,
    s2_cell_to_hex_impl, s2_cell_vertex_impl, s2_hex_to_cell_impl, s2_parent_impl, s2_to_geo_impl,
};
use duckdb_raster::s2_scalar::{
    S2CellIdFromPoint, S2CellLevel, S2CellToHex, S2CellVertex, S2HexToCell, S2ToGeo,
};
use duckdb_raster::{S2Area, S2CellId, S2Contains, S2Distance, S2Parent};
use s2::cell::Cell;
use s2::cellid::CellID;
use s2::latlng::LatLng;
use s2::point::Point;

const FACE_0: i64 = 0x1000_0000_0000_0000;
const FACE_1: i64 = 0x3000_0000_0000_0000;

fn leaf(lat: f64, lon: f64) -> u64 {
    CellID::from(Point::from(LatLng::from_degrees(lat, lon))).0
}

#[test]
fn test_s2_cell_id() {
    let result: i64 = S2CellId::invoke(&[leaf(39.9, 116.4)], &[10])[0];
    assert!(result > 0, "Cell ID should be positive: {}", result);
}

#[test]
fn test_s2_parent() {
    let cell: i64 = S2CellId::invoke(&[leaf(39.9, 116.4)], &[10])[0];
    let parent: i64 = S2Parent::invoke(&[cell], &[8])[0];
    assert!(parent > 0 && parent != cell);
}

#[test]
fn cell_of_a_position_contains_it() {
    let cell: i64 = s2_cell_id_impl(leaf(39.9, 116.4), 10);
    let region = Cell::from(CellID(cell as u64));
    let point = Point::from(LatLng::from_degrees(39.9001, 116.4001));
    assert!(region.contains_point(&point));
}

#[test]
fn parent_has_the_level_that_was_asked_for() {
    let l: u64 = leaf(-33.86, 151.21);
    for level in 0..=30i64 {
        let cell: i64 = s2_cell_id_impl(l, level);
        assert_eq!(s2_cell_level_impl(cell), level as i32);
        assert_eq!(cell as u64, CellID(l).parent(level as u64).0);
    }
}

#[test]
fn parent_of_a_cell_is_the_cell_of_the_lower_level() {
    let l: u64 = leaf(48.85, 2.35);
    for near in 0..=30i64 {
        for far in 0..=near {
            let cell: i64 = s2_cell_id_impl(l, near);
            assert_eq!(s2_parent_impl(cell, far), s2_cell_id_impl(l, far));
        }
    }
}

#[test]
fn parent_at_the_own_level_is_the_cell() {
    let cell: i64 = s2_cell_id_impl(leaf(10.0, 20.0), 12);
    assert_eq!(s2_parent_impl(cell, 12), cell);
    assert_eq!(s2_parent_impl(FACE_0, 0), FACE_0);
}

#[test]
fn levels_of_faces_and_leaves() {
    assert_eq!(S2CellLevel::invoke(&[FACE_0, FACE_1, leaf(1.0, 2.0) as i64]), vec![0, 0, 30]);
    assert_eq!(S2CellLevel::invoke(&[0x1400_0000_0000_0000]), vec![1]);
}

#[test]
fn cells_beyond_the_signed_range_keep_their_bits() {
    let l: u64 = leaf(-33.86, -70.0);
    assert!(l > i64::MAX as u64);
    let cell: i64 = s2_cell_id_impl(l, 7);
    assert!(cell < 0);
    assert_eq!(s2_cell_level_impl(cell), 7);
    assert_eq!(s2_hex_to_cell_impl(s2_cell_to_hex_impl(cell).as_str()), Some(cell));
}

#[test]
fn centers_are_printed_with_seven_decimals() {
    assert_eq!(s2_to_geo_impl(FACE_0), "POINT(0.0000000 0.0000000)");
    assert_eq!(
        S2ToGeo::invoke(&[FACE_0, FACE_1]),
        vec!["POINT(0.0000000 0.0000000)", "POINT(90.0000000 0.0000000)"],
    );
    let cell: i64 = s2_cell_id_impl(leaf(39.9, 116.4), 10);
    let center: LatLng = Cell::from(CellID(cell as u64)).center().into();
    let expected: String = format!("POINT({:.7} {:.7})", center.lng.deg(), center.lat.deg());
    assert_eq!(s2_to_geo_impl(cell), expected);
}

#[test]
fn vertices_are_numbered_from_0_to_3() {
    assert_eq!(
        s2_cell_vertex_impl(FACE_0, 0),
        Some("POINT(-45.0000000 -35.2643897)".to_string()),
    );
    assert_eq!(s2_cell_vertex_impl(FACE_0, 2), Some("POINT(45.0000000 35.2643897)".to_string()));
    assert_eq!(s2_cell_vertex_impl(FACE_0, 4), None);
    assert_eq!(s2_cell_vertex_impl(FACE_0, -1), None);
    assert_eq!(
        S2CellVertex::invoke(&[FACE_0, FACE_0, FACE_0], &[0, 4, -1]),
        vec!["POINT(-45.0000000 -35.2643897)", "", ""],
    );
}

#[test]
fn vertices_match_the_cell() {
    let cell: i64 = s2_cell_id_impl(leaf(39.9, 116.4), 10);
    for k in 0..4i32 {
        let v: LatLng = Cell::from(CellID(cell as u64)).vertex(k as usize).into();
        let expected: String = format!("POINT({:.7} {:.7})", v.lng.deg(), v.lat.deg());
        assert_eq!(s2_cell_vertex_impl(cell, k), Some(expected));
    }
}

#[test]
fn points_are_written_as_well_known_text() {
    assert_eq!(point_text("1.5", "-2"), "POINT(1.5 -2)");
}

#[test]
fn leaf_cell_of_a_point() {
    let expected: i64 = leaf(39.9, 116.4) as i64;
    assert_eq!(s2_cell_id_from_point_impl("POINT(116.4 39.9)"), expected);
    assert_eq!(s2_cell_level_impl(expected), 30);
    assert_eq!(
        S2CellIdFromPoint::invoke(&["POINT(116.4 39.9)".to_string(), "nothing".to_string()]),
        vec![expected, 0],
    );
}

#[test]
fn texts_that_are_no_points_have_no_cell() {
    assert_eq!(s2_cell_id_from_point_impl(""), 0);
    assert_eq!(s2_cell_id_from_point_impl("POINT"), 0);
    assert_eq!(s2_cell_id_from_point_impl("POINT EMPTY"), 0);
    assert_eq!(s2_cell_id_from_point_impl("LINESTRING(0 0, 1 1)"), 0);
    assert_eq!(point_cell(None), 0);
    assert_eq!(point_cell(Some(5)), 5);
}

#[test]
fn tokens_are_hexadecimal_without_trailing_zeros() {
    assert_eq!(s2_cell_to_hex_impl(FACE_0), "1");
    assert_eq!(s2_cell_to_hex_impl(FACE_1), "3");
    assert_eq!(s2_cell_to_hex_impl(0), "X");
    assert_eq!(s2_cell_to_hex_impl(0x0400_0000_0000_0000), "04");
    assert_eq!(s2_cell_to_hex_impl(1), "0000000000000001");
    assert_eq!(S2CellToHex::invoke(&[FACE_0, -1]), vec!["1", "ffffffffffffffff"]);
}

#[test]
fn tokens_are_read_back() {
    let mut id: u64 = 0x9e37_79b9_7f4a_7c15;
    for i in 0..64u32 {
        let cell: i64 = (id >> i << i) as i64;
        assert_eq!(s2_hex_to_cell_impl(s2_cell_to_hex_impl(cell).as_str()), Some(cell));
        id = id.wrapping_mul(0xd134_2543_de82_ef95).wrapping_add(1);
    }
    assert_eq!(s2_hex_to_cell_impl("X"), Some(0));
}

#[test]
fn tokens_are_read_leniently() {
    let rows: Vec<String> = vec![
        "1".to_string(),
        "+1".to_string(),
        "AbC".to_string(),
        "".to_string(),
        "+".to_string(),
        "-1".to_string(),
        " 1".to_string(),
        "zz".to_string(),
        "00000000000000001".to_string(),
        "10000000000000000".to_string(),
        "ffffffffffffffff".to_string(),
    ];
    assert_eq!(
        S2HexToCell::invoke(&rows),
        vec![
            FACE_0,
            0x0100_0000_0000_0000,
            0xabc0_0000_0000_0000_u64 as i64,
            0,
            0,
            0,
            0,
            0,
            1,
            0,
            -1,
        ],
    );
}

#[test]
fn signatures_of_the_cell_functions() {
    let i64s = ColumnType::Int64;
    let f64s = ColumnType::Float64;
    let one = S2CellId::signatures();
    assert_eq!(one.len(), 1);
    assert_eq!(one[0].arguments, vec![f64s, f64s, i64s]);
    assert_eq!(one[0].result, i64s);
    assert_eq!(S2Contains::signatures()[0].arguments, vec![i64s, f64s, f64s]);
    assert_eq!(S2Contains::signatures()[0].result, ColumnType::Boolean);
    assert_eq!(S2Distance::signatures()[0].arguments, vec![i64s, i64s]);
    assert_eq!(S2Distance::signatures()[0].result, f64s);
    assert_eq!(S2Area::signatures()[0].arguments, vec![i64s, ColumnType::Int32]);
    assert_eq!(S2Area::signatures()[0].result, f64s);
    assert_eq!(S2Parent::signatures()[0].arguments, vec![i64s, i64s]);
    assert_eq!(S2CellLevel::signatures()[0].result, ColumnType::Int32);
    assert_eq!(S2CellVertex::signatures()[0].arguments, vec![i64s, ColumnType::Int32]);
    assert_eq!(S2HexToCell::signatures()[0].arguments, vec![ColumnType::Utf8]);
}

#[test]
fn cells_are_checked() {
    assert!(check_level(1) && check_level(FACE_0 as u64));
    assert!(!check_level(0) && !check_level(1 << 62) && !check_level(1 << 63));
    assert!(check_place(2) && !check_place(0xc000_0000_0000_0001));
    assert!(check_valid(1) && !check_valid(2) && !check_valid(0));
    assert!(check_valid(0xb000_0000_0000_0000) && !check_valid(0xd000_0000_0000_0000));
    assert!(check_descendants(FACE_0 as u64, 0) && check_descendants(FACE_0 as u64, 30));
    assert!(!check_descendants(FACE_0 as u64, 31) && !check_descendants(FACE_0 as u64, -1));
    assert!(!check_descendants(1, 29) && check_descendants(1, 30));
    assert!(!check_descendants(u64::MAX, 30));
    for id in [1u64, 2, 12, 1 << 60, 0xb000_0000_0000_0000, 0xd000_0000_0000_0000] {
        assert_eq!(check_valid(id), CellID(id).is_valid());
    }
}

#[test]
fn ancestors_contain_their_descendants_and_nothing_else() {
    let cells: Vec<CellID> = (0..=30).map(|l| CellID(leaf(51.5, -0.12)).parent(l)).collect();
    for (a, outer) in cells.iter().enumerate() {
        for (b, inner) in cells.iter().enumerate() {
            assert_eq!(outer.contains(inner), a <= b);
            if outer.contains(inner) {
                let up: i64 = s2_parent_impl(inner.0 as i64, a as i64);
                assert_eq!(up as u64, outer.0);
            }
        }
    }
}

#[test]
fn cells_nest_or_are_apart() {
    let near: CellID = CellID(leaf(51.5, -0.12));
    let far: CellID = CellID(leaf(51.6, 0.3));
    for a in 0..=30u64 {
        for b in 0..=30u64 {
            let (x, y) = (near.parent(a), far.parent(b));
            assert_eq!(x.intersects(&y), x.contains(&y) || y.contains(&x));
        }
    }
}

#[test]
fn identifiers_with_an_odd_lowest_bit_have_a_level() {
    assert_eq!(S2CellLevel::invoke(&[2, 8]), vec![30, 29]);
    assert_eq!(s2_parent_impl(2, 30), 3);
}

#[test]
fn tokens_of_different_cells_differ() {
    let cells: [i64; 5] = [0, 1, 16, 256, -1];
    for (i, &a) in cells.iter().enumerate() {
        for (j, &b) in cells.iter().enumerate() {
            assert_eq!(s2_cell_to_hex_impl(a) == s2_cell_to_hex_impl(b), i == j);
        }
        let token: String = s2_cell_to_hex_impl(a);
        assert!(!token.is_empty() && token.len() <= 16);
        assert!(token.chars().all(|c| c.is_ascii_hexdigit() || c == 'X'));
    }
}

#[test]
fn printed_centers_lead_back_to_their_cells() {
    let mut seed: u64 = 3;
    for i in 0..2000u64 {
        seed = seed.wrapping_mul(0x5851_f42d_4c95_7f2d).wrapping_add(0x1405_7b7e_f767_814f);
        let level: i64 = (i % 21) as i64;
        let id = CellID((i % 6) << 61 | (seed >> 3) | 1);
        let cell: i64 = s2_cell_id_impl(id.0, level);
        let center: i64 = s2_cell_id_from_point_impl(s2_to_geo_impl(cell).as_str());
        assert_ne!(center, 0);
        assert_eq!(s2_parent_impl(center, level), cell);
    }
}

#[test]
fn printed_vertices_are_read_as_points() {
    for k in 0..4i32 {
        let text: String = s2_cell_vertex_impl(FACE_1, k).unwrap();
        assert_ne!(s2_cell_id_from_point_impl(text.as_str()), 0);
    }
    assert_ne!(s2_cell_id_from_point_impl("POINT(-180.0000000 -0.0000000)"), 0);
    assert_ne!(s2_cell_id_from_point_impl("POINT(999.9999999 0.0000000)"), 0);
}

#[test]
fn centers_of_identifiers_with_an_odd_lowest_bit() {
    let mut refused: u32 = 0;
    let mut seed: u64 = 5;
    for i in 0..2000u64 {
        seed = seed.wrapping_mul(0x5851_f42d_4c95_7f2d).wrapping_add(0x1405_7b7e_f767_814f);
        let low: u64 = 2 << (2 * (i % 30));
        let id: u64 = (((i % 6) << 61 | seed >> 3) & !(low - 1)) | low;
        let rows = S2ToGeo::invoke_defined(&[id as i64]);
        assert_eq!(rows.is_some(), check_center(id));
        match rows {
            Some(rows) => {
                let center: LatLng = Cell::from(CellID(id)).center().into();
                let expected: String =
                    format!("POINT({:.7} {:.7})", center.lng.deg(), center.lat.deg());
                assert_eq!(rows, vec![expected]);
            }
            None => refused += 1,
        }
    }
    assert!(refused < 2000);
    assert!(S2ToGeo::invoke_defined(&[FACE_0, 0]).is_none());
    assert!(!check_center(0) && check_center(1) && check_center(FACE_0 as u64));
}

#[test]
fn centers_at_the_rim_of_a_face() {
    for face in 0..6u64 {
        let mut refused: u32 = 0;
        for k in 0..4096i32 {
            let far: i32 = 0x3fff_ffff;
            for (i, j) in [(far, k * 262_143), (k * 262_143, far), (far - 1, k), (k, far - 1)] {
                let id: u64 = CellID::from_face_ij(face as u8, i, j).0;
                for odd in [id & !3 | 2, id & !15 | 8] {
                    let (_, a, b, _) = CellID(odd).face_ij_orientation();
                    let step: i32 = if (a ^ (odd as i32 >> 2)) & 1 != 0 { 2 } else { 0 };
                    let fits: bool = (2 * a).checked_add(step).is_some()
                        && (2 * b).checked_add(step).is_some();
                    assert_eq!(check_center(odd), fits);
                    if !fits {
                        refused += 1;
                    }
                }
            }
        }
        assert!(refused > 0);
    }
}
