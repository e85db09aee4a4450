use duckdb_raster::columns::ColumnType;
use duckdb_raster::s2_impl::{s2_cell_level_impl, s2_parent_impl};
use duckdb_raster::s2_table::{
    covering_from_wkt, found_cells, interior_covering_from_wkt, levels_fit, S2ChildrenVTab,
    S2CoveringVTab, S2InteriorCoveringVTab, S2NeighborsVTab,
};
use s2::cellid::CellID;
use s2::rect::Rect;
use s2::region::RegionCoverer;

const FACE_0: i64 = 0x1000_0000_0000_0000;
const SQUARE: &str = "POLYGON((116 39, 117 39, 117 40, 116 40, 116 39))";

fn signed(cells: &[CellID]) -> Vec<i64> {
    cells.iter().map(|c| c.0 as i64).collect()
}

fn coverer(min_level: u8, max_level: u8, max_cells: usize) -> RegionCoverer {
    RegionCoverer { min_level, max_level, level_mod: 1, max_cells }
}

#[test]
fn children_of_a_face() {
    let bind = S2ChildrenVTab::bind(FACE_0, 1);
    let mut init = S2ChildrenVTab::init();
    assert_eq!(
        S2ChildrenVTab::func(&mut init, &bind),
        vec![
            0x0400_0000_0000_0000,
            0x0c00_0000_0000_0000,
            0x1400_0000_0000_0000,
            0x1c00_0000_0000_0000,
        ],
    );
    assert!(S2ChildrenVTab::func(&mut init, &bind).is_empty());
    assert!(S2ChildrenVTab::func(&mut init, &bind).is_empty());
}

#[test]
fn children_have_the_cell_as_parent() {
    let cell: i64 = 0x1400_0000_0000_0000;
    let bind = S2ChildrenVTab::bind(cell, 5);
    let rows: Vec<i64> = S2ChildrenVTab::func(&mut S2ChildrenVTab::init(), &bind);
    assert_eq!(rows.len(), 256);
    let mut last: i64 = 0;
    for &row in rows.iter() {
        assert!(row > last);
        assert_eq!(s2_cell_level_impl(row), 5);
        assert_eq!(s2_parent_impl(row, 1), cell);
        last = row;
    }
    assert_eq!(CellID(rows[0] as u64).range_min(), CellID(cell as u64).range_min());
    assert_eq!(CellID(last as u64).range_max(), CellID(cell as u64).range_max());
    for pair in rows.windows(2) {
        let end: u64 = CellID(pair[0] as u64).range_max().0;
        assert_eq!(CellID(pair[1] as u64).range_min().0, end + 2);
    }
}

#[test]
fn children_at_the_own_level() {
    let bind = S2ChildrenVTab::bind(FACE_0, 0);
    assert_eq!(S2ChildrenVTab::func(&mut S2ChildrenVTab::init(), &bind), vec![FACE_0]);
    let bind = S2ChildrenVTab::bind(1, 30);
    assert_eq!(S2ChildrenVTab::func(&mut S2ChildrenVTab::init(), &bind), vec![1]);
}

#[test]
fn neighbors_of_a_face_are_four_faces() {
    let bind = S2NeighborsVTab::bind(FACE_0);
    let mut init = S2NeighborsVTab::init();
    let rows: Vec<i64> = S2NeighborsVTab::func(&mut init, &bind);
    let faces: Vec<u64> = rows.iter().map(|&c| (c as u64) >> 61).collect();
    assert_eq!(faces, vec![5, 1, 2, 4]);
    assert!(S2NeighborsVTab::func(&mut init, &bind).is_empty());
}

#[test]
fn neighbors_have_the_level_of_the_cell() {
    let cell = CellID::from_token("35f05").0;
    let rows: Vec<i64> =
        S2NeighborsVTab::func(&mut S2NeighborsVTab::init(), &S2NeighborsVTab::bind(cell as i64));
    assert_eq!(rows, signed(&CellID(cell).edge_neighbors()));
    for &row in rows.iter() {
        assert_eq!(s2_cell_level_impl(row), s2_cell_level_impl(cell as i64));
        assert!(CellID(row as u64).is_valid());
    }
}

#[test]
fn covering_of_a_square() {
    let cells: Vec<i64> = covering_from_wkt(SQUARE, 6, 12);
    let rect = Rect::from_degrees(39.0, 116.0, 40.0, 117.0);
    assert_eq!(cells, signed(&coverer(6, 12, 64).covering(&rect).0));
    assert!(!cells.is_empty() && cells.len() <= 64);
    for &c in cells.iter() {
        assert!(s2_cell_level_impl(c) >= 6 && s2_cell_level_impl(c) <= 12);
    }
    for pair in cells.windows(2) {
        assert!(CellID(pair[0] as u64).range_max() < CellID(pair[1] as u64).range_min());
    }
}

#[test]
fn covering_table_is_read_once() {
    let bind = S2CoveringVTab::bind(SQUARE, 6, 12);
    let mut init = S2CoveringVTab::init();
    assert_eq!(S2CoveringVTab::func(&mut init, &bind), covering_from_wkt(SQUARE, 6, 12));
    assert!(S2CoveringVTab::func(&mut init, &bind).is_empty());
}

#[test]
fn covering_levels_are_kept_in_range() {
    assert_eq!(covering_from_wkt(SQUARE, -5, 8), covering_from_wkt(SQUARE, 0, 8));
    assert_eq!(covering_from_wkt(SQUARE, 4, 99), covering_from_wkt(SQUARE, 4, 30));
    let cells: Vec<i64> = covering_from_wkt(SQUARE, 7, 3);
    assert!(!cells.is_empty());
    for &c in cells.iter() {
        assert_eq!(s2_cell_level_impl(c), 7);
    }
}

#[test]
fn levels_that_the_coverer_takes() {
    assert!(levels_fit(0, 30) && levels_fit(-1, 31) && levels_fit(30, 0) && levels_fit(256, 5));
    assert!(!levels_fit(31, 30) && !levels_fit(0, -1));
}

#[test]
fn coverings_are_defined_for_levels_or_without_a_geometry() {
    assert!(S2CoveringVTab::bind_defined(SQUARE, 31, 30).is_none());
    assert!(S2InteriorCoveringVTab::bind_defined(SQUARE, 0, -1, 8).is_none());
    let bind = S2CoveringVTab::bind_defined("nothing", 31, 30).unwrap();
    assert!(S2CoveringVTab::func(&mut S2CoveringVTab::init(), &bind).is_empty());
    let bind = S2InteriorCoveringVTab::bind_defined("", 0, -1, 8).unwrap();
    assert!(S2InteriorCoveringVTab::func(&mut S2InteriorCoveringVTab::init(), &bind).is_empty());
    let bind = S2CoveringVTab::bind_defined(SQUARE, 6, 12).unwrap();
    assert_eq!(
        S2CoveringVTab::func(&mut S2CoveringVTab::init(), &bind),
        covering_from_wkt(SQUARE, 6, 12),
    );
}

#[test]
fn nothing_covers_what_is_no_geometry() {
    assert!(covering_from_wkt("POLYGON((", 0, 10).is_empty());
    assert!(covering_from_wkt("", 0, 10).is_empty());
    assert!(covering_from_wkt("LINESTRING EMPTY", 0, 10).is_empty());
    assert!(interior_covering_from_wkt("nothing", 0, 10, 8).is_empty());
    assert!(found_cells(None).is_empty());
    assert_eq!(found_cells(Some(vec![7, u64::MAX])), vec![7, -1]);
}

#[test]
fn interior_covering_of_a_square() {
    let cells: Vec<i64> = interior_covering_from_wkt(SQUARE, 6, 12, 20);
    let rect = Rect::from_degrees(39.0, 116.0, 40.0, 117.0);
    assert_eq!(cells, signed(&coverer(6, 12, 20).interior_covering(&rect).0));
    assert!(!cells.is_empty() && cells.len() <= 20);
    assert_ne!(cells, covering_from_wkt(SQUARE, 6, 12));
}

#[test]
fn interior_covering_asks_for_four_cells_or_more() {
    let bind = S2InteriorCoveringVTab::bind(SQUARE, 6, 12, -3);
    let mut init = S2InteriorCoveringVTab::init();
    assert_eq!(
        S2InteriorCoveringVTab::func(&mut init, &bind),
        interior_covering_from_wkt(SQUARE, 6, 12, 4),
    );
    assert!(S2InteriorCoveringVTab::func(&mut init, &bind).is_empty());
}

#[test]
fn columns_and_parameters_of_the_cell_tables() {
    assert_eq!(S2CoveringVTab::columns()[0].name, "cell_id");
    assert_eq!(S2CoveringVTab::columns()[0].kind, ColumnType::Int64);
    assert_eq!(S2ChildrenVTab::columns()[0].name, "child_id");
    assert_eq!(S2NeighborsVTab::columns()[0].name, "neighbor_id");
    assert_eq!(S2InteriorCoveringVTab::columns()[0].name, "cell_id");
    assert_eq!(
        S2CoveringVTab::parameters(),
        vec![ColumnType::Utf8, ColumnType::Int32, ColumnType::Int32],
    );
    assert_eq!(S2ChildrenVTab::parameters(), vec![ColumnType::Int64, ColumnType::Int32]);
    assert_eq!(S2NeighborsVTab::parameters(), vec![ColumnType::Int64]);
    assert_eq!(
        S2InteriorCoveringVTab::parameters(),
        vec![ColumnType::Utf8, ColumnType::Int32, ColumnType::Int32, ColumnType::Int32],
    );
}

fn neighbors(cell: u64) -> Vec<i64> {
    S2NeighborsVTab::func(&mut S2NeighborsVTab::init(), &S2NeighborsVTab::bind(cell as i64))
}

fn neighbors_are_mutual(cell: u64) {
    let rows: Vec<i64> = neighbors(cell);
    assert_eq!(rows.len(), 4);
    for (i, &n) in rows.iter().enumerate() {
        assert_ne!(n as u64, cell);
        assert_eq!(s2_cell_level_impl(n), s2_cell_level_impl(cell as i64));
        for &m in rows[i + 1..].iter() {
            assert_ne!(n, m);
        }
        assert!(neighbors(n as u64).contains(&(cell as i64)), "{:x} {:x}", cell, n);
    }
}

#[test]
fn neighbors_of_all_large_cells_are_mutual() {
    for face in 0..6u64 {
        let top = CellID(face << 61 | 1 << 60);
        for level in 0..=4u64 {
            for cell in top.child_iter_at_level(level) {
                neighbors_are_mutual(cell.0);
            }
        }
    }
}

#[test]
fn neighbors_of_small_cells_are_mutual() {
    let mut seed: u64 = 1;
    for i in 0..3000u64 {
        seed = seed.wrapping_mul(0x5851_f42d_4c95_7f2d).wrapping_add(0x1405_7b7e_f767_814f);
        let id = CellID((i % 6) << 61 | (seed >> 3) | 1);
        neighbors_are_mutual(id.parent(i % 31).0);
    }
    for face in 0..6u64 {
        let top = CellID(face << 61 | 1 << 60);
        for level in 0..=30u64 {
            neighbors_are_mutual(top.range_min().parent(level).0);
            neighbors_are_mutual(top.range_max().parent(level).0);
        }
    }
}

#[test]
fn neighbors_of_identifiers_with_an_odd_lowest_bit_differ() {
    let mut seed: u64 = 7;
    for i in 0..3000u64 {
        seed = seed.wrapping_mul(0x5851_f42d_4c95_7f2d).wrapping_add(0x1405_7b7e_f767_814f);
        let low: u64 = 2 << (2 * (i % 30));
        let id: u64 = (((i % 6) << 61 | seed >> 3) & !(low - 1)) | low;
        let rows: Vec<i64> = neighbors(id);
        for (a, &n) in rows.iter().enumerate() {
            assert!(n as u64 != id && !rows[a + 1..].contains(&n));
        }
    }
}
