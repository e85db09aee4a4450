use duckdb_raster::cell_union::{
    pack_cell_union, unpack_cell_union, S2CellUnionArea, S2CellUnionContains,
    S2CellUnionIntersects, S2CellUnionPack,
};
use duckdb_raster::columns::ColumnType;
use duckdb_raster::s2_impl::s2_cell_to_hex_impl;
use duckdb_raster::union_query::{contains_cell, intersects_union};
use s2::cellid::CellID;

fn pack(list: &str) -> Vec<u8> {
    S2CellUnionPack::invoke(&[list.to_string()])[0].clone()
}

#[test]
fn packed_bytes() {
    assert_eq!(pack_cell_union(&[]), vec![0, 0, 0, 0]);
    assert_eq!(
        pack_cell_union(&[1, -2]),
        vec![
            2, 0, 0, 0, 1, 0, 0, 0, 0, 0, 0, 0, 0xfe, 0xff, 0xff, 0xff, 0xff, 0xff, 0xff, 0xff,
        ],
    );
}

#[test]
fn unpacking_undoes_packing() {
    let cells: Vec<i64> = vec![0, 1, -1, i64::MIN, i64::MAX, 0x0123_4567_89ab_cdef];
    let blob: Vec<u8> = pack_cell_union(&cells);
    assert_eq!(blob.len(), 4 + 8 * cells.len());
    let expected: Vec<u64> = cells.iter().map(|&c| c as u64).collect();
    assert_eq!(unpack_cell_union(&blob), expected);
}

#[test]
fn packing_undoes_unpacking() {
    let blob: Vec<u8> = vec![1, 0, 0, 0, 8, 7, 6, 5, 4, 3, 2, 1];
    let cells: Vec<u64> = unpack_cell_union(&blob);
    assert_eq!(cells, vec![0x0102_0304_0506_0708]);
    let again: Vec<i64> = cells.iter().map(|&c| c as i64).collect();
    assert_eq!(pack_cell_union(&again), blob);
}

#[test]
fn short_objects_are_read_as_far_as_they_go() {
    assert!(unpack_cell_union(&[]).is_empty());
    assert!(unpack_cell_union(&[1, 0, 0]).is_empty());
    assert!(unpack_cell_union(&[1, 0, 0, 0, 9, 9, 9]).is_empty());
    assert!(unpack_cell_union(&[0xff, 0xff, 0xff, 0xff]).is_empty());
    assert_eq!(
        unpack_cell_union(&[9, 0, 0, 0, 5, 0, 0, 0, 0, 0, 0, 0, 1, 1]),
        vec![5],
    );
    assert!(unpack_cell_union(&[0, 0, 0, 0, 5, 0, 0, 0, 0, 0, 0, 0]).is_empty());
}

#[test]
fn token_lists_are_trimmed_and_empty_pieces_left_out() {
    assert_eq!(
        unpack_cell_union(&pack(" 1, ,3 ,\t5\u{a0},")),
        vec![1 << 60, 3 << 60, 5 << 60],
    );
    assert!(unpack_cell_union(&pack("")).is_empty());
    assert!(unpack_cell_union(&pack(" , ,,")).is_empty());
    assert_eq!(unpack_cell_union(&pack("what")), vec![0]);
}

#[test]
fn joined_tokens_give_the_union_of_the_cells() {
    let cells: Vec<i64> = vec![0x1000_0000_0000_0000, -0x1000_0000_0000_0001, 5, 0];
    let tokens: Vec<String> = cells.iter().map(|&c| s2_cell_to_hex_impl(c)).collect();
    let expected: Vec<u64> = cells.iter().map(|&c| c as u64).collect();
    assert_eq!(unpack_cell_union(&pack(tokens.join(",").as_str())), expected);
}

#[test]
fn a_union_contains_the_descendants_of_its_cells() {
    let blob: Vec<u8> = pack("04,14,3");
    let inside: i64 = CellID(0x1400_0000_0000_0000).child_begin_at_level(9).0 as i64;
    let outside: i64 = 0x0c00_0000_0000_0000;
    let rows: Vec<bool> = S2CellUnionContains::invoke(
        &[blob.clone(), blob.clone(), blob.clone(), pack("")],
        &[inside, outside, 0x3000_0000_0000_0000, inside],
    );
    assert_eq!(rows, vec![true, false, true, false]);
}

#[test]
fn containment_in_sorted_unions_is_that_of_one_cell() {
    let cells: Vec<u64> = vec![0x0400_0000_0000_0000, 0x1400_0000_0000_0000, 3 << 60];
    for id in [1u64, 0x07ff_ffff_ffff_ffff, 0x0800_0000_0000_0001, 0x1400_0000_0000_0000, 5 << 60] {
        let expected: bool = cells.iter().any(|&c| CellID(c).contains(&CellID(id)));
        assert_eq!(contains_cell(&cells, id), expected);
    }
}

#[test]
fn unions_with_a_common_leaf_intersect() {
    let a: Vec<u8> = pack("14");
    let b: Vec<u8> = pack("1");
    let c: Vec<u8> = pack("3,5");
    let rows: Vec<bool> = S2CellUnionIntersects::invoke(
        &[a.clone(), b.clone(), a.clone(), c.clone(), pack("")],
        &[b.clone(), a.clone(), c.clone(), c.clone(), c.clone()],
    );
    assert_eq!(rows, vec![true, true, false, true, false]);
    assert!(intersects_union(&[0x1400_0000_0000_0000], &[1 << 60]));
}

#[test]
fn identifiers_without_a_range_contain_nothing() {
    assert!(!contains_cell(&[], 7));
    assert!(!contains_cell(&[0, 1 << 63], 7));
    assert!(!contains_cell(&[0, 5], 7) && contains_cell(&[0, 8], 3));
    assert!(!contains_cell(&[5], 0));
    assert!(!intersects_union(&[0], &[5]) && !intersects_union(&[0], &[]));
    assert!(intersects_union(&[0, 5], &[5]) && intersects_union(&[5], &[1 << 63, 5]));
}

#[test]
fn unions_collected_in_any_order_answer_alike() {
    let inside: i64 = CellID(0x1400_0000_0000_0000).child_begin_at_level(9).0 as i64;
    for list in ["04,14,3", "3,14,04", "14,3,04", "3,04,14,14,3"] {
        let rows: Vec<bool> = S2CellUnionContains::invoke(
            &[pack(list), pack(list), pack(list)],
            &[inside, 0x0c00_0000_0000_0000, 0x0400_0000_0000_0000],
        );
        assert_eq!(rows, vec![true, false, true], "{}", list);
        assert_eq!(
            S2CellUnionIntersects::invoke(&[pack("5,1"), pack("5,7")], &[pack(list), pack(list)]),
            vec![true, false],
        );
    }
}

#[test]
fn cells_within_others_hide_nothing() {
    let top = CellID(1 << 60);
    let small: u64 = top.child_begin_at_level(20).next().0;
    let other: u64 = CellID(top.range_max().0).parent(12).prev().0;
    let far: u64 = top.range_max().0;
    for cells in [[small, top.0, other], [other, small, top.0], [top.0, other, small]] {
        for id in [small, other, far, top.0, top.range_min().0] {
            assert!(contains_cell(&cells, id));
            assert!(intersects_union(&[id], &cells) && intersects_union(&cells, &[id]));
        }
        assert!(!contains_cell(&cells, 3 << 60));
    }
}

#[test]
fn four_siblings_do_not_contain_their_parent() {
    let children: Vec<u64> = CellID(1 << 60).children().iter().map(|c| c.0).collect();
    assert!(!contains_cell(&children, 1 << 60));
    assert!(intersects_union(&children, &[1 << 60]));
}

#[test]
fn random_unions_answer_as_their_cells_do() {
    let mut seed: u64 = 11;
    let mut next = move || {
        seed = seed.wrapping_mul(0x5851_f42d_4c95_7f2d).wrapping_add(0x1405_7b7e_f767_814f);
        seed >> 24
    };
    for _ in 0..400 {
        let mut cell = || CellID((next() << 40 & (1 << 60) - 1) | 1).parent(next() % 8).0;
        let a: Vec<u64> = (0..7).map(|_| cell()).collect();
        let b: Vec<u64> = (0..5).map(|_| cell()).collect();
        let id: u64 = cell();
        let held: bool = a.iter().any(|&c| CellID(c).contains(&CellID(id)));
        assert_eq!(contains_cell(&a, id), held);
        let met: bool =
            a.iter().any(|&x| b.iter().any(|&y| CellID(x).intersects(&CellID(y))));
        assert_eq!(intersects_union(&a, &b), met);
    }
}

#[test]
fn signatures_of_the_union_functions() {
    assert_eq!(S2CellUnionPack::signatures()[0].arguments, vec![ColumnType::Utf8]);
    assert_eq!(S2CellUnionPack::signatures()[0].result, ColumnType::Binary);
    assert_eq!(
        S2CellUnionContains::signatures()[0].arguments,
        vec![ColumnType::Binary, ColumnType::Int64],
    );
    assert_eq!(S2CellUnionContains::signatures()[0].result, ColumnType::Boolean);
    assert_eq!(
        S2CellUnionIntersects::signatures()[0].arguments,
        vec![ColumnType::Binary, ColumnType::Binary],
    );
    assert_eq!(S2CellUnionIntersects::signatures()[0].result, ColumnType::Boolean);
    assert_eq!(S2CellUnionArea::signatures()[0].arguments, vec![ColumnType::Binary]);
    assert_eq!(S2CellUnionArea::signatures()[0].result, ColumnType::Float64);
}

#[test]
fn overlap_with_sorted_unions_is_that_of_two_cells() {
    let b: Vec<u64> = vec![0x0400_0000_0000_0000, 0x1400_0000_0000_0000, 3 << 60];
    for id in [1u64, 0x0800_0000_0000_0001, 1 << 60, 0x1400_0000_0000_0000, 5 << 60] {
        let expected: bool = b.iter().any(|&c| CellID(c).intersects(&CellID(id)));
        assert_eq!(intersects_union(&[id], &b), expected);
        assert_eq!(intersects_union(&b, &[id]), expected);
        if contains_cell(&b, id) {
            assert!(intersects_union(&[id], &b));
        }
    }
}
