//! The S2 functions on columns of values.
use crate::cell::{ancestor_at, check_center, has_center, has_level, has_place, level_of};
use crate::columns::{exact, only_signature, ColumnType, Signature};
use crate::s2_impl::{
    is_cell_of_point, is_center_text, is_degree_point, is_vertex_text, law_vertex_text,
    reads_as_point, s2_cell_id_from_point_impl, s2_cell_id_impl, s2_cell_level_impl,
    s2_cell_to_hex_impl, s2_cell_vertex_impl, s2_hex_to_cell_impl, s2_parent_impl, s2_to_geo_impl,
    vertex_may_print,
};
use crate::token::{token, token_value};
use vstd::prelude::*;

verus! {

/// `s2_cell_level(cell)`: the level of a cell.
pub struct S2CellLevel;

impl S2CellLevel {
    /// The level of each cell.
    pub fn invoke(cell: &[i64]) -> (rows: Vec<i32>)
        requires
            forall|i: int| 0 <= i < cell@.len() ==> has_level(#[trigger] cell@[i] as u64),
        ensures
            rows@.len() == cell@.len(),
            forall|i: int|
                0 <= i < cell@.len() ==> #[trigger] rows@[i] == level_of(cell@[i] as u64),
    {
        let mut rows: Vec<i32> = Vec::new();
        for i in 0..cell.len()
            invariant
                forall|k: int| 0 <= k < cell@.len() ==> has_level(#[trigger] cell@[k] as u64),
                rows@.len() == i,
                forall|k: int| 0 <= k < i ==> #[trigger] rows@[k] == level_of(cell@[k] as u64),
        {
            rows.push(s2_cell_level_impl(cell[i]));
        }
        rows
    }

    /// The argument types and the result type.
    pub fn signatures() -> (signatures: Vec<Signature>)
        ensures
            only_signature(signatures@, seq![ColumnType::Int64], ColumnType::Int32),
    {
        exact(vec![ColumnType::Int64], ColumnType::Int32)
    }
}

/// `s2_to_geo(cell)`: the centre of a cell as a point in well-known text.
pub struct S2ToGeo;

impl S2ToGeo {
    /// The centre of each cell.
    pub fn invoke(cell: &[i64]) -> (rows: Vec<String>)
        requires
            forall|i: int| 0 <= i < cell@.len() ==> has_center(#[trigger] cell@[i] as u64),
        ensures
            rows@.len() == cell@.len(),
            forall|i: int|
                0 <= i < cell@.len() ==> is_center_text(cell@[i] as u64, #[trigger] rows@[i]@),
    {
        let mut rows: Vec<String> = Vec::new();
        for i in 0..cell.len()
            invariant
                forall|k: int| 0 <= k < cell@.len() ==> has_center(#[trigger] cell@[k] as u64),
                rows@.len() == i,
                forall|k: int| 0 <= k < i ==> is_center_text(cell@[k] as u64, #[trigger] rows@[k]@),
        {
            rows.push(s2_to_geo_impl(cell[i]));
        }
        rows
    }

    /// The centre of each cell, if all of them have one.
    pub fn invoke_defined(cell: &[i64]) -> (rows: Option<Vec<String>>)
        ensures
            rows is Some <==> forall|i: int|
                0 <= i < cell@.len() ==> has_center(#[trigger] cell@[i] as u64),
            rows matches Some(v) ==> v@.len() == cell@.len() && forall|i: int|
                0 <= i < cell@.len() ==> is_center_text(cell@[i] as u64, #[trigger] v@[i]@),
    {
        for i in 0..cell.len()
            invariant
                forall|k: int| 0 <= k < i ==> has_center(#[trigger] cell@[k] as u64),
        {
            if !check_center(cell[i] as u64) {
                assert(!has_center(cell@[i as int] as u64));
                return None;
            }
        }
        Some(S2ToGeo::invoke(cell))
    }

    /// The argument types and the result type.
    pub fn signatures() -> (signatures: Vec<Signature>)
        ensures
            only_signature(signatures@, seq![ColumnType::Int64], ColumnType::Utf8),
    {
        exact(vec![ColumnType::Int64], ColumnType::Utf8)
    }
}

/// `s2_cell_to_hex(cell)`: the token of a cell.
pub struct S2CellToHex;

impl S2CellToHex {
    /// The token of each cell.
    pub fn invoke(cell: &[i64]) -> (rows: Vec<String>)
        ensures
            rows@.len() == cell@.len(),
            forall|i: int|
                0 <= i < cell@.len() ==> (#[trigger] rows@[i])@ == token(cell@[i] as u64),
    {
        let mut rows: Vec<String> = Vec::new();
        for i in 0..cell.len()
            invariant
                rows@.len() == i,
                forall|k: int| 0 <= k < i ==> (#[trigger] rows@[k])@ == token(cell@[k] as u64),
        {
            rows.push(s2_cell_to_hex_impl(cell[i]));
        }
        rows
    }

    /// The argument types and the result type.
    pub fn signatures() -> (signatures: Vec<Signature>)
        ensures
            only_signature(signatures@, seq![ColumnType::Int64], ColumnType::Utf8),
    {
        exact(vec![ColumnType::Int64], ColumnType::Utf8)
    }
}

/// `s2_hex_to_cell(token)`: the cell of a token, 0 for what is no token.
pub struct S2HexToCell;

impl S2HexToCell {
    /// The cell of each token.
    pub fn invoke(hex: &[String]) -> (rows: Vec<i64>)
        ensures
            rows@.len() == hex@.len(),
            forall|i: int|
                0 <= i < hex@.len() ==> #[trigger] rows@[i] == token_value(hex@[i]@) as i64,
    {
        let mut rows: Vec<i64> = Vec::new();
        for i in 0..hex.len()
            invariant
                rows@.len() == i,
                forall|k: int| 0 <= k < i ==> #[trigger] rows@[k] == token_value(hex@[k]@) as i64,
        {
            rows.push(s2_hex_to_cell_impl(hex[i].as_str()).unwrap_or(0));
        }
        rows
    }

    /// The argument types and the result type.
    pub fn signatures() -> (signatures: Vec<Signature>)
        ensures
            only_signature(signatures@, seq![ColumnType::Utf8], ColumnType::Int64),
    {
        exact(vec![ColumnType::Utf8], ColumnType::Int64)
    }
}

/// What `s2_cell_vertex` gives for a row: the vertex, or nothing where there is none.
pub open spec fn is_vertex_row(cell: i64, k: i32, text: Seq<char>) -> bool {
    if 0 <= k < 4 {
        is_vertex_text(cell as u64, k as int, text)
    } else {
        text.len() == 0
    }
}

/// The text of a vertex, or an empty text where there is none.
fn vertex_row(vertex: Option<String>) -> (text: String)
    ensures
        text@ == match vertex {
            Some(t) => t@,
            None => Seq::empty(),
        },
{
    match vertex {
        Some(t) => t,
        None => String::new(),
    }
}

/// `s2_cell_vertex(cell, k)`: vertex `k` of a cell as a point in well-known text, empty for a `k`
/// that is not from 0 to 3.
pub struct S2CellVertex;

impl S2CellVertex {
    /// The vertex of each cell.
    pub fn invoke(cell: &[i64], vertex: &[i32]) -> (rows: Vec<String>)
        requires
            cell@.len() == vertex@.len(),
            forall|i: int| 0 <= i < cell@.len() ==> has_place(#[trigger] cell@[i] as u64),
        ensures
            rows@.len() == cell@.len(),
            forall|i: int|
                0 <= i < cell@.len() ==> is_vertex_row(cell@[i], vertex@[i], #[trigger] rows@[i]@),
    {
        let mut rows: Vec<String> = Vec::new();
        for i in 0..cell.len()
            invariant
                cell@.len() == vertex@.len(),
                forall|k: int| 0 <= k < cell@.len() ==> has_place(#[trigger] cell@[k] as u64),
                rows@.len() == i,
                forall|k: int|
                    0 <= k < i ==> is_vertex_row(cell@[k], vertex@[k], #[trigger] rows@[k]@),
        {
            rows.push(vertex_row(s2_cell_vertex_impl(cell[i], vertex[i])));
        }
        rows
    }

    /// The argument types and the result type.
    pub fn signatures() -> (signatures: Vec<Signature>)
        ensures
            only_signature(
                signatures@,
                seq![ColumnType::Int64, ColumnType::Int32],
                ColumnType::Utf8,
            ),
    {
        exact(vec![ColumnType::Int64, ColumnType::Int32], ColumnType::Utf8)
    }
}

/// `s2_cell_id_from_point(wkt)`: the leaf cell of a point in well-known text, 0 for any other
/// text.
pub struct S2CellIdFromPoint;

impl S2CellIdFromPoint {
    /// The cell of each point.
    pub fn invoke(wkt: &[String]) -> (rows: Vec<i64>)
        ensures
            rows@.len() == wkt@.len(),
            forall|i: int| 0 <= i < wkt@.len() ==> is_cell_of_point(wkt@[i]@, #[trigger] rows@[i]),
            forall|i: int|
                0 <= i < wkt@.len() && is_degree_point((#[trigger] wkt@[i])@) ==> reads_as_point(
                    wkt@[i]@,
                ),
    {
        let mut rows: Vec<i64> = Vec::new();
        for i in 0..wkt.len()
            invariant
                rows@.len() == i,
                forall|k: int| 0 <= k < i ==> is_cell_of_point(wkt@[k]@, #[trigger] rows@[k]),
                forall|k: int|
                    0 <= k < i && is_degree_point((#[trigger] wkt@[k])@) ==> reads_as_point(
                        wkt@[k]@,
                    ),
        {
            rows.push(s2_cell_id_from_point_impl(wkt[i].as_str()));
        }
        rows
    }

    /// The argument types and the result type.
    pub fn signatures() -> (signatures: Vec<Signature>)
        ensures
            only_signature(signatures@, seq![ColumnType::Utf8], ColumnType::Int64),
    {
        exact(vec![ColumnType::Utf8], ColumnType::Int64)
    }
}

/// `s2_cell_id(lat, lon, level)`: the cell of a level that a position lies in.
pub struct S2CellId;

impl S2CellId {
    /// The cell of each row's level, from the leaf cell of the row's position.
    pub fn invoke(leaf: &[u64], level: &[i64]) -> (rows: Vec<i64>)
        requires
            leaf@.len() == level@.len(),
            forall|i: int| 0 <= i < leaf@.len() ==> 0 <= #[trigger] level@[i] <= 30,
        ensures
            rows@.len() == leaf@.len(),
            forall|i: int|
                0 <= i < leaf@.len() ==> #[trigger] rows@[i] == ancestor_at(
                    leaf@[i],
                    level@[i] as int,
                ) as i64,
    {
        let mut rows: Vec<i64> = Vec::new();
        for i in 0..leaf.len()
            invariant
                leaf@.len() == level@.len(),
                forall|k: int| 0 <= k < leaf@.len() ==> 0 <= #[trigger] level@[k] <= 30,
                rows@.len() == i,
                forall|k: int|
                    0 <= k < i ==> #[trigger] rows@[k] == ancestor_at(
                        leaf@[k],
                        level@[k] as int,
                    ) as i64,
        {
            rows.push(s2_cell_id_impl(leaf[i], level[i]));
        }
        rows
    }

    /// The argument types and the result type.
    pub fn signatures() -> (signatures: Vec<Signature>)
        ensures
            only_signature(
                signatures@,
                seq![ColumnType::Float64, ColumnType::Float64, ColumnType::Int64],
                ColumnType::Int64,
            ),
    {
        exact(vec![ColumnType::Float64, ColumnType::Float64, ColumnType::Int64], ColumnType::Int64)
    }
}

/// `s2_contains(cell, lat, lon)`: whether a cell contains a position.
pub struct S2Contains;

impl S2Contains {
    /// The argument types and the result type.
    pub fn signatures() -> (signatures: Vec<Signature>)
        ensures
            only_signature(
                signatures@,
                seq![ColumnType::Int64, ColumnType::Float64, ColumnType::Float64],
                ColumnType::Boolean,
            ),
    {
        exact(
            vec![ColumnType::Int64, ColumnType::Float64, ColumnType::Float64],
            ColumnType::Boolean,
        )
    }
}

/// `s2_distance_meters(cell, cell)`: the distance between the centres of two cells in metres.
pub struct S2Distance;

impl S2Distance {
    /// The argument types and the result type.
    pub fn signatures() -> (signatures: Vec<Signature>)
        ensures
            only_signature(
                signatures@,
                seq![ColumnType::Int64, ColumnType::Int64],
                ColumnType::Float64,
            ),
    {
        exact(vec![ColumnType::Int64, ColumnType::Int64], ColumnType::Float64)
    }
}

/// `s2_area_m2(cell, level)`: the area of a cell's ancestor at a level in square metres.
pub struct S2Area;

impl S2Area {
    /// The argument types and the result type.
    pub fn signatures() -> (signatures: Vec<Signature>)
        ensures
            only_signature(
                signatures@,
                seq![ColumnType::Int64, ColumnType::Int32],
                ColumnType::Float64,
            ),
    {
        exact(vec![ColumnType::Int64, ColumnType::Int32], ColumnType::Float64)
    }
}

/// `s2_parent(cell, level)`: the ancestor of a cell at a level.
pub struct S2Parent;

impl S2Parent {
    /// The ancestor of each cell.
    pub fn invoke(cell: &[i64], level: &[i64]) -> (rows: Vec<i64>)
        requires
            cell@.len() == level@.len(),
            forall|i: int| 0 <= i < cell@.len() ==> 0 <= #[trigger] level@[i] <= 30,
        ensures
            rows@.len() == cell@.len(),
            forall|i: int|
                0 <= i < cell@.len() ==> #[trigger] rows@[i] == ancestor_at(
                    cell@[i] as u64,
                    level@[i] as int,
                ) as i64,
    {
        let mut rows: Vec<i64> = Vec::new();
        for i in 0..cell.len()
            invariant
                cell@.len() == level@.len(),
                forall|k: int| 0 <= k < cell@.len() ==> 0 <= #[trigger] level@[k] <= 30,
                rows@.len() == i,
                forall|k: int|
                    0 <= k < i ==> #[trigger] rows@[k] == ancestor_at(
                        cell@[k] as u64,
                        level@[k] as int,
                    ) as i64,
        {
            rows.push(s2_parent_impl(cell[i], level[i]));
        }
        rows
    }

    /// The argument types and the result type.
    pub fn signatures() -> (signatures: Vec<Signature>)
        ensures
            only_signature(
                signatures@,
                seq![ColumnType::Int64, ColumnType::Int64],
                ColumnType::Int64,
            ),
    {
        exact(vec![ColumnType::Int64, ColumnType::Int64], ColumnType::Int64)
    }
}

/// A row of `s2_cell_vertex` is the point of just the vertex that was asked for, with the longitude
/// before the latitude, and empty where there is no such vertex.
pub proof fn law_vertex_row(cell: i64, k: i32, text: Seq<char>)
    requires
        is_vertex_row(cell, k, text),
    ensures
        text.len() == 0 <==> k < 0 || k > 3,
        k == 0 || k == 1 || k == 2 || k == 3 ==> exists|lng: Seq<char>, lat: Seq<char>| #[trigger]
            vertex_may_print(cell as u64, k as int, lng, lat) && text == seq![
                'P',
                'O',
                'I',
                'N',
                'T',
                '(',
            ] + lng + seq![' '] + lat + seq![')'],
{
    if 0 <= k < 4 {
        law_vertex_text(cell as u64, k as int, text);
    }
}

} // verus!
