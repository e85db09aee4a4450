//! The S2 functions on single values.
use crate::cell::{
    ancestor_at, cell_level, cell_parent, has_center, has_level, has_place, is_valid_cell,
    law_parent_has_level, law_parent_of_parent, law_zero_is_no_cell, lemma_signed_and_back,
    lemma_unsigned_and_back, level_of,
};
use crate::token::{cell_from_token, cell_to_token, law_token_round_trip, token, token_value};
use s2::cell::Cell;
use s2::cellid::CellID;
use s2::latlng::LatLng;
use s2::point::Point;
use vstd::prelude::*;

verus! {

/// Whether a character is a decimal digit.
pub open spec fn is_digit(c: char) -> bool {
    '0' <= c <= '9'
}

/// Whether a text is a number of degrees: an optional minus sign, one to three digits, a point
/// and seven digits.
pub open spec fn is_degrees(s: Seq<char>) -> bool {
    let digits = if s.len() > 0 && s[0] == '-' {
        s.skip(1)
    } else {
        s
    };
    &&& 9 <= digits.len() <= 11
    &&& digits[digits.len() - 8] == '.'
    &&& forall|i: int|
        0 <= i < digits.len() && i != digits.len() - 8 ==> is_digit(#[trigger] digits[i])
}

/// A point as well-known text.
pub open spec fn point_wkt(x: Seq<char>, y: Seq<char>) -> Seq<char> {
    "POINT("@ + x + " "@ + y + ")"@
}

/// Whether the centre of a cell may be printed so, longitude and latitude: the last digit is up
/// to the trigonometric functions of the machine.
pub uninterp spec fn center_may_print(id: u64, lng: Seq<char>, lat: Seq<char>) -> bool;

/// Whether a vertex of a cell may be printed so, longitude and latitude: the last digit is up
/// to the trigonometric functions of the machine.
pub uninterp spec fn vertex_may_print(id: u64, k: int, lng: Seq<char>, lat: Seq<char>) -> bool;

/// Whether a text is the well-known text of a point, so that the `wkt` crate reads it as one.
pub uninterp spec fn reads_as_point(text: Seq<char>) -> bool;

/// Whether the point of a well-known text may fall into this leaf cell: at a cell's edge that
/// is up to the trigonometric functions of the machine.
pub uninterp spec fn point_may_fall_in(text: Seq<char>, leaf: u64) -> bool;

/// Calls `Cell::center` of the `s2` crate, turns the point into a `LatLng` and prints the
/// degrees of its longitude and latitude with seven decimals. The centre of some identifiers that
/// are no valid cells overflows there. How the last digit is rounded is left open.
#[verifier::external_body]
pub(crate) fn center_text(id: u64) -> (printed: (String, String))
    requires
        has_center(id),
    ensures
        center_may_print(id, printed.0@, printed.1@),
        is_degrees(printed.0@),
        is_degrees(printed.1@),
{
    let center: LatLng = Cell::from(CellID(id)).center().into();
    (format!("{:.7}", center.lng.deg()), format!("{:.7}", center.lat.deg()))
}

/// Calls `Cell::vertex` of the `s2` crate, turns the point into a `LatLng` and prints the
/// degrees of its longitude and latitude with seven decimals. A cell without a face or a level
/// is refused there. How the last digit is rounded is left open.
#[verifier::external_body]
pub(crate) fn vertex_text(id: u64, k: usize) -> (printed: (String, String))
    requires
        has_place(id),
        k < 4,
    ensures
        vertex_may_print(id, k as int, printed.0@, printed.1@),
        is_degrees(printed.0@),
        is_degrees(printed.1@),
{
    let vertex: LatLng = Cell::from(CellID(id)).vertex(k).into();
    (format!("{:.7}", vertex.lng.deg()), format!("{:.7}", vertex.lat.deg()))
}

/// Whether a text is a point whose coordinates are numbers of degrees.
pub open spec fn is_degree_point(text: Seq<char>) -> bool {
    exists|x: Seq<char>, y: Seq<char>|
        is_degrees(x) && is_degrees(y) && text == #[trigger] point_wkt(x, y)
}

/// Calls `TryFromWkt::try_from_wkt_str` of the `wkt` crate, and for a point `CellID::from` of
/// the `s2` crate on its coordinates, x as the longitude and y as the latitude. Any other text
/// gives nothing; a point whose coordinates are numbers of degrees is always read. The cell is a
/// leaf cell on one of the six faces; which of two at an edge is left open.
#[verifier::external_body]
pub(crate) fn leaf_of_wkt_point(text: &str) -> (leaf: Option<u64>)
    ensures
        leaf is Some == reads_as_point(text@),
        is_degree_point(text@) ==> leaf is Some,
        leaf matches Some(id) ==> point_may_fall_in(text@, id),
        leaf matches Some(id) ==> is_valid_cell(id) && level_of(id) == 30,
{
    match <geo::Geometry as wkt::TryFromWkt<_>>::try_from_wkt_str(text) {
        Ok(geo::Geometry::Point(p)) => {
            Some(CellID::from(Point::from(LatLng::from_degrees(p.y(), p.x()))).0)
        },
        _ => None,
    }
}

/// Writes a point as well-known text.
pub fn point_text(x: &str, y: &str) -> (text: String)
    ensures
        text@ == point_wkt(x@, y@),
{
    let mut text: String = "POINT(".to_owned();
    text.append(x);
    text.append(" ");
    text.append(y);
    text.append(")");
    text
}

/// The cell of a level that a leaf cell lies in.
pub fn s2_cell_id_impl(leaf: u64, level: i64) -> (cell: i64)
    requires
        0 <= level <= 30,
    ensures
        cell == ancestor_at(leaf, level as int) as i64,
{
    cell_parent(leaf, level as u64) as i64
}

/// The ancestor of a cell at a level.
pub fn s2_parent_impl(cell_id: i64, level: i64) -> (parent: i64)
    requires
        0 <= level <= 30,
    ensures
        parent == ancestor_at(cell_id as u64, level as int) as i64,
{
    cell_parent(cell_id as u64, level as u64) as i64
}

/// A cell's ancestor has the level that was asked for.
pub proof fn law_level_of_parent(cell_id: i64, level: int)
    requires
        0 <= level <= 30,
    ensures
        has_level((ancestor_at(cell_id as u64, level) as i64) as u64),
        level_of((ancestor_at(cell_id as u64, level) as i64) as u64) == level,
{
    law_parent_has_level(cell_id as u64, level);
    lemma_signed_and_back(ancestor_at(cell_id as u64, level));
}

/// The ancestor, at a level, of the cell of a position at a deeper level is the cell of the
/// position at that level.
pub proof fn law_parent_of_cell(leaf: u64, near: int, far: int)
    requires
        0 <= far <= near <= 30,
    ensures
        ancestor_at((ancestor_at(leaf, near) as i64) as u64, far) as i64 == ancestor_at(
            leaf,
            far,
        ) as i64,
{
    lemma_signed_and_back(ancestor_at(leaf, near));
    law_parent_of_parent(leaf, near, far);
}

/// The level of a cell.
pub fn s2_cell_level_impl(cell_id: i64) -> (level: i32)
    requires
        has_level(cell_id as u64),
    ensures
        level == level_of(cell_id as u64),
{
    cell_level(cell_id as u64) as i32
}

/// The centre of a cell as well-known text.
pub fn s2_to_geo_impl(cell_id: i64) -> (text: String)
    requires
        has_center(cell_id as u64),
    ensures
        is_center_text(cell_id as u64, text@),
{
    let (lng, lat) = center_text(cell_id as u64);
    point_text(lng.as_str(), lat.as_str())
}

/// Whether a text is the point of a cell's centre.
pub open spec fn is_center_text(id: u64, text: Seq<char>) -> bool {
    exists|lng: Seq<char>, lat: Seq<char>|
        #[trigger] center_may_print(id, lng, lat) && is_degrees(lng) && is_degrees(lat) && text
            == point_wkt(lng, lat)
}

/// The printed centre of a cell is a point whose coordinates are numbers of degrees, so that it
/// is read as a point again.
pub proof fn law_center_is_a_point(id: u64, text: Seq<char>)
    requires
        is_center_text(id, text),
    ensures
        is_degree_point(text),
{
    let (lng, lat) = choose|lng: Seq<char>, lat: Seq<char>|
        #[trigger] center_may_print(id, lng, lat) && is_degrees(lng) && is_degrees(lat) && text
            == point_wkt(lng, lat);
    assert(text == point_wkt(lng, lat));
}

/// The printed vertex of a cell is a point whose coordinates are numbers of degrees, so that it
/// is read as a point again.
pub proof fn law_vertex_is_a_point(id: u64, k: int, text: Seq<char>)
    requires
        is_vertex_text(id, k, text),
    ensures
        is_degree_point(text),
{
    let (lng, lat) = choose|lng: Seq<char>, lat: Seq<char>|
        #[trigger] vertex_may_print(id, k, lng, lat) && is_degrees(lng) && is_degrees(lat) && text
            == point_wkt(lng, lat);
    assert(text == point_wkt(lng, lat));
}

/// The token of a cell.
pub fn s2_cell_to_hex_impl(cell_id: i64) -> (hex: String)
    ensures
        hex@ == token(cell_id as u64),
{
    cell_to_token(cell_id as u64)
}

/// The cell of a token: there is always one, 0 for what is no token.
pub fn s2_hex_to_cell_impl(hex: &str) -> (cell: Option<i64>)
    ensures
        cell == Some(token_value(hex@) as i64),
{
    Some(cell_from_token(hex) as i64)
}

/// The token of a cell is read back as that cell.
pub proof fn law_hex_round_trip(cell_id: i64)
    ensures
        token_value(token(cell_id as u64)) as i64 == cell_id,
{
    law_token_round_trip(cell_id as u64);
    lemma_unsigned_and_back(cell_id);
}

/// Whether a text is the point of a cell's vertex.
pub open spec fn is_vertex_text(id: u64, k: int, text: Seq<char>) -> bool {
    exists|lng: Seq<char>, lat: Seq<char>|
        #[trigger] vertex_may_print(id, k, lng, lat) && is_degrees(lng) && is_degrees(lat) && text
            == point_wkt(lng, lat)
}

/// Vertex `k` of a cell as well-known text, for `k` from 0 to 3.
pub fn s2_cell_vertex_impl(cell_id: i64, k: i32) -> (text: Option<String>)
    requires
        has_place(cell_id as u64),
    ensures
        text is Some == (0 <= k < 4),
        text matches Some(t) ==> is_vertex_text(cell_id as u64, k as int, t@),
{
    if k < 0 || k >= 4 {
        return None;
    }
    let (lng, lat) = vertex_text(cell_id as u64, k as usize);
    Some(point_text(lng.as_str(), lat.as_str()))
}

/// The leaf cell of a point in well-known text, and 0 for any other text.
pub fn s2_cell_id_from_point_impl(wkt_str: &str) -> (cell: i64)
    ensures
        is_cell_of_point(wkt_str@, cell),
        is_degree_point(wkt_str@) ==> reads_as_point(wkt_str@),
{
    point_cell(leaf_of_wkt_point(wkt_str))
}

/// The cell of a point that was looked for: 0 where there was none.
pub fn point_cell(leaf: Option<u64>) -> (cell: i64)
    ensures
        cell == match leaf {
            Some(id) => id as i64,
            None => 0,
        },
{
    match leaf {
        Some(id) => id as i64,
        None => 0,
    }
}

/// Whether this is the leaf cell of a point in well-known text, or 0 where the text is none.
pub open spec fn is_cell_of_point(text: Seq<char>, cell: i64) -> bool {
    if reads_as_point(text) {
        exists|leaf: u64| #[trigger]
            point_may_fall_in(text, leaf) && is_valid_cell(leaf) && level_of(leaf) == 30 && cell
                == leaf as i64
    } else {
        cell == 0
    }
}

/// The well-known text of a point: the word, an opening bracket, x, a blank, y and a closing
/// bracket.
pub proof fn law_point_text(x: Seq<char>, y: Seq<char>)
    ensures
        point_wkt(x, y) == seq!['P', 'O', 'I', 'N', 'T', '('] + x + seq![' '] + y + seq![')'],
{
    reveal_strlit("POINT(");
    reveal_strlit(" ");
    reveal_strlit(")");
    assert("POINT("@ == seq!['P', 'O', 'I', 'N', 'T', '(']);
    assert(" "@ == seq![' ']);
    assert(")"@ == seq![')']);
}

/// The text of a cell's centre is a point with the longitude before the latitude.
pub proof fn law_center_text(id: u64, text: Seq<char>)
    requires
        is_center_text(id, text),
    ensures
        exists|lng: Seq<char>, lat: Seq<char>| #[trigger]
            center_may_print(id, lng, lat) && is_degrees(lng) && is_degrees(lat) && text == seq![
                'P',
                'O',
                'I',
                'N',
                'T',
                '(',
            ] + lng + seq![' '] + lat + seq![')'],
{
    let (lng, lat) = choose|lng: Seq<char>, lat: Seq<char>|
        #[trigger] center_may_print(id, lng, lat) && is_degrees(lng) && is_degrees(lat) && text
            == point_wkt(lng, lat);
    law_point_text(lng, lat);
    assert(center_may_print(id, lng, lat));
}

/// The text of a cell's vertex is a point with the longitude before the latitude.
pub proof fn law_vertex_text(id: u64, k: int, text: Seq<char>)
    requires
        is_vertex_text(id, k, text),
    ensures
        exists|lng: Seq<char>, lat: Seq<char>| #[trigger]
            vertex_may_print(id, k, lng, lat) && is_degrees(lng) && is_degrees(lat) && text == seq![
                'P',
                'O',
                'I',
                'N',
                'T',
                '(',
            ] + lng + seq![' '] + lat + seq![')'],
{
    let (lng, lat) = choose|lng: Seq<char>, lat: Seq<char>|
        #[trigger] vertex_may_print(id, k, lng, lat) && is_degrees(lng) && is_degrees(lat) && text
            == point_wkt(lng, lat);
    law_point_text(lng, lat);
    assert(vertex_may_print(id, k, lng, lat));
}

/// The cell of a point is a leaf cell that the point may fall into, a valid cell of level 30; only
/// the cell of a text that is no point is 0.
pub proof fn law_cell_of_point(text: Seq<char>, cell: i64)
    requires
        is_cell_of_point(text, cell),
    ensures
        cell == 0 <==> !reads_as_point(text),
        reads_as_point(text) ==> point_may_fall_in(text, cell as u64) && is_valid_cell(cell as u64)
            && level_of(cell as u64) == 30,
{
    if reads_as_point(text) {
        let leaf = choose|leaf: u64| #[trigger]
            point_may_fall_in(text, leaf) && is_valid_cell(leaf) && level_of(leaf) == 30 && cell
                == leaf as i64;
        lemma_signed_and_back(leaf);
        law_zero_is_no_cell();
    }
}

} // verus!
