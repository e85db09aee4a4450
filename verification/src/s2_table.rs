//! The S2 table functions.
use crate::cell::{
    ancestor_at, cell_descendants, cell_edge_neighbors, descendants, has_descendants, has_place,
    is_valid_cell, law_descendant_count, law_descendants, lemma_descendant, lemma_level_bit,
    lemma_signed_and_back, lemma_unsigned_and_back, lemma_valid_cell, level_bit, level_of,
    neighbors_across_edges,
};
use crate::columns::{column, column_names, column_types, Column, ColumnType};
use crate::union_query::is_disjoint_union;
use s2::region::RegionCoverer;
use vstd::arithmetic::power2::pow2;
use vstd::prelude::*;

verus! {

/// Cell identifiers as signed numbers.
pub open spec fn as_signed(ids: Seq<u64>) -> Seq<i64> {
    ids.map_values(|id: u64| id as i64)
}

/// Turns cell identifiers into signed numbers.
fn signed(ids: Vec<u64>) -> (cells: Vec<i64>)
    ensures
        cells@ == as_signed(ids@),
{
    let mut cells: Vec<i64> = Vec::new();
    for i in 0..ids.len()
        invariant
            cells@ == as_signed(ids@.take(i as int)),
    {
        cells.push(ids[i] as i64);
        assert(ids@.take(i + 1) == ids@.take(i as int).push(ids@[i as int]));
        assert(cells@ == as_signed(ids@.take(i + 1)));
    }
    assert(ids@.take(ids@.len() as int) == ids@);
    cells
}

/// The rows of a table that has not been read yet, and none from then on.
fn rows_once(done: &mut bool, rows: &Vec<i64>) -> (chunk: Vec<i64>)
    ensures
        *final(done),
        chunk@ == if *old(done) {
            Seq::empty()
        } else {
            rows@
        },
{
    let mut chunk: Vec<i64> = Vec::new();
    if !*done {
        chunk.extend_from_slice(rows.as_slice());
        assert(chunk@ == rows@);
    }
    *done = true;
    chunk
}

/// The least level that is asked of the coverer: negative levels count as 0, and the number is
/// cut to eight bits.
pub open spec fn least_level(min_level: i32) -> u8 {
    (if min_level > 0 {
        min_level
    } else {
        0
    }) as u8
}

/// The greatest level that is asked of the coverer: levels beyond 30 count as 30, and the
/// number is cut to eight bits.
pub open spec fn greatest_level(max_level: i32) -> u8 {
    (if max_level < 30 {
        max_level
    } else {
        30
    }) as u8
}

/// Whether the levels that are asked of the coverer are levels: beyond them it would go on
/// dividing leaf cells.
pub open spec fn are_levels(min_level: i32, max_level: i32) -> bool {
    least_level(min_level) <= 30 && greatest_level(max_level) <= 30
}

/// Tests whether the levels that are asked of the coverer are levels.
pub fn levels_fit(min_level: i32, max_level: i32) -> (fit: bool)
    ensures
        fit == are_levels(min_level, max_level),
{
    least(min_level) <= 30 && greatest(max_level) <= 30
}

/// The least level that is asked of the coverer.
fn least(min_level: i32) -> (level: u8)
    ensures
        level == least_level(min_level),
{
    (if min_level > 0 {
        min_level
    } else {
        0
    }) as u8
}

/// The greatest level that is asked of the coverer.
fn greatest(max_level: i32) -> (level: u8)
    ensures
        level == greatest_level(max_level),
{
    (if max_level < 30 {
        max_level
    } else {
        30
    }) as u8
}

/// Whether cells can be what a coverer returns: valid, sorted, without overlap, none above the
/// least level, and none below both levels.
pub open spec fn is_cover(ids: Seq<u64>, min_level: u8, max_level: u8) -> bool {
    &&& is_disjoint_union(ids)
    &&& forall|i: int| 0 <= i < ids.len() ==> is_valid_cell(#[trigger] ids[i])
    &&& forall|i: int|
        0 <= i < ids.len() ==> min_level <= #[trigger] level_of(ids[i]) && (level_of(ids[i])
            <= max_level || level_of(ids[i]) <= min_level)
}

/// Whether a text is a geometry in well-known text with a bounding rectangle, as the `wkt` and
/// `geo` crates read it.
pub uninterp spec fn has_bounds(text: Seq<char>) -> bool;

/// Whether a coverer with these settings (least level, greatest level, step between levels,
/// number of cells) may cover the bounding rectangle of a well-known text with these cells. At
/// a cell's edge that is up to the trigonometric functions of the machine.
pub uninterp spec fn may_cover(
    text: Seq<char>,
    min_level: u8,
    max_level: u8,
    level_mod: u8,
    max_cells: int,
    ids: Seq<u64>,
) -> bool;

/// Whether a coverer with these settings may fill the bounding rectangle of a well-known text
/// with these cells.
pub uninterp spec fn may_fill(
    text: Seq<char>,
    min_level: u8,
    max_level: u8,
    level_mod: u8,
    max_cells: int,
    ids: Seq<u64>,
) -> bool;

/// Calls `TryFromWkt::try_from_wkt_str` of the `wkt` crate, `BoundingRect::bounding_rect` of the
/// `geo` crate, and `RegionCoverer::covering` of the `s2` crate on the rectangle, y as the
/// latitude and x as the longitude. There is nothing to cover in a text that is no geometry or
/// has no bounding rectangle. The crate normalizes the cells and then divides those above the
/// least level. Beyond level 30 it would not come to an end. Which cells they are is tied to the
/// arguments and otherwise left open.
#[verifier::external_body]
fn cover_bounds(text: &str, min_level: u8, max_level: u8, level_mod: u8, max_cells: usize) -> (ids:
    Option<Vec<u64>>)
    requires
        min_level <= 30,
        max_level <= 30,
        level_mod == 1,
    ensures
        ids is Some == has_bounds(text@),
        ids matches Some(v) ==> may_cover(
            text@,
            min_level,
            max_level,
            level_mod,
            max_cells as int,
            v@,
        ),
        ids matches Some(v) ==> is_cover(v@, min_level, max_level),
{
    let geometry = <geo::Geometry as wkt::TryFromWkt<_>>::try_from_wkt_str(text).ok()?;
    let bounds = geo::BoundingRect::bounding_rect(&geometry)?;
    let (low, high) = (bounds.min(), bounds.max());
    let rect = s2::rect::Rect::from_degrees(low.y, low.x, high.y, high.x);
    let coverer = RegionCoverer { min_level, max_level, level_mod, max_cells };
    Some(coverer.covering(&rect).0.iter().map(|c| c.0).collect())
}

/// Calls `TryFromWkt::try_from_wkt_str` of the `wkt` crate, `BoundingRect::bounding_rect` of the
/// `geo` crate, and `RegionCoverer::interior_covering` of the `s2` crate on the rectangle, y as
/// the latitude and x as the longitude. There is nothing to fill in a text that is no geometry
/// or has no bounding rectangle. The crate normalizes the cells and then divides those above the
/// least level. Beyond level 30 it would not come to an end. Which cells they are is tied to the
/// arguments and otherwise left open.
#[verifier::external_body]
fn fill_bounds(text: &str, min_level: u8, max_level: u8, level_mod: u8, max_cells: usize) -> (ids:
    Option<Vec<u64>>)
    requires
        min_level <= 30,
        max_level <= 30,
        level_mod == 1,
    ensures
        ids is Some == has_bounds(text@),
        ids matches Some(v) ==> may_fill(
            text@,
            min_level,
            max_level,
            level_mod,
            max_cells as int,
            v@,
        ),
        ids matches Some(v) ==> is_cover(v@, min_level, max_level),
{
    let geometry = <geo::Geometry as wkt::TryFromWkt<_>>::try_from_wkt_str(text).ok()?;
    let bounds = geo::BoundingRect::bounding_rect(&geometry)?;
    let (low, high) = (bounds.min(), bounds.max());
    let rect = s2::rect::Rect::from_degrees(low.y, low.x, high.y, high.x);
    let coverer = RegionCoverer { min_level, max_level, level_mod, max_cells };
    Some(coverer.interior_covering(&rect).0.iter().map(|c| c.0).collect())
}

/// Calls `TryFromWkt::try_from_wkt_str` of the `wkt` crate and `BoundingRect::bounding_rect` of the
/// `geo` crate, and says whether there is a bounding rectangle.
#[verifier::external_body]
fn find_bounds(text: &str) -> (found: bool)
    ensures
        found == has_bounds(text@),
{
    match <geo::Geometry as wkt::TryFromWkt<_>>::try_from_wkt_str(text) {
        Ok(geometry) => geo::BoundingRect::bounding_rect(&geometry).is_some(),
        Err(_) => false,
    }
}

/// Whether a covering is defined: the levels are levels, or there is nothing to cover.
pub open spec fn can_cover(text: Seq<char>, min_level: i32, max_level: i32) -> bool {
    are_levels(min_level, max_level) || !has_bounds(text)
}

/// Tests whether a covering is defined.
fn check_cover(text: &str, min_level: i32, max_level: i32) -> (ok: bool)
    ensures
        ok == can_cover(text@, min_level, max_level),
{
    levels_fit(min_level, max_level) || !find_bounds(text)
}

/// The rows for the cells that were found: none where there was nothing to look at.
pub fn found_cells(found: Option<Vec<u64>>) -> (cells: Vec<i64>)
    ensures
        cells@ == match found {
            Some(ids) => as_signed(ids@),
            None => Seq::empty(),
        },
{
    match found {
        Some(ids) => signed(ids),
        None => Vec::new(),
    }
}

/// The number of cells that a covering aims at.
pub const COVERING_CELLS: usize = 64;

/// Whether cells are the rows of a covering.
pub open spec fn is_covering(
    text: Seq<char>,
    min_level: i32,
    max_level: i32,
    cells: Seq<i64>,
) -> bool {
    if has_bounds(text) {
        exists|ids: Seq<u64>| #[trigger]
            may_cover(
                text,
                least_level(min_level),
                greatest_level(max_level),
                1,
                COVERING_CELLS as int,
                ids,
            ) && is_cover(ids, least_level(min_level), greatest_level(max_level)) && cells
                == as_signed(ids)
    } else {
        cells.len() == 0
    }
}

/// Covers the bounding rectangle of a geometry in well-known text with cells.
pub fn covering_from_wkt(wkt_str: &str, min_level: i32, max_level: i32) -> (cells: Vec<i64>)
    requires
        can_cover(wkt_str@, min_level, max_level),
    ensures
        is_covering(wkt_str@, min_level, max_level, cells@),
{
    if !levels_fit(min_level, max_level) {
        return Vec::new();
    }
    found_cells(cover_bounds(wkt_str, least(min_level), greatest(max_level), 1, COVERING_CELLS))
}

/// Whether cells are the rows of an interior covering.
pub open spec fn is_interior_covering(
    text: Seq<char>,
    min_level: i32,
    max_level: i32,
    max_cells: int,
    cells: Seq<i64>,
) -> bool {
    if has_bounds(text) {
        exists|ids: Seq<u64>| #[trigger]
            may_fill(
                text,
                least_level(min_level),
                greatest_level(max_level),
                1,
                max_cells,
                ids,
            ) && is_cover(ids, least_level(min_level), greatest_level(max_level)) && cells
                == as_signed(ids)
    } else {
        cells.len() == 0
    }
}

/// Fills the bounding rectangle of a geometry in well-known text with cells.
pub fn interior_covering_from_wkt(
    wkt_str: &str,
    min_level: i32,
    max_level: i32,
    max_cells: usize,
) -> (cells: Vec<i64>)
    requires
        can_cover(wkt_str@, min_level, max_level),
    ensures
        is_interior_covering(wkt_str@, min_level, max_level, max_cells as int, cells@),
{
    if !levels_fit(min_level, max_level) {
        return Vec::new();
    }
    found_cells(fill_bounds(wkt_str, least(min_level), greatest(max_level), 1, max_cells))
}

/// Signed numbers as cell identifiers.
pub open spec fn as_unsigned(cells: Seq<i64>) -> Seq<u64> {
    cells.map_values(|c: i64| c as u64)
}

/// Cell identifiers as signed numbers, and back.
proof fn lemma_signed_cells_and_back(ids: Seq<u64>)
    ensures
        as_unsigned(as_signed(ids)) == ids,
{
    assert forall|i: int| 0 <= i < ids.len() implies #[trigger] as_unsigned(as_signed(ids))[i]
        == ids[i] by {
        lemma_signed_and_back(ids[i]);
    }
    assert(as_unsigned(as_signed(ids)) =~= ids);
}

/// The rows of a covering, taken as a union of cells, are sorted and without overlap.
pub proof fn law_covering_is_disjoint(
    text: Seq<char>,
    min_level: i32,
    max_level: i32,
    cells: Seq<i64>,
)
    requires
        is_covering(text, min_level, max_level, cells),
    ensures
        is_disjoint_union(as_unsigned(cells)),
{
    if has_bounds(text) {
        let ids = choose|ids: Seq<u64>| #[trigger]
            may_cover(
                text,
                least_level(min_level),
                greatest_level(max_level),
                1,
                COVERING_CELLS as int,
                ids,
            ) && is_cover(ids, least_level(min_level), greatest_level(max_level)) && cells
                == as_signed(ids);
        lemma_signed_cells_and_back(ids);
    }
}

/// The rows of an interior covering, taken as a union of cells, are sorted and without overlap.
pub proof fn law_interior_covering_is_disjoint(
    text: Seq<char>,
    min_level: i32,
    max_level: i32,
    max_cells: int,
    cells: Seq<i64>,
)
    requires
        is_interior_covering(text, min_level, max_level, max_cells, cells),
    ensures
        is_disjoint_union(as_unsigned(cells)),
{
    if has_bounds(text) {
        let ids = choose|ids: Seq<u64>| #[trigger]
            may_fill(
                text,
                least_level(min_level),
                greatest_level(max_level),
                1,
                max_cells,
                ids,
            ) && is_cover(ids, least_level(min_level), greatest_level(max_level)) && cells
                == as_signed(ids);
        lemma_signed_cells_and_back(ids);
    }
}

/// `s2_covering(wkt, min_level, max_level)`: cells that cover the bounding rectangle of a geometry.
pub struct S2CoveringVTab;

/// Whether the rows of `s2_covering` have been read.
pub struct S2CoveringInit {
    done: bool,
}

impl View for S2CoveringInit {
    type V = bool;

    closed spec fn view(&self) -> bool {
        self.done
    }
}

/// The rows of `s2_covering`.
pub struct S2CoveringBind {
    cells: Vec<i64>,
}

impl View for S2CoveringBind {
    type V = Seq<i64>;

    closed spec fn view(&self) -> Seq<i64> {
        self.cells@
    }
}

impl S2CoveringVTab {
    /// Covers the bounding rectangle.
    pub fn bind(wkt: &str, min_lvl: i32, max_lvl: i32) -> (bind: S2CoveringBind)
        requires
            can_cover(wkt@, min_lvl, max_lvl),
        ensures
            is_covering(wkt@, min_lvl, max_lvl, bind@),
    {
        S2CoveringBind { cells: covering_from_wkt(wkt, min_lvl, max_lvl) }
    }

    /// Covers the bounding rectangle, if a covering is defined.
    pub fn bind_defined(wkt: &str, min_lvl: i32, max_lvl: i32) -> (bind: Option<S2CoveringBind>)
        ensures
            bind is Some <==> can_cover(wkt@, min_lvl, max_lvl),
            bind matches Some(b) ==> is_covering(wkt@, min_lvl, max_lvl, b@),
    {
        if check_cover(wkt, min_lvl, max_lvl) {
            Some(S2CoveringVTab::bind(wkt, min_lvl, max_lvl))
        } else {
            None
        }
    }

    /// No row has been read.
    pub fn init() -> (init: S2CoveringInit)
        ensures
            !init@,
    {
        S2CoveringInit { done: false }
    }

    /// All rows the first time, and none from then on.
    pub fn func(init: &mut S2CoveringInit, bind: &S2CoveringBind) -> (rows: Vec<i64>)
        ensures
            final(init)@,
            rows@ == if old(init)@ {
                Seq::empty()
            } else {
                bind@
            },
    {
        rows_once(&mut init.done, &bind.cells)
    }

    /// The columns of the rows.
    pub fn columns() -> (columns: Vec<Column>)
        ensures
            column_names(columns@) =~= seq!["cell_id"@],
            column_types(columns@) =~= seq![ColumnType::Int64],
    {
        vec![column("cell_id", ColumnType::Int64)]
    }

    /// The types of the parameters.
    pub fn parameters() -> (types: Vec<ColumnType>)
        ensures
            types@ =~= seq![ColumnType::Utf8, ColumnType::Int32, ColumnType::Int32],
    {
        vec![ColumnType::Utf8, ColumnType::Int32, ColumnType::Int32]
    }
}

/// `s2_children(cell, level)`: the descendants of a cell at a level.
pub struct S2ChildrenVTab;

/// Whether the rows of `s2_children` have been read.
pub struct S2ChildrenInit {
    done: bool,
}

impl View for S2ChildrenInit {
    type V = bool;

    closed spec fn view(&self) -> bool {
        self.done
    }
}

/// The rows of `s2_children`.
pub struct S2ChildrenBind {
    children: Vec<i64>,
}

impl View for S2ChildrenBind {
    type V = Seq<i64>;

    closed spec fn view(&self) -> Seq<i64> {
        self.children@
    }
}

impl S2ChildrenVTab {
    /// Collects the descendants.
    pub fn bind(cell_id: i64, level: i32) -> (bind: S2ChildrenBind)
        requires
            has_descendants(cell_id as u64, level as int),
        ensures
            bind@ == as_signed(descendants(cell_id as u64, level as int)),
    {
        S2ChildrenBind { children: signed(cell_descendants(cell_id as u64, level as u64)) }
    }

    /// No row has been read.
    pub fn init() -> (init: S2ChildrenInit)
        ensures
            !init@,
    {
        S2ChildrenInit { done: false }
    }

    /// All rows the first time, and none from then on.
    pub fn func(init: &mut S2ChildrenInit, bind: &S2ChildrenBind) -> (rows: Vec<i64>)
        ensures
            final(init)@,
            rows@ == if old(init)@ {
                Seq::empty()
            } else {
                bind@
            },
    {
        rows_once(&mut init.done, &bind.children)
    }

    /// The columns of the rows.
    pub fn columns() -> (columns: Vec<Column>)
        ensures
            column_names(columns@) =~= seq!["child_id"@],
            column_types(columns@) =~= seq![ColumnType::Int64],
    {
        vec![column("child_id", ColumnType::Int64)]
    }

    /// The types of the parameters.
    pub fn parameters() -> (types: Vec<ColumnType>)
        ensures
            types@ =~= seq![ColumnType::Int64, ColumnType::Int32],
    {
        vec![ColumnType::Int64, ColumnType::Int32]
    }
}

/// `s2_cell_neighbors(cell)`: the four cells across the edges of a cell.
pub struct S2NeighborsVTab;

/// Whether the rows of `s2_cell_neighbors` have been read.
pub struct S2NeighborsInit {
    done: bool,
}

impl View for S2NeighborsInit {
    type V = bool;

    closed spec fn view(&self) -> bool {
        self.done
    }
}

/// The rows of `s2_cell_neighbors`.
pub struct S2NeighborsBind {
    neighbors: Vec<i64>,
}

impl View for S2NeighborsBind {
    type V = Seq<i64>;

    closed spec fn view(&self) -> Seq<i64> {
        self.neighbors@
    }
}

impl S2NeighborsVTab {
    /// Collects the neighbors. They differ from each other and from the cell, and a valid cell is
    /// a neighbor of each of its neighbors.
    pub fn bind(cell_id: i64) -> (bind: S2NeighborsBind)
        requires
            has_place(cell_id as u64),
        ensures
            bind@ == as_signed(neighbors_across_edges(cell_id as u64)),
            bind@.len() == 4,
            forall|i: int|
                0 <= i < 4 ==> is_valid_cell(#[trigger] bind@[i] as u64) && level_of(
                    bind@[i] as u64,
                ) == level_of(cell_id as u64),
            forall|i: int, j: int| 0 <= i < j < 4 ==> bind@[i] != bind@[j],
            forall|i: int| 0 <= i < 4 ==> #[trigger] bind@[i] != cell_id,
            is_valid_cell(cell_id as u64) ==> forall|i: int|
                0 <= i < 4 ==> as_signed(
                    neighbors_across_edges(#[trigger] bind@[i] as u64),
                ).contains(cell_id),
    {
        let ids: Vec<u64> = cell_edge_neighbors(cell_id as u64);
        proof {
            lemma_unsigned_and_back(cell_id);
            assert forall|i: int| 0 <= i < 4 implies #[trigger] (as_signed(ids@)[i]) as u64
                == ids@[i] by {
                lemma_signed_and_back(ids@[i]);
            }
            if is_valid_cell(cell_id as u64) {
                assert forall|i: int| 0 <= i < 4 implies as_signed(
                    neighbors_across_edges(#[trigger] ids@[i]),
                ).contains(cell_id) by {
                    let back = neighbors_across_edges(ids@[i]);
                    let k = choose|k: int| 0 <= k < back.len() && back[k] == cell_id as u64;
                    assert(as_signed(back)[k] == cell_id);
                }
            }
        }
        S2NeighborsBind { neighbors: signed(ids) }
    }

    /// No row has been read.
    pub fn init() -> (init: S2NeighborsInit)
        ensures
            !init@,
    {
        S2NeighborsInit { done: false }
    }

    /// All rows the first time, and none from then on.
    pub fn func(init: &mut S2NeighborsInit, bind: &S2NeighborsBind) -> (rows: Vec<i64>)
        ensures
            final(init)@,
            rows@ == if old(init)@ {
                Seq::empty()
            } else {
                bind@
            },
    {
        rows_once(&mut init.done, &bind.neighbors)
    }

    /// The columns of the rows.
    pub fn columns() -> (columns: Vec<Column>)
        ensures
            column_names(columns@) =~= seq!["neighbor_id"@],
            column_types(columns@) =~= seq![ColumnType::Int64],
    {
        vec![column("neighbor_id", ColumnType::Int64)]
    }

    /// The types of the parameters.
    pub fn parameters() -> (types: Vec<ColumnType>)
        ensures
            types@ =~= seq![ColumnType::Int64],
    {
        vec![ColumnType::Int64]
    }
}

/// How many cells an interior covering may have: four or more.
pub open spec fn cells_allowed(max_cells: i32) -> int {
    if max_cells > 4 {
        max_cells as int
    } else {
        4
    }
}

/// How many cells an interior covering may have.
fn allowed(max_cells: i32) -> (n: usize)
    ensures
        n == cells_allowed(max_cells),
{
    if max_cells > 4 {
        max_cells as usize
    } else {
        4
    }
}

/// `s2_interior_covering(wkt, min_level, max_level, max_cells)`: cells inside the bounding
/// rectangle of a geometry.
pub struct S2InteriorCoveringVTab;

/// Whether the rows of `s2_interior_covering` have been read.
pub struct S2InteriorCoveringInit {
    done: bool,
}

impl View for S2InteriorCoveringInit {
    type V = bool;

    closed spec fn view(&self) -> bool {
        self.done
    }
}

/// The rows of `s2_interior_covering`.
pub struct S2InteriorCoveringBind {
    cells: Vec<i64>,
}

impl View for S2InteriorCoveringBind {
    type V = Seq<i64>;

    closed spec fn view(&self) -> Seq<i64> {
        self.cells@
    }
}

impl S2InteriorCoveringVTab {
    /// Fills the bounding rectangle with four cells or more.
    pub fn bind(wkt: &str, min_lvl: i32, max_lvl: i32, max_cells: i32) -> (bind:
        S2InteriorCoveringBind)
        requires
            can_cover(wkt@, min_lvl, max_lvl),
        ensures
            is_interior_covering(wkt@, min_lvl, max_lvl, cells_allowed(max_cells), bind@),
    {
        let n: usize = allowed(max_cells);
        S2InteriorCoveringBind { cells: interior_covering_from_wkt(wkt, min_lvl, max_lvl, n) }
    }

    /// Fills the bounding rectangle, if a covering is defined.
    pub fn bind_defined(wkt: &str, min_lvl: i32, max_lvl: i32, max_cells: i32) -> (bind: Option<
        S2InteriorCoveringBind,
    >)
        ensures
            bind is Some <==> can_cover(wkt@, min_lvl, max_lvl),
            bind matches Some(b) ==> is_interior_covering(
                wkt@,
                min_lvl,
                max_lvl,
                cells_allowed(max_cells),
                b@,
            ),
    {
        if check_cover(wkt, min_lvl, max_lvl) {
            Some(S2InteriorCoveringVTab::bind(wkt, min_lvl, max_lvl, max_cells))
        } else {
            None
        }
    }

    /// No row has been read.
    pub fn init() -> (init: S2InteriorCoveringInit)
        ensures
            !init@,
    {
        S2InteriorCoveringInit { done: false }
    }

    /// All rows the first time, and none from then on.
    pub fn func(init: &mut S2InteriorCoveringInit, bind: &S2InteriorCoveringBind) -> (rows: Vec<
        i64,
    >)
        ensures
            final(init)@,
            rows@ == if old(init)@ {
                Seq::empty()
            } else {
                bind@
            },
    {
        rows_once(&mut init.done, &bind.cells)
    }

    /// The columns of the rows.
    pub fn columns() -> (columns: Vec<Column>)
        ensures
            column_names(columns@) =~= seq!["cell_id"@],
            column_types(columns@) =~= seq![ColumnType::Int64],
    {
        vec![column("cell_id", ColumnType::Int64)]
    }

    /// The types of the parameters.
    pub fn parameters() -> (types: Vec<ColumnType>)
        ensures
            types@ =~= seq![
                ColumnType::Utf8,
                ColumnType::Int32,
                ColumnType::Int32,
                ColumnType::Int32,
            ],
    {
        vec![ColumnType::Utf8, ColumnType::Int32, ColumnType::Int32, ColumnType::Int32]
    }
}

/// The number of cells that is asked of the interior coverer is the greater of four and the number
/// that was passed.
pub proof fn law_cells_allowed(max_cells: i32)
    ensures
        cells_allowed(max_cells) >= 4,
        cells_allowed(max_cells) >= max_cells,
        cells_allowed(max_cells) == 4 || cells_allowed(max_cells) == max_cells,
        max_cells >= 4 ==> cells_allowed(max_cells) == max_cells,
{
}

/// The levels that are asked of the coverer: those that were passed, where they are levels;
/// negative least levels are 0, greatest levels beyond 30 are 30, and other numbers are cut to
/// eight bits.
pub proof fn law_levels(min_level: i32, max_level: i32)
    ensures
        0 <= min_level <= 255 ==> least_level(min_level) == min_level,
        min_level < 0 ==> least_level(min_level) == 0,
        min_level > 255 ==> least_level(min_level) == min_level as int % 256,
        0 <= max_level <= 30 ==> greatest_level(max_level) == max_level,
        max_level > 30 ==> greatest_level(max_level) == 30,
        max_level < 0 ==> greatest_level(max_level) == max_level as int % 256,
{
    assert(min_level > 255 ==> min_level as u8 == (min_level as u32) % 256 && (min_level as u32)
        == min_level) by (bit_vector);
    assert(max_level < 0 ==> max_level as u8 == (max_level as u32) % 256 && (max_level as u32)
        == max_level + 0x1_0000_0000) by (bit_vector);
}

/// A covering is defined for all levels from 0 to 30, for least levels below and greatest levels
/// above these, and for every text without a bounding rectangle.
pub proof fn law_can_cover(text: Seq<char>, min_level: i32, max_level: i32)
    ensures
        min_level <= 30 && max_level >= 0 ==> can_cover(text, min_level, max_level),
        !has_bounds(text) ==> can_cover(text, min_level, max_level),
        has_bounds(text) && 31 <= min_level <= 255 ==> !can_cover(text, min_level, max_level),
        has_bounds(text) && -225 <= max_level < 0 ==> !can_cover(text, min_level, max_level),
        has_bounds(text) ==> (can_cover(text, min_level, max_level) <==> (min_level <= 0
            || min_level as int % 256 <= 30) && (max_level >= 30 || max_level as int % 256 <= 30)),
{
    law_levels(min_level, max_level);
}

/// The rows of identifiers as signed numbers: as many, in the same order, each the same 64 bits.
pub proof fn law_signed_rows(ids: Seq<u64>, i: int)
    ensures
        as_signed(ids).len() == ids.len(),
        0 <= i < ids.len() ==> as_signed(ids)[i] as u64 == ids[i],
        0 <= i < ids.len() && ids[i] < 0x8000_0000_0000_0000 ==> as_signed(ids)[i] == ids[i],
        0 <= i < ids.len() && ids[i] >= 0x8000_0000_0000_0000 ==> as_signed(ids)[i] == ids[i]
            - 0x1_0000_0000_0000_0000,
        as_unsigned(as_signed(ids)) == ids,
{
    lemma_signed_cells_and_back(ids);
    if 0 <= i < ids.len() {
        let id: u64 = ids[i];
        lemma_signed_and_back(id);
        assert(id >= 0x8000_0000_0000_0000 ==> id as i64 == id - 0x1_0000_0000_0000_0000)
            by (bit_vector);
    }
}

/// What a covering asks of the coverer and hands out: the text, the two levels, each level between
/// them and 64 cells; and the cells that the coverer may find, in its order. Without a bounding
/// rectangle there are no rows.
pub proof fn law_covering(text: Seq<char>, min_level: i32, max_level: i32, cells: Seq<i64>)
    requires
        is_covering(text, min_level, max_level, cells),
    ensures
        !has_bounds(text) ==> cells.len() == 0,
        has_bounds(text) ==> {
            &&& may_cover(
                text,
                least_level(min_level),
                greatest_level(max_level),
                1,
                64,
                as_unsigned(cells),
            )
            &&& forall|i: int|
                0 <= i < cells.len() ==> is_valid_cell(#[trigger] cells[i] as u64)
        },
        has_bounds(text) && 0 <= min_level <= max_level <= 30 ==> forall|i: int|
            0 <= i < cells.len() ==> min_level <= level_of(#[trigger] cells[i] as u64) <= max_level,
{
    law_levels(min_level, max_level);
    if has_bounds(text) {
        let ids = choose|ids: Seq<u64>| #[trigger]
            may_cover(
                text,
                least_level(min_level),
                greatest_level(max_level),
                1,
                COVERING_CELLS as int,
                ids,
            ) && is_cover(ids, least_level(min_level), greatest_level(max_level)) && cells
                == as_signed(ids);
        lemma_signed_cells_and_back(ids);
        assert forall|i: int| 0 <= i < cells.len() implies #[trigger] cells[i] as u64 == ids[i] by {
            lemma_signed_and_back(ids[i]);
        }
    }
}

/// What an interior covering asks of the coverer and hands out: the text, the two levels, each
/// level between them and the number of cells that was passed, but no fewer than four; and the
/// cells that the coverer may find, in its order. Without a bounding rectangle there are no rows.
pub proof fn law_interior_covering(
    text: Seq<char>,
    min_level: i32,
    max_level: i32,
    max_cells: i32,
    cells: Seq<i64>,
)
    requires
        is_interior_covering(text, min_level, max_level, cells_allowed(max_cells), cells),
    ensures
        !has_bounds(text) ==> cells.len() == 0,
        has_bounds(text) && max_cells >= 4 ==> may_fill(
            text,
            least_level(min_level),
            greatest_level(max_level),
            1,
            max_cells as int,
            as_unsigned(cells),
        ),
        has_bounds(text) && max_cells < 4 ==> may_fill(
            text,
            least_level(min_level),
            greatest_level(max_level),
            1,
            4,
            as_unsigned(cells),
        ),
        has_bounds(text) && 0 <= min_level <= max_level <= 30 ==> forall|i: int|
            0 <= i < cells.len() ==> is_valid_cell(#[trigger] cells[i] as u64) && min_level
                <= level_of(cells[i] as u64) <= max_level,
{
    law_levels(min_level, max_level);
    if has_bounds(text) {
        let ids = choose|ids: Seq<u64>| #[trigger]
            may_fill(
                text,
                least_level(min_level),
                greatest_level(max_level),
                1,
                cells_allowed(max_cells),
                ids,
            ) && is_cover(ids, least_level(min_level), greatest_level(max_level)) && cells
                == as_signed(ids);
        lemma_signed_cells_and_back(ids);
        assert forall|i: int| 0 <= i < cells.len() implies #[trigger] cells[i] as u64 == ids[i] by {
            lemma_signed_and_back(ids[i]);
        }
    }
}

/// What a covering asks of the coverer for levels that are levels: just these.
pub proof fn law_covering_levels(
    text: Seq<char>,
    min_level: u8,
    max_level: u8,
    cells: Seq<i64>,
    max_cells: int,
    filling: Seq<i64>,
)
    requires
        min_level <= 30,
        max_level <= 30,
        has_bounds(text),
        is_covering(text, min_level as i32, max_level as i32, cells),
        is_interior_covering(text, min_level as i32, max_level as i32, max_cells, filling),
    ensures
        may_cover(text, min_level, max_level, 1, 64, as_unsigned(cells)),
        may_fill(text, min_level, max_level, 1, max_cells, as_unsigned(filling)),
{
    let (min, max) = (min_level as i32, max_level as i32);
    law_levels(min, max);
    law_covering(text, min, max, cells);
    let ids = choose|ids: Seq<u64>| #[trigger]
        may_fill(text, least_level(min), greatest_level(max), 1, max_cells, ids) && is_cover(
            ids,
            least_level(min),
            greatest_level(max),
        ) && filling == as_signed(ids);
    lemma_signed_cells_and_back(ids);
}

/// The rows of `s2_children` for a valid cell: four times as many with each level below the cell's
/// own, in increasing order of their identifiers, and each a cell of the level whose ancestor is
/// the cell.
pub proof fn law_children_rows(cell: i64, level: int, rows: Seq<i64>, i: int)
    requires
        is_valid_cell(cell as u64),
        level_of(cell as u64) <= level <= 30,
        rows == as_signed(descendants(cell as u64, level)),
        0 <= i < rows.len(),
    ensures
        rows.len() == pow2((2 * (level - level_of(cell as u64))) as nat),
        is_valid_cell(rows[i] as u64),
        level_of(rows[i] as u64) == level,
        ancestor_at(rows[i] as u64, level_of(cell as u64)) == cell as u64,
        i + 1 < rows.len() ==> (rows[i] as u64) < rows[i + 1] as u64,
{
    let ids = descendants(cell as u64, level);
    law_descendant_count(cell as u64, level);
    law_descendants(cell as u64, level, i);
    law_signed_rows(ids, i);
    if i + 1 < rows.len() {
        law_signed_rows(ids, i + 1);
        lemma_descendant(cell as u64, level, i);
        lemma_descendant(cell as u64, level, i + 1);
        lemma_valid_cell(cell as u64);
        lemma_level_bit(level);
        let b: int = level_bit(level) as int;
        assert(2 * b * (i + 1) == 2 * b * i + 2 * b) by (nonlinear_arith);
    }
}

} // verus!
