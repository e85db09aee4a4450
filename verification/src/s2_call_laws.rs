//! What calls of the S2 functions return for their arguments.
use crate::cell::{
    ancestor_at, check_center, check_descendants, check_level, check_place, check_valid, has_center,
    is_valid_cell, law_ancestor, law_center, law_lowest_bit, law_valid_cells_have_descendants,
    lemma_signed_and_back, level_of,
};
use crate::cell_union::{
    law_packed_bytes, law_union_of_tokens, law_unpack_of_pack, law_unpacked_cells, pack_cell_union,
    tokens_of, unpack_cell_union, unpacked, S2CellUnionContains, S2CellUnionIntersects,
    S2CellUnionPack,
};
use crate::s2_impl::{
    center_may_print, law_cell_of_point, law_center_text, law_hex_round_trip, law_point_text,
    law_vertex_text, point_cell, point_may_fall_in, point_text, reads_as_point,
    s2_cell_id_from_point_impl, s2_cell_id_impl, s2_cell_level_impl, s2_cell_to_hex_impl,
    s2_cell_vertex_impl, s2_hex_to_cell_impl, s2_parent_impl, s2_to_geo_impl, vertex_may_print,
};
use crate::s2_scalar::{
    law_vertex_row, S2CellId, S2CellIdFromPoint, S2CellLevel, S2CellToHex, S2CellVertex,
    S2HexToCell, S2Parent, S2ToGeo,
};
use crate::s2_table::{
    as_unsigned, found_cells, has_bounds, law_can_cover, law_children_rows, law_covering,
    law_interior_covering, law_levels, law_signed_rows, levels_fit, may_cover, may_fill,
    S2ChildrenBind, S2ChildrenInit, S2ChildrenVTab, S2CoveringBind, S2CoveringInit, S2CoveringVTab,
    S2InteriorCoveringBind, S2InteriorCoveringInit, S2InteriorCoveringVTab, S2NeighborsBind,
    S2NeighborsInit, S2NeighborsVTab,
};
use crate::text::join;
use crate::union_query::{law_union_covers, law_unions_overlap, union_covers};
use vstd::arithmetic::power::pow;
use vstd::arithmetic::power2::pow2;
use vstd::prelude::*;

verus! {

/// What the tests of an identifier say of an odd number times a power of two.
pub proof fn law_calling_checks(
    id: u64,
    half: int,
    at: int,
    leveled: bool,
    placed: bool,
    valid: bool,
    centered: bool,
)
    requires
        half >= 0,
        0 <= at < 64,
        id == (2 * half + 1) * pow2(at as nat),
        call_ensures(check_level, (id,), leveled),
        call_ensures(check_place, (id,), placed),
        call_ensures(check_valid, (id,), valid),
        call_ensures(check_center, (id,), centered),
    ensures
        leveled <==> at < 62,
        placed <==> at < 62 && id < 0xc000_0000_0000_0000,
        valid <==> at <= 60 && at % 2 == 0 && id < 0xc000_0000_0000_0000,
        valid ==> centered,
        centered ==> placed,
        placed && id % 2 == 1 ==> centered,
{
    law_lowest_bit(id, half, at);
    law_center(id);
}

/// The descendants of a valid cell can be counted off at each level from its own to 30.
pub proof fn law_calling_check_descendants(id: u64, level: i32, ok: bool)
    requires
        is_valid_cell(id),
        call_ensures(check_descendants, (id, level), ok),
    ensures
        ok <==> level_of(id) <= level <= 30,
{
    law_valid_cells_have_descendants(id, level as int);
}

/// The ancestor of a cell and the cell of a position, at a level: what of the identifier is a
/// multiple of twice the level's mark, and the mark.
pub proof fn law_calling_parent(cell: i64, level: i64, parent: i64, of_leaf: i64)
    requires
        0 <= level <= 30,
        call_ensures(s2_parent_impl, (cell, level), parent),
        call_ensures(s2_cell_id_impl, (cell as u64, level), of_leaf),
    ensures
        ({
            let mark = pow2((2 * (30 - level)) as nat) as int;
            parent as u64 == (cell as u64 as int / (2 * mark)) * (2 * mark) + mark
        }),
        of_leaf == parent,
{
    law_ancestor(cell as u64, level as int);
    lemma_signed_and_back(ancestor_at(cell as u64, level as int));
}

/// Rows of `s2_parent` and `s2_cell_id` are what the functions on single values give.
pub proof fn law_calling_parent_rows(
    cell: &[i64],
    leaf: &[u64],
    level: &[i64],
    parents: Vec<i64>,
    cells: Vec<i64>,
    i: int,
)
    requires
        call_ensures(S2Parent::invoke, (cell, level), parents),
        call_ensures(S2CellId::invoke, (leaf, level), cells),
        0 <= i < cell@.len(),
        cell@.len() == leaf@.len(),
        0 <= level@[i] <= 30,
    ensures
        parents@.len() == cell@.len() && cells@.len() == leaf@.len(),
        ({
            let mark = pow2((2 * (30 - level@[i])) as nat) as int;
            &&& parents@[i] as u64 == (cell@[i] as u64 as int / (2 * mark)) * (2 * mark) + mark
            &&& cells@[i] as u64 == (leaf@[i] as int / (2 * mark)) * (2 * mark) + mark
        }),
{
    law_ancestor(cell@[i] as u64, level@[i] as int);
    law_ancestor(leaf@[i], level@[i] as int);
    lemma_signed_and_back(ancestor_at(cell@[i] as u64, level@[i] as int));
    lemma_signed_and_back(ancestor_at(leaf@[i], level@[i] as int));
}

/// The level of a cell that is an odd number times a power of two: 30 for the first two powers, and
/// one less for each two further on.
pub proof fn law_calling_level(cell: &[i64], rows: Vec<i32>, level: i32, i: int, half: int, at: int)
    requires
        call_ensures(S2CellLevel::invoke, (cell,), rows),
        0 <= i < cell@.len(),
        call_ensures(s2_cell_level_impl, (cell@[i],), level),
        half >= 0,
        0 <= at < 62,
        cell@[i] as u64 == (2 * half + 1) * pow2(at as nat),
    ensures
        rows@.len() == cell@.len(),
        rows@[i] == 30 - at / 2,
        level == 30 - at / 2,
{
    law_lowest_bit(cell@[i] as u64, half, at);
}

/// The token of a cell is read as that cell, by the functions on single values and on rows.
pub proof fn law_calling_tokens(
    cell: &[i64],
    tokens: Vec<String>,
    hex: &[String],
    cells: Vec<i64>,
    text: String,
    read: &str,
    found: Option<i64>,
    i: int,
)
    requires
        call_ensures(S2CellToHex::invoke, (cell,), tokens),
        call_ensures(S2HexToCell::invoke, (hex,), cells),
        hex@ == tokens@,
        0 <= i < cell@.len(),
        call_ensures(s2_cell_to_hex_impl, (cell@[i],), text),
        call_ensures(s2_hex_to_cell_impl, (read,), found),
        read@ == text@,
    ensures
        cells@ == cell@,
        tokens@[i]@ == text@,
        found == Some(cell@[i]),
{
    assert forall|k: int| 0 <= k < cell@.len() implies cells@[k] == cell@[k] by {
        law_hex_round_trip(cell@[k]);
        assert(hex@[k]@ == tokens@[k]@);
    }
    law_hex_round_trip(cell@[i]);
}

/// The text of a point: x before y.
pub proof fn law_calling_point_text(x: &str, y: &str, text: String)
    requires
        call_ensures(point_text, (x, y), text),
    ensures
        text@ == seq!['P', 'O', 'I', 'N', 'T', '('] + x@ + seq![' '] + y@ + seq![')'],
{
    law_point_text(x@, y@);
}

/// The centre of a cell is printed with the longitude before the latitude, by the function on
/// single values and on rows; rows are given just where all cells have a centre.
pub proof fn law_calling_center(
    cell: &[i64],
    rows: Vec<String>,
    defined: Option<Vec<String>>,
    i: int,
    text: String,
)
    requires
        call_ensures(S2ToGeo::invoke, (cell,), rows),
        call_ensures(S2ToGeo::invoke_defined, (cell,), defined),
        0 <= i < cell@.len(),
        call_ensures(s2_to_geo_impl, (cell@[i],), text),
    ensures
        rows@.len() == cell@.len(),
        exists|lng: Seq<char>, lat: Seq<char>| #[trigger]
            center_may_print(cell@[i] as u64, lng, lat) && rows@[i]@ == seq![
                'P',
                'O',
                'I',
                'N',
                'T',
                '(',
            ] + lng + seq![' '] + lat + seq![')'],
        exists|lng: Seq<char>, lat: Seq<char>| #[trigger]
            center_may_print(cell@[i] as u64, lng, lat) && text@ == seq![
                'P',
                'O',
                'I',
                'N',
                'T',
                '(',
            ] + lng + seq![' '] + lat + seq![')'],
        (forall|k: int| 0 <= k < cell@.len() ==> is_valid_cell(#[trigger] cell@[k] as u64))
            ==> defined is Some,
        defined is Some ==> defined->0@.len() == cell@.len() && has_center(cell@[i] as u64),
{
    law_center_text(cell@[i] as u64, rows@[i]@);
    law_center_text(cell@[i] as u64, text@);
}

/// A vertex of a cell is printed with the longitude before the latitude for the numbers 0 to 3, and
/// there is no other; a row without a vertex is empty.
pub proof fn law_calling_vertex(
    cell: &[i64],
    vertex: &[i32],
    rows: Vec<String>,
    i: int,
    text: Option<String>,
)
    requires
        call_ensures(S2CellVertex::invoke, (cell, vertex), rows),
        0 <= i < cell@.len(),
        cell@.len() == vertex@.len(),
        call_ensures(s2_cell_vertex_impl, (cell@[i], vertex@[i]), text),
    ensures
        rows@.len() == cell@.len(),
        text is Some <==> vertex@[i] == 0 || vertex@[i] == 1 || vertex@[i] == 2 || vertex@[i] == 3,
        text is None ==> rows@[i]@.len() == 0,
        text is Some ==> exists|lng: Seq<char>, lat: Seq<char>| #[trigger]
            vertex_may_print(cell@[i] as u64, vertex@[i] as int, lng, lat) && rows@[i]@ == seq![
                'P',
                'O',
                'I',
                'N',
                'T',
                '(',
            ] + lng + seq![' '] + lat + seq![')'],
        text matches Some(t) ==> exists|lng: Seq<char>, lat: Seq<char>| #[trigger]
            vertex_may_print(cell@[i] as u64, vertex@[i] as int, lng, lat) && t@ == seq![
                'P',
                'O',
                'I',
                'N',
                'T',
                '(',
            ] + lng + seq![' '] + lat + seq![')'],
{
    law_vertex_row(cell@[i], vertex@[i], rows@[i]@);
    if let Some(t) = text {
        law_vertex_text(cell@[i] as u64, vertex@[i] as int, t@);
    }
}

/// The cell of a point is a leaf cell that the point may fall into, and 0 just for a text that is
/// no point.
pub proof fn law_calling_from_point(
    wkt: &[String],
    rows: Vec<i64>,
    i: int,
    text: &str,
    cell: i64,
    leaf: Option<u64>,
    of_leaf: i64,
)
    requires
        call_ensures(S2CellIdFromPoint::invoke, (wkt,), rows),
        0 <= i < wkt@.len(),
        call_ensures(s2_cell_id_from_point_impl, (text,), cell),
        call_ensures(point_cell, (leaf,), of_leaf),
    ensures
        rows@.len() == wkt@.len(),
        rows@[i] == 0 <==> !reads_as_point(wkt@[i]@),
        reads_as_point(wkt@[i]@) ==> point_may_fall_in(wkt@[i]@, rows@[i] as u64) && is_valid_cell(
            rows@[i] as u64,
        ) && level_of(rows@[i] as u64) == 30,
        cell == 0 <==> !reads_as_point(text@),
        reads_as_point(text@) ==> point_may_fall_in(text@, cell as u64) && is_valid_cell(
            cell as u64,
        ) && level_of(cell as u64) == 30,
        leaf matches Some(id) ==> of_leaf as u64 == id,
        leaf is None ==> of_leaf == 0,
{
    law_cell_of_point(wkt@[i]@, rows@[i]);
    law_cell_of_point(text@, cell);
    if let Some(id) = leaf {
        lemma_signed_and_back(id);
    }
}

/// Whether levels fit the coverer: all from 0 to 30 do, and so do least levels below and greatest
/// levels above these.
pub proof fn law_calling_levels_fit(min_level: i32, max_level: i32, fit: bool)
    requires
        call_ensures(levels_fit, (min_level, max_level), fit),
    ensures
        min_level <= 30 && max_level >= 0 ==> fit,
        fit <==> (min_level <= 0 || min_level as int % 256 <= 30) && (max_level >= 30
            || max_level as int % 256 <= 30),
{
    law_levels(min_level, max_level);
}

/// The rows for cells that were found: the same cells in the same order, and none where there was
/// nothing to look at.
pub proof fn law_calling_found_cells(found: Option<Vec<u64>>, cells: Vec<i64>, i: int)
    requires
        call_ensures(found_cells, (found,), cells),
    ensures
        found is None ==> cells@.len() == 0,
        found matches Some(ids) ==> cells@.len() == ids@.len() && (0 <= i < ids@.len()
            ==> cells@[i] as u64 == ids@[i]),
{
    if let Some(ids) = found {
        law_signed_rows(ids@, i);
    }
}

/// The rows of `s2_covering` are, for levels from 0 to 30, what a coverer with just these levels
/// and 64 cells may find, all of them valid cells of levels between the two; and none without a
/// bounding rectangle.
pub proof fn law_calling_covering(
    wkt: &str,
    min_level: u8,
    max_level: u8,
    bind: S2CoveringBind,
    defined: Option<S2CoveringBind>,
    i: int,
)
    requires
        min_level <= max_level <= 30,
        call_ensures(S2CoveringVTab::bind, (wkt, min_level as i32, max_level as i32), bind),
        call_ensures(
            S2CoveringVTab::bind_defined,
            (wkt, min_level as i32, max_level as i32),
            defined,
        ),
    ensures
        !has_bounds(wkt@) ==> bind@.len() == 0,
        has_bounds(wkt@) ==> may_cover(wkt@, min_level, max_level, 1, 64, as_unsigned(bind@)),
        0 <= i < bind@.len() ==> is_valid_cell(bind@[i] as u64) && min_level <= level_of(
            bind@[i] as u64,
        ) <= max_level,
        defined is Some,
        has_bounds(wkt@) ==> may_cover(
            wkt@,
            min_level,
            max_level,
            1,
            64,
            as_unsigned(defined->0@),
        ),
{
    let (min, max) = (min_level as i32, max_level as i32);
    law_levels(min, max);
    law_can_cover(wkt@, min, max);
    law_covering(wkt@, min, max, bind@);
    law_covering(wkt@, min, max, defined->0@);
}

/// The rows of `s2_interior_covering` are, for levels from 0 to 30, what an interior coverer with
/// just these levels and the number of cells that was passed, or four if that is fewer, may find;
/// and none without a bounding rectangle.
pub proof fn law_calling_interior_covering(
    wkt: &str,
    min_level: u8,
    max_level: u8,
    max_cells: i32,
    bind: S2InteriorCoveringBind,
    defined: Option<S2InteriorCoveringBind>,
    i: int,
)
    requires
        min_level <= max_level <= 30,
        call_ensures(
            S2InteriorCoveringVTab::bind,
            (wkt, min_level as i32, max_level as i32, max_cells),
            bind,
        ),
        call_ensures(
            S2InteriorCoveringVTab::bind_defined,
            (wkt, min_level as i32, max_level as i32, max_cells),
            defined,
        ),
    ensures
        !has_bounds(wkt@) ==> bind@.len() == 0,
        has_bounds(wkt@) && max_cells >= 4 ==> may_fill(
            wkt@,
            min_level,
            max_level,
            1,
            max_cells as int,
            as_unsigned(bind@),
        ),
        has_bounds(wkt@) && max_cells < 4 ==> may_fill(
            wkt@,
            min_level,
            max_level,
            1,
            4,
            as_unsigned(bind@),
        ),
        0 <= i < bind@.len() ==> is_valid_cell(bind@[i] as u64) && min_level <= level_of(
            bind@[i] as u64,
        ) <= max_level,
        defined is Some,
        has_bounds(wkt@) && max_cells >= 4 ==> may_fill(
            wkt@,
            min_level,
            max_level,
            1,
            max_cells as int,
            as_unsigned(defined->0@),
        ),
{
    let (min, max) = (min_level as i32, max_level as i32);
    law_levels(min, max);
    law_can_cover(wkt@, min, max);
    law_interior_covering(wkt@, min, max, max_cells, bind@);
    law_interior_covering(wkt@, min, max, max_cells, defined->0@);
}

/// The rows of `s2_children` for a valid cell: four times as many with each level below the cell's
/// own, in increasing order, and each a cell of the level whose ancestor is the cell.
pub proof fn law_calling_children(cell: i64, level: i32, bind: S2ChildrenBind, i: int)
    requires
        is_valid_cell(cell as u64),
        level_of(cell as u64) <= level <= 30,
        call_ensures(S2ChildrenVTab::bind, (cell, level), bind),
        0 <= i < bind@.len(),
    ensures
        bind@.len() == pow2((2 * (level - level_of(cell as u64))) as nat),
        is_valid_cell(bind@[i] as u64),
        level_of(bind@[i] as u64) == level,
        ancestor_at(bind@[i] as u64, level_of(cell as u64)) == cell as u64,
        i + 1 < bind@.len() ==> (bind@[i] as u64) < bind@[i + 1] as u64,
{
    law_children_rows(cell, level as int, bind@, i);
}

/// The rows of `s2_cell_neighbors`: four cells of the cell's level, each of which has a valid cell
/// among its own neighbors.
pub proof fn law_calling_neighbors(cell: i64, bind: S2NeighborsBind, i: int, back: S2NeighborsBind)
    requires
        is_valid_cell(cell as u64),
        call_ensures(S2NeighborsVTab::bind, (cell,), bind),
        0 <= i < 4,
        call_ensures(S2NeighborsVTab::bind, (bind@[i],), back),
    ensures
        bind@.len() == 4,
        is_valid_cell(bind@[i] as u64),
        level_of(bind@[i] as u64) == level_of(cell as u64),
        bind@[i] != cell,
        back@.contains(cell),
{
}

/// Cells that are packed and unpacked are the cells; a packed union says in its first four bytes
/// how many there are, and holds each in eight bytes, always with the lowest byte first.
pub proof fn law_calling_pack(
    cells: &[i64],
    bytes: Vec<u8>,
    blob: &[u8],
    ids: Vec<u64>,
    i: int,
    j: int,
)
    requires
        cells@.len() < 0x1_0000_0000,
        call_ensures(pack_cell_union, (cells,), bytes),
        blob@ == bytes@,
        call_ensures(unpack_cell_union, (blob,), ids),
    ensures
        ids@.len() == cells@.len(),
        0 <= i < cells@.len() ==> ids@[i] == cells@[i] as u64,
        bytes@.len() == 4 + 8 * cells@.len(),
        0 <= j < 4 ==> bytes@[j] == (cells@.len() as int / pow(256, j as nat)) % 256,
        0 <= i < cells@.len() && 0 <= j < 8 ==> bytes@[4 + 8 * i + j] == (cells@[i] as u64 as int
            / pow(256, j as nat)) % 256,
{
    law_unpack_of_pack(cells@);
    law_packed_bytes(cells@, i, j);
}

/// What is read of any binary object: as many cells as its first four bytes say, as far as eight
/// bytes are there for each.
pub proof fn law_calling_unpack(blob: &[u8], ids: Vec<u64>)
    requires
        call_ensures(unpack_cell_union, (blob,), ids),
    ensures
        blob@.len() < 4 ==> ids@.len() == 0,
        blob@.len() >= 4 ==> {
            let said = blob@[0] + 0x100 * blob@[1] + 0x1_0000 * blob@[2] + 0x100_0000 * blob@[3];
            let there = (blob@.len() - 4) / 8;
            &&& ids@.len() <= said && ids@.len() <= there
            &&& ids@.len() == said || ids@.len() == there
        },
{
    law_unpacked_cells(blob@, 0);
}

/// A union that was packed from the tokens of valid cells contains a valid cell just where the cell
/// or one of its ancestors is among them.
pub proof fn law_calling_union_contains(
    csv: &[String],
    blobs: Vec<Vec<u8>>,
    blob: &[Vec<u8>],
    cell: &[i64],
    held: Vec<bool>,
    i: int,
    cells: Seq<i64>,
)
    requires
        call_ensures(S2CellUnionPack::invoke, (csv,), blobs),
        blob@ == blobs@,
        call_ensures(S2CellUnionContains::invoke, (blob, cell), held),
        0 <= i < csv@.len(),
        cells.len() < 0x1_0000_0000,
        csv@[i]@ == join(tokens_of(cells), ','),
        forall|k: int| 0 <= k < cells.len() ==> is_valid_cell(#[trigger] cells[k] as u64),
        is_valid_cell(cell@[i] as u64),
    ensures
        blobs@.len() == csv@.len() && held@.len() == blob@.len(),
        held@[i] <==> exists|k: int|
            0 <= k < cells.len() && level_of(#[trigger] cells[k] as u64) <= level_of(
                cell@[i] as u64,
            ) && ancestor_at(cell@[i] as u64, level_of(cells[k] as u64)) == cells[k] as u64,
{
    law_union_of_tokens(cells);
    let ids = unpacked(blob@[i]@);
    assert(ids == cells.map_values(|c: i64| c as u64));
    assert forall|k: int| 0 <= k < ids.len() implies is_valid_cell(#[trigger] ids[k]) by {
        assert(ids[k] == cells[k] as u64);
    }
    let id = cell@[i] as u64;
    law_union_covers(ids, id);
    if held@[i] {
        let k = choose|k: int|
            0 <= k < ids.len() && level_of(#[trigger] ids[k]) <= level_of(id) && ancestor_at(
                id,
                level_of(ids[k]),
            ) == ids[k];
        assert(ids[k] == cells[k] as u64);
    }
    if exists|k: int|
        0 <= k < cells.len() && level_of(#[trigger] cells[k] as u64) <= level_of(id)
            && ancestor_at(id, level_of(cells[k] as u64)) == cells[k] as u64 {
        let k = choose|k: int|
            0 <= k < cells.len() && level_of(#[trigger] cells[k] as u64) <= level_of(id)
                && ancestor_at(id, level_of(cells[k] as u64)) == cells[k] as u64;
        assert(ids[k] == cells[k] as u64);
    }
}

/// Two unions of valid cells intersect just where a cell of one contains a cell of the other.
pub proof fn law_calling_union_intersects(
    first: &[Vec<u8>],
    second: &[Vec<u8>],
    met: Vec<bool>,
    i: int,
)
    requires
        call_ensures(S2CellUnionIntersects::invoke, (first, second), met),
        0 <= i < first@.len(),
        forall|k: int|
            0 <= k < unpacked(first@[i]@).len() ==> is_valid_cell(
                #[trigger] unpacked(first@[i]@)[k],
            ),
        forall|k: int|
            0 <= k < unpacked(second@[i]@).len() ==> is_valid_cell(
                #[trigger] unpacked(second@[i]@)[k],
            ),
    ensures
        met@.len() == first@.len(),
        met@[i] <==> (exists|k: int|
            0 <= k < unpacked(first@[i]@).len() && union_covers(
                unpacked(second@[i]@),
                #[trigger] unpacked(first@[i]@)[k],
            )) || (exists|j: int|
            0 <= j < unpacked(second@[i]@).len() && union_covers(
                unpacked(first@[i]@),
                #[trigger] unpacked(second@[i]@)[j],
            )),
{
    law_unions_overlap(unpacked(first@[i]@), unpacked(second@[i]@));
}

/// The rows of `s2_covering` are read once, all of them.
pub proof fn law_calling_covering_rows(
    start: S2CoveringInit,
    first: &mut S2CoveringInit,
    second: &mut S2CoveringInit,
    bind: &S2CoveringBind,
    shown: Vec<i64>,
    after: Vec<i64>,
)
    requires
        call_ensures(S2CoveringVTab::init, (), start),
        call_ensures(S2CoveringVTab::func, (first, bind), shown),
        call_ensures(S2CoveringVTab::func, (second, bind), after),
    ensures
        *old(first) == start ==> shown@ == bind@,
        *old(second) == *final(first) ==> after@.len() == 0,
{
}

/// The rows of `s2_children` are read once, all of them.
pub proof fn law_calling_children_rows(
    start: S2ChildrenInit,
    first: &mut S2ChildrenInit,
    second: &mut S2ChildrenInit,
    bind: &S2ChildrenBind,
    shown: Vec<i64>,
    after: Vec<i64>,
)
    requires
        call_ensures(S2ChildrenVTab::init, (), start),
        call_ensures(S2ChildrenVTab::func, (first, bind), shown),
        call_ensures(S2ChildrenVTab::func, (second, bind), after),
    ensures
        *old(first) == start ==> shown@ == bind@,
        *old(second) == *final(first) ==> after@.len() == 0,
{
}

/// The rows of `s2_cell_neighbors` are read once, all of them.
pub proof fn law_calling_neighbors_rows(
    start: S2NeighborsInit,
    first: &mut S2NeighborsInit,
    second: &mut S2NeighborsInit,
    bind: &S2NeighborsBind,
    shown: Vec<i64>,
    after: Vec<i64>,
)
    requires
        call_ensures(S2NeighborsVTab::init, (), start),
        call_ensures(S2NeighborsVTab::func, (first, bind), shown),
        call_ensures(S2NeighborsVTab::func, (second, bind), after),
    ensures
        *old(first) == start ==> shown@ == bind@,
        *old(second) == *final(first) ==> after@.len() == 0,
{
}

/// The rows of `s2_interior_covering` are read once, all of them.
pub proof fn law_calling_interior_covering_rows(
    start: S2InteriorCoveringInit,
    first: &mut S2InteriorCoveringInit,
    second: &mut S2InteriorCoveringInit,
    bind: &S2InteriorCoveringBind,
    shown: Vec<i64>,
    after: Vec<i64>,
)
    requires
        call_ensures(S2InteriorCoveringVTab::init, (), start),
        call_ensures(S2InteriorCoveringVTab::func, (first, bind), shown),
        call_ensures(S2InteriorCoveringVTab::func, (second, bind), after),
    ensures
        *old(first) == start ==> shown@ == bind@,
        *old(second) == *final(first) ==> after@.len() == 0,
{
}

} // verus!
