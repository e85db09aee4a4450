//! Containment and intersection queries on unions of cells.
use crate::cell::{
    ancestor_at, cell_contains, cells_overlap, descendants, is_valid_cell,
    law_cells_nest_or_are_apart, law_contains_is_ancestry, lemma_descendant, level_bit, level_of,
    lowest_bit, range_max, range_min,
};
use s2::cellid::CellID;
use s2::cellunion::CellUnion;
use vstd::prelude::*;

verus! {

/// Whether the range of leaf cells of `id` can be computed: the identifier 0 has no lowest bit,
/// and that of the other exception has no negative.
pub open spec fn has_range(id: u64) -> bool {
    id != 0 && id != 0x8000_0000_0000_0000
}

/// Whether `i` is a place for `id` in the list: behind a cell that is not larger, and before
/// one that is larger. In a sorted list there is just one such place.
pub open spec fn is_place(cells: Seq<u64>, id: u64, i: int) -> bool {
    &&& 0 <= i <= cells.len()
    &&& i > 0 ==> cells[i - 1] <= id
    &&& i < cells.len() ==> id < cells[i]
}

/// Whether one of the two cells around the place `i` holds `id`.
pub open spec fn held_at(cells: Seq<u64>, id: u64, i: int) -> bool {
    ||| i < cells.len() && range_min(cells[i]) <= id
    ||| i > 0 && range_max(cells[i - 1]) >= id
}

/// Whether one of the two cells around the place `i` overlaps the cell `id`.
pub open spec fn met_at(cells: Seq<u64>, id: u64, i: int) -> bool {
    ||| i < cells.len() && range_min(cells[i]) <= range_max(id)
    ||| i > 0 && range_max(cells[i - 1]) >= range_min(id)
}

/// Whether a union is sorted and its cells do not overlap.
pub open spec fn is_disjoint_union(cells: Seq<u64>) -> bool {
    &&& forall|i: int| 0 <= i < cells.len() ==> has_range(#[trigger] cells[i])
    &&& forall|i: int, j: int|
        #![trigger cells[i], cells[j]]
        0 <= i < j < cells.len() ==> range_max(cells[i]) < range_min(cells[j])
}

/// Whether `held` says of some place of `id` whether a cell around it holds `id`.
pub open spec fn answers_containment(cells: Seq<u64>, id: u64, held: bool) -> bool {
    exists|i: int| #[trigger] is_place(cells, id, i) && held == held_at(cells, id, i)
}

/// Whether `met` says of some place of `id` whether a cell around it overlaps `id`.
pub open spec fn answers_overlap(cells: Seq<u64>, id: u64, met: bool) -> bool {
    exists|i: int| #[trigger] is_place(cells, id, i) && met == met_at(cells, id, i)
}

/// Whether `met` says that some cell of `a` was found to overlap a cell of `b`, or that none
/// was.
pub open spec fn answers_intersection(a: Seq<u64>, b: Seq<u64>, met: bool) -> bool {
    if met {
        exists|k: int| 0 <= k < a.len() && answers_overlap(b, #[trigger] a[k], true)
    } else {
        forall|k: int| 0 <= k < a.len() ==> answers_overlap(b, #[trigger] a[k], false)
    }
}

/// Whether every identifier in a list has a range.
pub open spec fn all_have_ranges(cells: Seq<u64>) -> bool {
    forall|k: int| 0 <= k < cells.len() ==> has_range(#[trigger] cells[k])
}

/// Calls `CellUnion::contains_cellid` of the `s2` crate, which assumes a sorted union without
/// overlap. It finds the place of the cell by bisection, and looks whether the cell behind the
/// place or the one before it holds the cell.
#[verifier::external_body]
fn union_contains(cells: &[u64], id: u64) -> (held: bool)
    requires
        is_disjoint_union(cells@),
    ensures
        answers_containment(cells@, id, held),
{
    CellUnion(cells.iter().map(|c| CellID(*c)).collect()).contains_cellid(&CellID(id))
}

/// Calls `CellUnion::intersects_cell_union` of the `s2` crate, which assumes that `b` is sorted
/// and without overlap. For one cell of `a` after the other it finds the place in `b` by
/// bisection, and looks whether the cell behind the place or the one before it overlaps, until
/// one does. A cell without a range overflows.
#[verifier::external_body]
fn union_intersects(a: &[u64], b: &[u64]) -> (met: bool)
    requires
        all_have_ranges(a@),
        is_disjoint_union(b@),
    ensures
        answers_intersection(a@, b@, met),
{
    let other: CellUnion = CellUnion(b.iter().map(|c| CellID(*c)).collect());
    CellUnion(a.iter().map(|c| CellID(*c)).collect()).intersects_cell_union(&other)
}

/// Calls `sort_unstable` of the standard library: the same identifiers, in increasing order.
#[verifier::external_body]
fn sort_identifiers(ids: &mut Vec<u64>)
    ensures
        final(ids)@.to_multiset() == old(ids)@.to_multiset(),
        is_increasing(final(ids)@),
{
    ids.sort_unstable();
}

/// Whether identifiers stand in increasing order.
spec fn is_increasing(ids: Seq<u64>) -> bool {
    forall|i: int, j: int| 0 <= i <= j < ids.len() ==> ids[i] <= ids[j]
}

/// Where a cell lies in its range.
proof fn lemma_range(id: u64)
    requires
        id != 0,
    ensures
        range_min(id) <= id <= range_max(id),
        lowest_bit(id) >= 1,
{
    assert(id & !((id - 1) as u64) >= 1) by (bit_vector)
        requires
            id != 0,
    ;
}

/// In a sorted union without overlap, one of the two cells around the place of `id` holds it
/// if any cell does.
pub proof fn law_place_decides_containment(cells: Seq<u64>, id: u64, i: int)
    requires
        is_disjoint_union(cells),
        is_place(cells, id, i),
    ensures
        held_at(cells, id, i) <==> exists|k: int|
            0 <= k < cells.len() && cell_contains(#[trigger] cells[k], id),
{
    assert forall|k: int| 0 <= k < cells.len() implies range_min(#[trigger] cells[k]) <= cells[k]
        <= range_max(cells[k]) by {
        lemma_range(cells[k]);
    }
    if held_at(cells, id, i) {
        if i < cells.len() && range_min(cells[i]) <= id {
            assert(cell_contains(cells[i], id));
        } else {
            assert(cell_contains(cells[i - 1], id));
        }
    }
    if exists|k: int| 0 <= k < cells.len() && cell_contains(#[trigger] cells[k], id) {
        let k = choose|k: int| 0 <= k < cells.len() && cell_contains(#[trigger] cells[k], id);
        if k < i - 1 {
            assert(range_max(cells[k]) < range_min(cells[i - 1]));
        }
        if k > i {
            assert(range_max(cells[i]) < range_min(cells[k]));
        }
    }
}

/// In a sorted union without overlap, one of the two cells around the place of a cell overlaps
/// it if any cell does.
pub proof fn law_place_decides_overlap(cells: Seq<u64>, id: u64, i: int)
    requires
        is_disjoint_union(cells),
        has_range(id),
        is_place(cells, id, i),
    ensures
        met_at(cells, id, i) <==> exists|k: int|
            0 <= k < cells.len() && cells_overlap(#[trigger] cells[k], id),
{
    lemma_range(id);
    assert forall|k: int| 0 <= k < cells.len() implies range_min(#[trigger] cells[k]) <= cells[k]
        <= range_max(cells[k]) by {
        lemma_range(cells[k]);
    }
    if met_at(cells, id, i) {
        if i < cells.len() && range_min(cells[i]) <= range_max(id) {
            assert(cells_overlap(cells[i], id));
        } else {
            assert(cells_overlap(cells[i - 1], id));
        }
    }
    if exists|k: int| 0 <= k < cells.len() && cells_overlap(#[trigger] cells[k], id) {
        let k = choose|k: int| 0 <= k < cells.len() && cells_overlap(#[trigger] cells[k], id);
        if k < i - 1 {
            assert(range_max(cells[k]) < range_min(cells[i - 1]));
        }
        if k > i {
            assert(range_max(cells[i]) < range_min(cells[k]));
        }
    }
}

/// A valid cell has a range.
pub proof fn lemma_valid_cells_have_ranges(id: u64)
    requires
        is_valid_cell(id),
    ensures
        has_range(id),
{
    if id == 0 {
        assert(0u64 & !((0 - 1) as u64) & 0x1555_5555_5555_5555 == 0) by (bit_vector);
    }
    let top: u64 = 0x8000_0000_0000_0000;
    assert(top & !((top - 1) as u64) & 0x1555_5555_5555_5555 == 0) by (bit_vector)
        requires
            top == 0x8000_0000_0000_0000,
    ;
}

/// The descendants of a valid cell at a level are a sorted union without overlap.
pub proof fn law_descendants_are_disjoint(id: u64, level: int)
    requires
        is_valid_cell(id),
        level_of(id) <= level <= 30,
    ensures
        is_disjoint_union(descendants(id, level)),
{
    let cells = descendants(id, level);
    assert forall|i: int| 0 <= i < cells.len() implies has_range(#[trigger] cells[i]) by {
        lemma_descendant(id, level, i);
        lemma_valid_cells_have_ranges(cells[i]);
    }
    assert forall|i: int, j: int|
        #![trigger cells[i], cells[j]]
        0 <= i < j < cells.len() implies range_max(cells[i]) < range_min(cells[j]) by {
        lemma_descendant(id, level, i);
        lemma_descendant(id, level, j);
        lemma_range(cells[i]);
        let b: int = level_bit(level) as int;
        assert(2 * b * i + 2 * b <= 2 * b * j) by (nonlinear_arith)
            requires
                i < j,
                b >= 1,
        ;
    }
}

/// Whether a cell of the union contains the cell `id`. An identifier without a range contains
/// nothing.
pub open spec fn union_covers(cells: Seq<u64>, id: u64) -> bool {
    exists|k: int|
        0 <= k < cells.len() && has_range(#[trigger] cells[k]) && cell_contains(cells[k], id)
}

/// Whether a cell of one union overlaps a cell of the other. An identifier without a range
/// overlaps nothing.
pub open spec fn unions_overlap(a: Seq<u64>, b: Seq<u64>) -> bool {
    exists|k: int, j: int|
        #![trigger a[k], b[j]]
        0 <= k < a.len() && 0 <= j < b.len() && has_range(a[k]) && has_range(b[j])
            && cells_overlap(b[j], a[k])
}

/// A union overlaps each cell that it contains.
pub proof fn law_contained_cells_overlap(cells: Seq<u64>, id: u64)
    requires
        has_range(id),
        union_covers(cells, id),
    ensures
        unions_overlap(seq![id], cells),
{
    let k = choose|k: int|
        0 <= k < cells.len() && has_range(#[trigger] cells[k]) && cell_contains(cells[k], id);
    lemma_range(id);
    assert(seq![id][0] == id);
    assert(cells_overlap(cells[k], seq![id][0]));
}

/// Overlap of two unions does not depend on which comes first.
pub proof fn law_overlap_is_symmetric(a: Seq<u64>, b: Seq<u64>)
    ensures
        unions_overlap(a, b) == unions_overlap(b, a),
{
    if unions_overlap(a, b) {
        let (k, j) = choose|k: int, j: int|
            #![trigger a[k], b[j]]
            0 <= k < a.len() && 0 <= j < b.len() && has_range(a[k]) && has_range(b[j])
                && cells_overlap(b[j], a[k]);
        assert(cells_overlap(a[k], b[j]));
    }
    if unions_overlap(b, a) {
        let (k, j) = choose|k: int, j: int|
            #![trigger b[k], a[j]]
            0 <= k < b.len() && 0 <= j < a.len() && has_range(b[k]) && has_range(a[j])
                && cells_overlap(a[j], b[k]);
        assert(cells_overlap(b[k], a[j]));
    }
}

/// The order of the cells in a union and how often each occurs do not matter to a query.
pub proof fn law_order_does_not_matter(cells: Seq<u64>, other: Seq<u64>, id: u64)
    requires
        forall|c: u64| #[trigger] cells.contains(c) == other.contains(c),
    ensures
        union_covers(cells, id) == union_covers(other, id),
        unions_overlap(cells, seq![id]) == unions_overlap(other, seq![id]),
{
    lemma_same_cells(cells, other, id);
    lemma_same_cells(other, cells, id);
}

/// What a union answers, one with all its cells does too.
proof fn lemma_same_cells(cells: Seq<u64>, other: Seq<u64>, id: u64)
    requires
        forall|c: u64| #[trigger] cells.contains(c) ==> other.contains(c),
    ensures
        union_covers(cells, id) ==> union_covers(other, id),
        unions_overlap(cells, seq![id]) ==> unions_overlap(other, seq![id]),
{
    if union_covers(cells, id) {
        let k = choose|k: int|
            0 <= k < cells.len() && has_range(#[trigger] cells[k]) && cell_contains(cells[k], id);
        assert(cells.contains(cells[k]));
        let m = choose|m: int| 0 <= m < other.len() && other[m] == cells[k];
        assert(cell_contains(other[m], id));
    }
    if unions_overlap(cells, seq![id]) {
        let one = seq![id];
        let (k, j) = choose|k: int, j: int|
            #![trigger cells[k], one[j]]
            0 <= k < cells.len() && 0 <= j < one.len() && has_range(cells[k]) && has_range(one[j])
                && cells_overlap(one[j], cells[k]);
        assert(cells.contains(cells[k]));
        let m = choose|m: int| 0 <= m < other.len() && other[m] == cells[k];
        assert(cells_overlap(one[j], other[m]));
    }
}

/// Whether the range of one cell lies in that of another.
spec fn is_within(inner: u64, outer: u64) -> bool {
    range_min(outer) <= range_min(inner) && range_max(inner) <= range_max(outer)
}

/// Whether the range of a cell lies in that of a cell of the union.
spec fn lies_within_one(id: u64, cells: Seq<u64>) -> bool {
    exists|k: int| 0 <= k < cells.len() && is_within(id, #[trigger] cells[k])
}

/// Whether all of `some` are cells of `cells`.
#[verifier::opaque]
spec fn are_among(some: Seq<u64>, cells: Seq<u64>) -> bool {
    forall|k: int| 0 <= k < some.len() ==> cells.contains(#[trigger] some[k])
}

/// Whether each cell of `cells` that has a range lies within one of `around`.
#[verifier::opaque]
spec fn all_lie_within(cells: Seq<u64>, around: Seq<u64>) -> bool {
    forall|k: int|
        0 <= k < cells.len() && has_range(#[trigger] cells[k]) ==> lies_within_one(cells[k], around)
}

/// Whether `tidied` holds some cells of `cells`, and one around each cell that has a range.
spec fn is_tidied(cells: Seq<u64>, tidied: Seq<u64>) -> bool {
    are_among(tidied, cells) && all_lie_within(cells, tidied)
}

/// The cell of `cells` that is the `k`-th of `some`.
proof fn lemma_among(some: Seq<u64>, cells: Seq<u64>, k: int) -> (m: int)
    requires
        are_among(some, cells),
        0 <= k < some.len(),
    ensures
        0 <= m < cells.len(),
        cells[m] == some[k],
{
    reveal(are_among);
    assert(cells.contains(some[k]));
    choose|m: int| 0 <= m < cells.len() && cells[m] == some[k]
}

/// The cell of `around` that the `k`-th of `cells` lies within.
proof fn lemma_lies_within(cells: Seq<u64>, around: Seq<u64>, k: int) -> (m: int)
    requires
        all_lie_within(cells, around),
        0 <= k < cells.len(),
        has_range(cells[k]),
    ensures
        0 <= m < around.len(),
        is_within(cells[k], around[m]),
{
    reveal(all_lie_within);
    assert(lies_within_one(cells[k], around));
    choose|m: int| 0 <= m < around.len() && is_within(cells[k], #[trigger] around[m])
}

/// Whether each cell of `cells` that has a range lies within one of `around` or within `c`.
#[verifier::opaque]
spec fn all_lie_within_or(cells: Seq<u64>, around: Seq<u64>, c: u64) -> bool {
    forall|k: int|
        0 <= k < cells.len() && has_range(#[trigger] cells[k]) ==> lies_within_one(cells[k], around)
            || is_within(cells[k], c)
}

/// A cell within `c` is not needed beside it.
proof fn lemma_last_not_needed(cells: Seq<u64>, around: Seq<u64>, c: u64)
    requires
        all_lie_within_or(cells, around, c),
        around.len() > 0,
        is_within(around.last(), c),
    ensures
        all_lie_within_or(cells, around.drop_last(), c),
{
    reveal(all_lie_within_or);
    let rest = around.drop_last();
    assert forall|k: int|
        0 <= k < cells.len() && has_range(#[trigger] cells[k]) implies lies_within_one(
        cells[k],
        rest,
    ) || is_within(cells[k], c) by {
        if lies_within_one(cells[k], around) {
            let m = choose|m: int| 0 <= m < around.len() && is_within(
                cells[k],
                #[trigger] around[m],
            );
            if m < rest.len() {
                assert(rest[m] == around[m]);
            }
        }
    }
}

/// A cell within the last one needs no place of its own.
proof fn lemma_next_not_needed(cells: Seq<u64>, around: Seq<u64>, c: u64)
    requires
        all_lie_within_or(cells, around, c),
        around.len() > 0,
        is_within(c, around.last()),
    ensures
        all_lie_within(cells.push(c), around),
{
    reveal(all_lie_within_or);
    reveal(all_lie_within);
    let next = cells.push(c);
    let last = around[around.len() - 1];
    assert forall|k: int|
        0 <= k < next.len() && has_range(#[trigger] next[k]) implies lies_within_one(
        next[k],
        around,
    ) by {
        if k < cells.len() {
            assert(next[k] == cells[k]);
        }
        if !lies_within_one(next[k], around) {
            assert(is_within(next[k], last));
        }
    }
}

/// With `c` in its place, every cell lies within one.
proof fn lemma_next_placed(cells: Seq<u64>, around: Seq<u64>, c: u64)
    requires
        all_lie_within_or(cells, around, c),
    ensures
        all_lie_within(cells.push(c), around.push(c)),
{
    reveal(all_lie_within_or);
    reveal(all_lie_within);
    let next = cells.push(c);
    let more = around.push(c);
    assert(more[around.len() as int] == c);
    assert forall|k: int|
        0 <= k < next.len() && has_range(#[trigger] next[k]) implies lies_within_one(
        next[k],
        more,
    ) by {
        if k < cells.len() && lies_within_one(cells[k], around) {
            let m = choose|m: int| 0 <= m < around.len() && is_within(
                cells[k],
                #[trigger] around[m],
            );
            assert(more[m] == around[m]);
        } else {
            if k < cells.len() {
                assert(next[k] == cells[k]);
            }
            assert(is_within(next[k], more[around.len() as int]));
        }
    }
}

/// Some cells of a list are still of it with one more.
proof fn lemma_among_more(some: Seq<u64>, cells: Seq<u64>, c: u64)
    requires
        are_among(some, cells),
    ensures
        are_among(some, cells.push(c)),
        are_among(some.push(c), cells.push(c)),
{
    let more = cells.push(c);
    assert(more[cells.len() as int] == c);
    assert forall|k: int| 0 <= k < some.len() implies more.contains(#[trigger] some[k]) by {
        let m = lemma_among(some, cells, k);
        assert(more[m] == some[k]);
    }
    reveal(are_among);
}

/// A larger cell apart from the last one is apart from all.
proof fn lemma_disjoint_with_next(cells: Seq<u64>, c: u64)
    requires
        is_disjoint_union(cells),
        has_range(c),
        cells.len() > 0 ==> cells.last() < range_min(c) && range_max(cells.last()) < c,
    ensures
        is_disjoint_union(cells.push(c)),
{
    if cells.len() > 0 {
        let last = cells[cells.len() - 1];
        lemma_outside_means_apart(last, c);
        lemma_range(last);
        assert forall|k: int| 0 <= k < cells.len() implies range_max(#[trigger] cells[k])
            < range_min(c) by {
            if k < cells.len() - 1 {
                assert(range_max(cells[k]) < range_min(last));
            }
        }
    }
}

/// The lowest bit of an identifier that is not 0.
fn low_bit(id: u64) -> (bit: u64)
    requires
        id != 0,
    ensures
        bit == lowest_bit(id),
        1 <= bit <= id,
        range_max(id) <= u64::MAX,
{
    let bit: u64 = id & !(id - 1);
    assert(1 <= bit <= id && id + bit - 1 <= 0xffff_ffff_ffff_ffff) by (bit_vector)
        requires
            id != 0,
            bit == id & !((id - 1) as u64),
    ;
    bit
}

/// A cell inside the range of another lies there with its whole range.
proof fn lemma_inside_means_within(inner: u64, outer: u64)
    requires
        inner != 0,
        outer != 0,
        cell_contains(outer, inner),
    ensures
        is_within(inner, outer),
{
    let a: u64 = lowest_bit(inner);
    let b: u64 = lowest_bit(outer);
    assert(outer - (b - 1) <= inner - (a - 1) && inner + (a - 1) <= outer + (b - 1))
        by (bit_vector)
        requires
            inner != 0,
            outer != 0,
            a == inner & !((inner - 1) as u64),
            b == outer & !((outer - 1) as u64),
            outer - (b - 1) <= inner,
            inner <= outer + (b - 1),
    ;
}

/// Two cells neither of which lies in the range of the other have no leaf cell in common.
proof fn lemma_outside_means_apart(low: u64, high: u64)
    requires
        low != 0,
        high != 0,
        low < range_min(high),
        range_max(low) < high,
    ensures
        range_max(low) < range_min(high),
{
    let a: u64 = lowest_bit(low);
    let b: u64 = lowest_bit(high);
    assert(low + (a - 1) < high - (b - 1)) by (bit_vector)
        requires
            low != 0,
            high != 0,
            a == low & !((low - 1) as u64),
            b == high & !((high - 1) as u64),
            low < high - (b - 1),
            low + (a - 1) < high,
    ;
}

/// The identifiers of a list that have a range, in order.
fn with_ranges(cells: &[u64]) -> (ids: Vec<u64>)
    ensures
        all_have_ranges(ids@),
        forall|k: int| 0 <= k < ids@.len() ==> cells@.contains(#[trigger] ids@[k]),
        forall|k: int|
            0 <= k < cells@.len() && has_range(#[trigger] cells@[k]) ==> ids@.contains(cells@[k]),
{
    let mut ids: Vec<u64> = Vec::new();
    for i in 0..cells.len()
        invariant
            all_have_ranges(ids@),
            forall|k: int| 0 <= k < ids@.len() ==> cells@.contains(#[trigger] ids@[k]),
            forall|k: int|
                0 <= k < i && has_range(#[trigger] cells@[k]) ==> ids@.contains(cells@[k]),
    {
        let c: u64 = cells[i];
        if c != 0 && c != 0x8000_0000_0000_0000 {
            let ghost before = ids@;
            ids.push(c);
            proof {
                assert(ids@[before.len() as int] == c);
                assert(cells@.contains(c));
                assert forall|k: int|
                    0 <= k < i && has_range(#[trigger] cells@[k]) implies ids@.contains(
                    cells@[k],
                ) by {
                    let m = choose|m: int| 0 <= m < before.len() && before[m] == cells@[k];
                    assert(ids@[m] == cells@[k]);
                }
            }
        }
    }
    ids
}

/// Takes out of increasing identifiers each that lies within another.
fn outermost(ids: &Vec<u64>) -> (outer: Vec<u64>)
    requires
        all_have_ranges(ids@),
        is_increasing(ids@),
    ensures
        is_disjoint_union(outer@),
        is_tidied(ids@, outer@),
{
    let mut outer: Vec<u64> = Vec::new();
    proof {
        reveal(are_among);
        reveal(all_lie_within);
    }
    for i in 0..ids.len()
        invariant
            all_have_ranges(ids@),
            is_increasing(ids@),
            is_disjoint_union(outer@),
            is_tidied(ids@.take(i as int), outer@),
    {
        let c: u64 = ids[i];
        let first: u64 = c - (low_bit(c) - 1);
        let ghost seen = ids@.take(i as int);
        proof {
            lemma_range(c);
            assert(ids@.take(i + 1) == seen.push(c));
            assert(all_lie_within_or(seen, outer@, c)) by {
                reveal(all_lie_within);
                reveal(all_lie_within_or);
            }
        }
        while outer.len() > 0 && first <= outer[outer.len() - 1]
            invariant
                i < ids@.len(),
                c == ids@[i as int],
                seen == ids@.take(i as int),
                has_range(c),
                first == range_min(c),
                c <= range_max(c),
                is_increasing(ids@),
                is_disjoint_union(outer@),
                are_among(outer@, seen),
                all_lie_within_or(seen, outer@, c),
            decreases outer.len(),
        {
            proof {
                let top = outer@.last();
                let m = lemma_among(outer@, seen, outer@.len() - 1);
                assert(ids@[m] == top);
                assert(has_range(outer@[outer@.len() - 1]));
                lemma_inside_means_within(top, c);
                lemma_last_not_needed(seen, outer@, c);
                assert(are_among(outer@.drop_last(), seen)) by {
                    reveal(are_among);
                }
            }
            outer.pop();
        }
        let mut inside: bool = false;
        if outer.len() > 0 {
            let last: u64 = outer[outer.len() - 1];
            inside = last + (low_bit(last) - 1) >= c;
        }
        proof {
            lemma_among_more(outer@, seen, c);
        }
        if inside {
            proof {
                lemma_range(outer@.last());
                lemma_inside_means_within(c, outer@.last());
                lemma_next_not_needed(seen, outer@, c);
            }
        } else {
            proof {
                lemma_disjoint_with_next(outer@, c);
                lemma_next_placed(seen, outer@, c);
            }
            outer.push(c);
        }
    }
    assert(ids@.take(ids@.len() as int) == ids@);
    outer
}

/// The cells of a union in increasing order, without those that lie within another and without
/// identifiers that have no range.
fn tidy_union(cells: &[u64]) -> (tidied: Vec<u64>)
    ensures
        is_disjoint_union(tidied@),
        is_tidied(cells@, tidied@),
{
    let mut ids: Vec<u64> = with_ranges(cells);
    let ghost listed = ids@;
    sort_identifiers(&mut ids);
    proof {
        broadcast use vstd::seq_lib::group_to_multiset_ensures;

        assert forall|c: u64| listed.contains(c) == #[trigger] ids@.contains(c) by {
            assert(listed.to_multiset().count(c) == ids@.to_multiset().count(c));
        }
        assert forall|k: int| 0 <= k < ids@.len() implies has_range(#[trigger] ids@[k])
            && cells@.contains(ids@[k]) by {
            assert(ids@.contains(ids@[k]));
            let m = choose|m: int| 0 <= m < listed.len() && listed[m] == ids@[k];
            assert(has_range(listed[m]));
        }
    }
    let tidied: Vec<u64> = outermost(&ids);
    proof {
        assert forall|k: int| 0 <= k < tidied@.len() implies cells@.contains(
            #[trigger] tidied@[k],
        ) by {
            let m = lemma_among(tidied@, ids@, k);
            assert(cells@.contains(ids@[m]));
        }
        assert forall|k: int|
            0 <= k < cells@.len() && has_range(#[trigger] cells@[k]) implies lies_within_one(
            cells@[k],
            tidied@,
        ) by {
            assert(ids@.contains(cells@[k]));
            let m = choose|m: int| 0 <= m < ids@.len() && ids@[m] == cells@[k];
            let j = lemma_lies_within(ids@, tidied@, m);
            assert(is_within(cells@[k], tidied@[j]));
        }
        reveal(are_among);
        reveal(all_lie_within);
    }
    tidied
}

/// A tidied union contains what the union contains.
proof fn lemma_tidied_covers(cells: Seq<u64>, tidied: Seq<u64>, id: u64)
    requires
        is_tidied(cells, tidied),
        is_disjoint_union(tidied),
    ensures
        union_covers(cells, id) <==> union_covers(tidied, id),
{
    if union_covers(cells, id) {
        let k = choose|k: int|
            0 <= k < cells.len() && has_range(#[trigger] cells[k]) && cell_contains(cells[k], id);
        let j = lemma_lies_within(cells, tidied, k);
        assert(cell_contains(tidied[j], id));
    }
    if union_covers(tidied, id) {
        let j = choose|j: int|
            0 <= j < tidied.len() && has_range(#[trigger] tidied[j]) && cell_contains(
                tidied[j],
                id,
            );
        let k = lemma_among(tidied, cells, j);
        assert(cell_contains(cells[k], id));
    }
}

/// Tidied unions overlap where the unions do.
proof fn lemma_tidied_overlap(
    a: Seq<u64>,
    tidied_a: Seq<u64>,
    b: Seq<u64>,
    tidied_b: Seq<u64>,
)
    requires
        is_tidied(a, tidied_a),
        is_disjoint_union(tidied_a),
        is_tidied(b, tidied_b),
        is_disjoint_union(tidied_b),
    ensures
        unions_overlap(a, b) <==> unions_overlap(tidied_a, tidied_b),
{
    if unions_overlap(a, b) {
        let (k, j) = choose|k: int, j: int|
            #![trigger a[k], b[j]]
            0 <= k < a.len() && 0 <= j < b.len() && has_range(a[k]) && has_range(b[j])
                && cells_overlap(b[j], a[k]);
        let x = lemma_lies_within(a, tidied_a, k);
        let y = lemma_lies_within(b, tidied_b, j);
        assert(cells_overlap(tidied_b[y], tidied_a[x]));
    }
    if unions_overlap(tidied_a, tidied_b) {
        let (x, y) = choose|x: int, y: int|
            #![trigger tidied_a[x], tidied_b[y]]
            0 <= x < tidied_a.len() && 0 <= y < tidied_b.len() && has_range(tidied_a[x])
                && has_range(tidied_b[y]) && cells_overlap(tidied_b[y], tidied_a[x]);
        let k = lemma_among(tidied_a, a, x);
        let j = lemma_among(tidied_b, b, y);
        assert(cells_overlap(b[j], a[k]));
    }
}

/// Whether a cell of the union contains a cell. The cells of the union may come in any order, and
/// may lie within each other.
pub fn contains_cell(cells: &[u64], id: u64) -> (held: bool)
    ensures
        held == union_covers(cells@, id),
{
    let tidied: Vec<u64> = tidy_union(cells);
    let held: bool = union_contains(&tidied, id);
    proof {
        let i = choose|i: int|
            #[trigger] is_place(tidied@, id, i) && held == held_at(tidied@, id, i);
        law_place_decides_containment(tidied@, id, i);
        lemma_tidied_covers(cells@, tidied@, id);
        if held {
            let k = choose|k: int|
                0 <= k < tidied@.len() && cell_contains(#[trigger] tidied@[k], id);
            assert(has_range(tidied@[k]));
        }
    }
    held
}

/// Whether a cell of one union overlaps a cell of the other. The cells of the unions may come in
/// any order, and may lie within each other.
pub fn intersects_union(a: &[u64], b: &[u64]) -> (met: bool)
    ensures
        met == unions_overlap(a@, b@),
{
    let first: Vec<u64> = tidy_union(a);
    let second: Vec<u64> = tidy_union(b);
    let met: bool = union_intersects(&first, &second);
    proof {
        lemma_tidied_overlap(a@, first@, b@, second@);
        if met {
            let k = choose|k: int|
                0 <= k < first@.len() && answers_overlap(second@, #[trigger] first@[k], true);
            let i = choose|i: int|
                #[trigger] is_place(second@, first@[k], i) && true == met_at(
                    second@,
                    first@[k],
                    i,
                );
            law_place_decides_overlap(second@, first@[k], i);
            let j = choose|j: int|
                0 <= j < second@.len() && cells_overlap(#[trigger] second@[j], first@[k]);
            assert(has_range(first@[k]) && has_range(second@[j]));
        } else {
            assert forall|k: int, j: int|
                #![trigger first@[k], second@[j]]
                0 <= k < first@.len() && 0 <= j < second@.len() implies !cells_overlap(
                second@[j],
                first@[k],
            ) by {
                assert(answers_overlap(second@, first@[k], false));
                let i = choose|i: int|
                    #[trigger] is_place(second@, first@[k], i) && false == met_at(
                        second@,
                        first@[k],
                        i,
                    );
                law_place_decides_overlap(second@, first@[k], i);
            }
        }
    }
    met
}

/// A union of valid cells contains a valid cell just where the cell or one of its ancestors is in
/// the union.
pub proof fn law_union_covers(cells: Seq<u64>, id: u64)
    requires
        forall|k: int| 0 <= k < cells.len() ==> is_valid_cell(#[trigger] cells[k]),
        is_valid_cell(id),
    ensures
        union_covers(cells, id) <==> exists|k: int|
            0 <= k < cells.len() && level_of(#[trigger] cells[k]) <= level_of(id) && ancestor_at(
                id,
                level_of(cells[k]),
            ) == cells[k],
{
    assert forall|k: int| 0 <= k < cells.len() implies has_range(#[trigger] cells[k]) && (
    cell_contains(cells[k], id) <==> level_of(cells[k]) <= level_of(id) && ancestor_at(
        id,
        level_of(cells[k]),
    ) == cells[k]) by {
        lemma_valid_cells_have_ranges(cells[k]);
        law_contains_is_ancestry(cells[k], id);
    }
    if exists|k: int|
        0 <= k < cells.len() && level_of(#[trigger] cells[k]) <= level_of(id) && ancestor_at(
            id,
            level_of(cells[k]),
        ) == cells[k] {
        let k = choose|k: int|
            0 <= k < cells.len() && level_of(#[trigger] cells[k]) <= level_of(id) && ancestor_at(
                id,
                level_of(cells[k]),
            ) == cells[k];
        assert(has_range(cells[k]) && cell_contains(cells[k], id));
    }
}

/// Two unions of valid cells overlap just where a cell of the one contains a cell of the other, or
/// the other way round.
pub proof fn law_unions_overlap(a: Seq<u64>, b: Seq<u64>)
    requires
        forall|k: int| 0 <= k < a.len() ==> is_valid_cell(#[trigger] a[k]),
        forall|k: int| 0 <= k < b.len() ==> is_valid_cell(#[trigger] b[k]),
    ensures
        unions_overlap(a, b) <==> (exists|k: int|
            0 <= k < a.len() && union_covers(b, #[trigger] a[k])) || (exists|j: int|
            0 <= j < b.len() && union_covers(a, #[trigger] b[j])),
{
    assert forall|k: int, j: int|
        #![trigger a[k], b[j]]
        0 <= k < a.len() && 0 <= j < b.len() implies has_range(a[k]) && has_range(b[j]) && (
    cells_overlap(b[j], a[k]) <==> cell_contains(b[j], a[k]) || cell_contains(a[k], b[j])) by {
        lemma_valid_cells_have_ranges(a[k]);
        lemma_valid_cells_have_ranges(b[j]);
        law_cells_nest_or_are_apart(b[j], a[k]);
    }
    if unions_overlap(a, b) {
        let (k, j) = choose|k: int, j: int|
            #![trigger a[k], b[j]]
            0 <= k < a.len() && 0 <= j < b.len() && has_range(a[k]) && has_range(b[j])
                && cells_overlap(b[j], a[k]);
        if cell_contains(b[j], a[k]) {
            assert(union_covers(b, a[k]));
        } else {
            assert(union_covers(a, b[j]));
        }
    }
    if exists|k: int| 0 <= k < a.len() && union_covers(b, #[trigger] a[k]) {
        let k = choose|k: int| 0 <= k < a.len() && union_covers(b, #[trigger] a[k]);
        let j = choose|j: int|
            0 <= j < b.len() && has_range(#[trigger] b[j]) && cell_contains(b[j], a[k]);
        assert(cells_overlap(b[j], a[k]));
    }
    if exists|j: int| 0 <= j < b.len() && union_covers(a, #[trigger] b[j]) {
        let j = choose|j: int| 0 <= j < b.len() && union_covers(a, #[trigger] b[j]);
        let k = choose|k: int|
            0 <= k < a.len() && has_range(#[trigger] a[k]) && cell_contains(a[k], b[j]);
        assert(cells_overlap(b[j], a[k]));
    }
}

/// One more cell in a union: it contains what the union contains and what the cell contains. The
/// identifier 0 and the one of the top bit alone contain nothing.
pub proof fn law_union_with_one_more(cells: Seq<u64>, c: u64, id: u64)
    ensures
        !union_covers(Seq::<u64>::empty(), id),
        c != 0 && c != 0x8000_0000_0000_0000 ==> union_covers(cells.push(c), id) == (union_covers(
            cells,
            id,
        ) || cell_contains(c, id)),
        c == 0 || c == 0x8000_0000_0000_0000 ==> union_covers(cells.push(c), id) == union_covers(
            cells,
            id,
        ),
{
    let more = cells.push(c);
    assert(more[cells.len() as int] == c);
    if union_covers(cells, id) {
        let k = choose|k: int|
            0 <= k < cells.len() && has_range(#[trigger] cells[k]) && cell_contains(cells[k], id);
        assert(more[k] == cells[k]);
    }
    if union_covers(more, id) {
        let k = choose|k: int|
            0 <= k < more.len() && has_range(#[trigger] more[k]) && cell_contains(more[k], id);
        if k < cells.len() {
            assert(cells[k] == more[k]);
        }
    }
}

/// One more cell in a union: it overlaps what the union overlaps, and each union with a cell whose
/// first leaf is not behind the last of this one and whose last is not before the first.
pub proof fn law_overlap_with_one_more(cells: Seq<u64>, c: u64, other: Seq<u64>)
    ensures
        !unions_overlap(Seq::<u64>::empty(), other),
        unions_overlap(cells.push(c), other) <==> unions_overlap(cells, other) || (c != 0 && c
            != 0x8000_0000_0000_0000 && exists|j: int|
            0 <= j < other.len() && #[trigger] other[j] != 0 && other[j] != 0x8000_0000_0000_0000
                && range_min(other[j]) <= range_max(c) && range_min(c) <= range_max(other[j])),
{
    let more = cells.push(c);
    let last = cells.len() as int;
    assert(more[last] == c);
    if unions_overlap(cells, other) {
        let (k, j) = choose|k: int, j: int|
            #![trigger cells[k], other[j]]
            0 <= k < cells.len() && 0 <= j < other.len() && has_range(cells[k]) && has_range(
                other[j],
            ) && cells_overlap(other[j], cells[k]);
        assert(more[k] == cells[k]);
        assert(cells_overlap(other[j], more[k]));
    }
    if c != 0 && c != 0x8000_0000_0000_0000 && exists|j: int|
        0 <= j < other.len() && #[trigger] other[j] != 0 && other[j] != 0x8000_0000_0000_0000
            && range_min(other[j]) <= range_max(c) && range_min(c) <= range_max(other[j]) {
        let j = choose|j: int|
            0 <= j < other.len() && #[trigger] other[j] != 0 && other[j] != 0x8000_0000_0000_0000
                && range_min(other[j]) <= range_max(c) && range_min(c) <= range_max(other[j]);
        assert(cells_overlap(other[j], more[last]));
    }
    if unions_overlap(more, other) {
        let (k, j) = choose|k: int, j: int|
            #![trigger more[k], other[j]]
            0 <= k < more.len() && 0 <= j < other.len() && has_range(more[k]) && has_range(
                other[j],
            ) && cells_overlap(other[j], more[k]);
        if k < cells.len() {
            assert(cells[k] == more[k]);
            assert(cells_overlap(other[j], cells[k]));
        } else {
            assert(other[j] != 0);
        }
    }
}

} // verus!
