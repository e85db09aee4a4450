//! S2 cell identifiers: levels, ancestors, descendants, ranges and tokens.
use s2::cellid::CellID;
use vstd::arithmetic::power2::*;
use vstd::bits::{lemma_u64_shl_is_mul, lemma_u64_shr_is_div};
use vstd::prelude::*;
use vstd::std_specs::bits::*;

verus! {

/// The deepest level of the cell hierarchy.
pub const MAX_LEVEL: u64 = 30;

/// The lowest bit that is set in `id`, or 0 for the identifier 0.
pub open spec fn lowest_bit(id: u64) -> u64 {
    id & !((id - 1) as u64)
}

/// The bit that marks a cell of the given level, which lies in `0..=30`.
pub open spec fn level_bit(level: int) -> u64 {
    1u64 << ((2 * (30 - level)) as u64)
}

/// The face of the cube that the cell lies on: 0 to 5, or 6 and 7 for no face at all.
pub open spec fn face_of(id: u64) -> u64 {
    id >> 61u64
}

/// Whether `id` has a level: its lowest set bit is not one of the two top bits.
pub open spec fn has_level(id: u64) -> bool {
    u64_trailing_zeros(id) < 62
}

/// The subdivision level of a cell, from the position of its lowest set bit.
pub open spec fn level_of(id: u64) -> int {
    30 - u64_trailing_zeros(id) as int / 2
}

/// Whether `id` names a cell with a place on the sphere: a face and a level.
pub open spec fn has_place(id: u64) -> bool {
    &&& face_of(id) < 6
    &&& has_level(id)
}

/// Whether `id` is a valid cell: on one of the six faces, its lowest bit in an even position.
pub open spec fn is_valid_cell(id: u64) -> bool {
    &&& face_of(id) < 6
    &&& lowest_bit(id) & 0x1555_5555_5555_5555 != 0
}

/// The ancestor of `id` at `level`: the bits above the level's mark, then the mark.
pub open spec fn ancestor_at(id: u64, level: int) -> u64 {
    (id & !((level_bit(level) - 1) as u64)) | level_bit(level)
}

/// The smallest leaf identifier inside the cell.
pub open spec fn range_min(id: u64) -> int {
    id - (lowest_bit(id) - 1)
}

/// The largest leaf identifier inside the cell.
pub open spec fn range_max(id: u64) -> int {
    id + (lowest_bit(id) - 1)
}

/// Whether the cell `outer` contains the cell `inner`.
pub open spec fn cell_contains(outer: u64, inner: u64) -> bool {
    range_min(outer) <= inner <= range_max(outer)
}

/// Whether two cells have a leaf cell in common.
pub open spec fn cells_overlap(a: u64, b: u64) -> bool {
    range_min(a) <= range_max(b) && range_min(b) <= range_max(a)
}

/// How many descendants a cell has at `level`.
pub open spec fn descendant_count(id: u64, level: int) -> nat {
    (lowest_bit(id) / level_bit(level)) as nat
}

/// The `i`-th descendant of `id` at `level`, along the Hilbert curve.
pub open spec fn descendant(id: u64, level: int, i: int) -> int {
    id - lowest_bit(id) + level_bit(level) + 2 * level_bit(level) * i
}

/// All descendants of `id` at `level`, along the Hilbert curve.
pub open spec fn descendants(id: u64, level: int) -> Seq<u64> {
    Seq::new(descendant_count(id, level), |i: int| descendant(id, level, i) as u64)
}

/// Calls `CellID::level` of the `s2` crate, which reads the level off the number of
/// trailing zero bits. It underflows for an identifier with more than 61 of them.
#[verifier::external_body]
pub(crate) fn cell_level(id: u64) -> (level: u64)
    requires
        has_level(id),
    ensures
        level == level_of(id),
{
    CellID(id).level()
}

/// Calls `CellID::parent` of the `s2` crate, which clears the bits below the mark of the
/// level and sets the mark. It underflows for a level beyond 30.
#[verifier::external_body]
pub(crate) fn cell_parent(id: u64, level: u64) -> (parent: u64)
    requires
        level <= MAX_LEVEL,
    ensures
        parent == ancestor_at(id, level as int),
{
    CellID(id).parent(level).0
}

/// Walks `CellID::child_iter_at_level` of the `s2` crate to its end: the cells of the level
/// from the first to the last descendant, each a fixed step behind the one before. The
/// iterator's end overflows for cells at the top of the identifier range, and a level above
/// the cell's own is refused by an assertion.
#[verifier::external_body]
pub(crate) fn cell_descendants(id: u64, level: u64) -> (cells: Vec<u64>)
    requires
        has_descendants(id, level as int),
    ensures
        cells@ == descendants(id, level as int),
{
    CellID(id).child_iter_at_level(level).map(|c| c.0).collect()
}

/// The four cells across the edges of a cell: what `CellID::edge_neighbors` of the `s2`
/// crate returns for it.
pub uninterp spec fn neighbors_across_edges(id: u64) -> Seq<u64>;

/// Calls `CellID::edge_neighbors` of the `s2` crate. There are four, in the order down,
/// right, up, left, and each of them is a valid cell of the cell's level: the crate takes a leaf
/// cell on one of the six faces and cuts it to that level. The crate documents that they are the
/// cells adjacent across the four edges, and all distinct. So none of them is the cell itself,
/// and a valid cell lies across an edge of each of its neighbors.
#[verifier::external_body]
pub(crate) fn cell_edge_neighbors(id: u64) -> (cells: Vec<u64>)
    requires
        has_place(id),
    ensures
        cells@ == neighbors_across_edges(id),
        cells@.len() == 4,
        forall|i: int|
            0 <= i < 4 ==> is_valid_cell(#[trigger] cells@[i]) && level_of(cells@[i]) == level_of(
                id,
            ),
        forall|i: int, j: int| 0 <= i < j < 4 ==> cells@[i] != cells@[j],
        forall|i: int| 0 <= i < 4 ==> #[trigger] cells@[i] != id,
        is_valid_cell(id) ==> forall|i: int|
            0 <= i < 4 ==> neighbors_across_edges(#[trigger] cells@[i]).contains(id),
{
    CellID(id).edge_neighbors().iter().map(|c| c.0).collect()
}

/// The column and row, on its face, of the leaf cell that the bits of an identifier lead to: what
/// `CellID::face_ij_orientation` of the `s2` crate finds.
pub uninterp spec fn leaf_coordinates(id: u64) -> (i32, i32);

/// Calls `CellID::face_ij_orientation` of the `s2` crate, which looks the bits of the identifier up
/// in a table, four levels at a time. A face has 2 to the 30th columns and rows.
#[verifier::external_body]
fn cell_coordinates(id: u64) -> (ij: (i32, i32))
    requires
        has_place(id),
    ensures
        ij == leaf_coordinates(id),
        0 <= ij.0 < 0x4000_0000,
        0 <= ij.1 < 0x4000_0000,
{
    let (_, i, j, _) = CellID(id).face_ij_orientation();
    (i, j)
}

/// Whether the centre of a cell can be computed. It is found from twice the coordinates; for some
/// identifiers with an odd lowest bit at the rim of a face, two more would be too large.
pub open spec fn has_center(id: u64) -> bool {
    is_valid_cell(id) || (has_place(id) && !center_overflows(id))
}

/// Whether two is added to coordinates of which one, doubled, leaves no room for it.
pub open spec fn center_overflows(id: u64) -> bool {
    &&& id % 2 == 0
    &&& leaf_coordinates(id).0 as int % 2 != (id / 4) % 2
    &&& leaf_coordinates(id).0 == 0x3fff_ffff || leaf_coordinates(id).1 == 0x3fff_ffff
}

/// Tests whether the centre of a cell can be computed.
pub fn check_center(id: u64) -> (ok: bool)
    ensures
        ok == has_center(id),
{
    if check_valid(id) {
        return true;
    }
    if !check_place(id) {
        return false;
    }
    let (i, j) = cell_coordinates(id);
    let shifted: bool = id % 2 == 0 && (i as u64) % 2 != (id / 4) % 2;
    !(shifted && (i == 0x3fff_ffff || j == 0x3fff_ffff))
}

/// The lowest set bit is where the count of trailing zeros says.
proof fn lemma_trailing_zeros_at(id: u64, at: u64)
    requires
        at < 64,
        id & ((1u64 << at) - 1) as u64 == 0,
        id & (1u64 << at) != 0,
    ensures
        u64_trailing_zeros(id) == at,
        lowest_bit(id) == 1u64 << at,
{
    axiom_u64_trailing_zeros(id);
    let t: u64 = u64_trailing_zeros(id) as u64;
    assert(id != 0) by (bit_vector)
        requires
            id & (1u64 << at) != 0,
    ;
    if t < at {
        assert((id >> t) & 1u64 == 0) by (bit_vector)
            requires
                t < at < 64,
                id & ((1u64 << at) - 1) as u64 == 0,
        ;
    }
    if at < t {
        assert((id >> at) & 1u64 == 0u64);
        assert(false) by (bit_vector)
            requires
                at < 64,
                (id >> at) & 1u64 == 0,
                id & (1u64 << at) != 0,
        ;
    }
    assert(id & !((id - 1) as u64) == 1u64 << at) by (bit_vector)
        requires
            at < 64,
            id & ((1u64 << at) - 1) as u64 == 0,
            id & (1u64 << at) != 0,
    ;
}

/// The lowest set bit of an identifier that has a level.
proof fn lemma_lowest_bit(id: u64)
    requires
        has_level(id),
    ensures
        lowest_bit(id) == 1u64 << (u64_trailing_zeros(id) as u64),
        id & (lowest_bit(id) - 1) as u64 == 0,
        id & lowest_bit(id) == lowest_bit(id),
        0 < lowest_bit(id) <= id,
{
    axiom_u64_trailing_zeros(id);
    let t: u64 = u64_trailing_zeros(id) as u64;
    let low: u64 = 1u64 << t;
    assert(id & ((1u64 << t) - 1) as u64 == 0 && id & (1u64 << t) != 0) by (bit_vector)
        requires
            t < 62,
            (id >> t) & 1u64 == 1,
            id << ((64 - t) as u64) == 0,
    ;
    lemma_trailing_zeros_at(id, t);
    assert(id & low == low && 0 < low <= id) by (bit_vector)
        requires
            t < 62,
            low == 1u64 << t,
            id & low != 0,
    ;
}

/// A valid cell's lowest bit is the mark of its level.
pub proof fn lemma_valid_cell(id: u64)
    requires
        is_valid_cell(id),
    ensures
        has_place(id),
        0 <= level_of(id) <= 30,
        lowest_bit(id) == level_bit(level_of(id)),
        u64_trailing_zeros(id) == 2 * (30 - level_of(id)),
{
    axiom_u64_trailing_zeros(id);
    let t: u64 = u64_trailing_zeros(id) as u64;
    if t == 64 {
        assert(0u64 & !((0 - 1) as u64) & 0x1555_5555_5555_5555 == 0) by (bit_vector);
    } else {
        assert(id & ((1u64 << t) - 1) as u64 == 0 && id & (1u64 << t) != 0) by (bit_vector)
            requires
                t < 64,
                (id >> t) & 1u64 == 1,
                id << ((64 - t) as u64) == 0,
        ;
        lemma_trailing_zeros_at(id, t);
        assert(t % 2 == 0 && t <= 60) by (bit_vector)
            requires
                t < 64,
                (1u64 << t) & 0x1555_5555_5555_5555 != 0,
        ;
    }
}

/// The ancestor at a level is a cell of that level.
pub proof fn law_parent_has_level(id: u64, level: int)
    requires
        0 <= level <= 30,
    ensures
        has_level(ancestor_at(id, level)),
        level_of(ancestor_at(id, level)) == level,
        lowest_bit(ancestor_at(id, level)) == level_bit(level),
        face_of(ancestor_at(id, level)) == face_of(id),
        face_of(id) < 6 ==> is_valid_cell(ancestor_at(id, level)),
{
    let at: u64 = (2 * (30 - level)) as u64;
    let p: u64 = ancestor_at(id, level);
    assert(p & ((1u64 << at) - 1) as u64 == 0 && p & (1u64 << at) != 0 && p >> 61u64 == id >> 61u64
        && (1u64 << at) & 0x1555_5555_5555_5555 != 0) by (bit_vector)
        requires
            at <= 60,
            at % 2 == 0,
            p == (id & !(((1u64 << at) - 1) as u64)) | (1u64 << at),
    ;
    lemma_trailing_zeros_at(p, at);
}

/// The ancestor of an ancestor is the ancestor.
pub proof fn law_parent_of_parent(id: u64, near: int, far: int)
    requires
        0 <= far <= near <= 30,
    ensures
        ancestor_at(ancestor_at(id, near), far) == ancestor_at(id, far),
{
    let n: u64 = (2 * (30 - near)) as u64;
    let f: u64 = (2 * (30 - far)) as u64;
    let p: u64 = ancestor_at(id, near);
    if near == far {
        assert((p & !(((1u64 << n) - 1) as u64)) | (1u64 << n) == p) by (bit_vector)
            requires
                n <= 60,
                p == (id & !(((1u64 << n) - 1) as u64)) | (1u64 << n),
        ;
    } else {
        assert((p & !(((1u64 << f) - 1) as u64)) | (1u64 << f) == (id & !(((1u64 << f)
            - 1) as u64)) | (1u64 << f)) by (bit_vector)
            requires
                n < f <= 60,
                p == (id & !(((1u64 << n) - 1) as u64)) | (1u64 << n),
        ;
    }
}

/// A valid cell lies inside each of its ancestors, and is its own ancestor at its own level.
pub proof fn law_parent_contains(id: u64, level: int)
    requires
        is_valid_cell(id),
        0 <= level <= level_of(id),
    ensures
        cell_contains(ancestor_at(id, level), id),
        level == level_of(id) ==> ancestor_at(id, level) == id,
{
    lemma_valid_cell(id);
    lemma_lowest_bit(id);
    law_parent_has_level(id, level);
    let at: u64 = (2 * (30 - level)) as u64;
    let t: u64 = u64_trailing_zeros(id) as u64;
    let b: u64 = level_bit(level);
    let p: u64 = ancestor_at(id, level);
    assert(p - (b - 1) <= id && id <= p + (b - 1) && (t == at ==> p == id)) by (bit_vector)
        requires
            t <= at <= 60,
            b == 1u64 << at,
            p == (id & !((b - 1) as u64)) | b,
            id & ((1u64 << t) - 1) as u64 == 0,
            id & (1u64 << t) == 1u64 << t,
    ;
}

/// A valid cell inside another is not above it, and has it as an ancestor.
pub proof fn law_contained_means_descended(outer: u64, inner: u64)
    requires
        is_valid_cell(outer),
        is_valid_cell(inner),
        cell_contains(outer, inner),
    ensures
        level_of(outer) <= level_of(inner),
        ancestor_at(inner, level_of(outer)) == outer,
{
    lemma_valid_cell(outer);
    lemma_valid_cell(inner);
    lemma_lowest_bit(outer);
    lemma_lowest_bit(inner);
    let s: u64 = u64_trailing_zeros(inner) as u64;
    let t: u64 = u64_trailing_zeros(outer) as u64;
    let b: u64 = 1u64 << t;
    assert(s <= t && (inner & !((b - 1) as u64)) | b == outer) by (bit_vector)
        requires
            s <= 60,
            t <= 60,
            b == 1u64 << t,
            outer & (b - 1) as u64 == 0,
            outer & b == b,
            inner & ((1u64 << s) - 1) as u64 == 0,
            inner & (1u64 << s) == 1u64 << s,
            outer - (b - 1) <= inner,
            inner <= outer + (b - 1),
    ;
}

/// Two valid cells have no leaf cell in common unless one contains the other.
pub proof fn law_cells_nest_or_are_apart(a: u64, b: u64)
    requires
        is_valid_cell(a),
        is_valid_cell(b),
    ensures
        cells_overlap(a, b) <==> cell_contains(a, b) || cell_contains(b, a),
{
    lemma_valid_cell(a);
    lemma_valid_cell(b);
    lemma_lowest_bit(a);
    lemma_lowest_bit(b);
    if cells_overlap(a, b) {
        if level_of(a) <= level_of(b) {
            lemma_overlap_means_contained(a, b);
        } else {
            lemma_overlap_means_contained(b, a);
        }
    }
}

/// A cell that overlaps a larger one lies inside it.
proof fn lemma_overlap_means_contained(large: u64, small: u64)
    requires
        is_valid_cell(large),
        is_valid_cell(small),
        level_of(large) <= level_of(small),
        cells_overlap(large, small),
    ensures
        cell_contains(large, small),
{
    lemma_valid_cell(large);
    lemma_valid_cell(small);
    lemma_lowest_bit(large);
    lemma_lowest_bit(small);
    let s: u64 = u64_trailing_zeros(small) as u64;
    let t: u64 = u64_trailing_zeros(large) as u64;
    let low: u64 = 1u64 << s;
    let high: u64 = 1u64 << t;
    assert(large - (high - 1) <= small && small <= large + (high - 1)) by (bit_vector)
        requires
            s <= t <= 60,
            low == 1u64 << s,
            high == 1u64 << t,
            large & (high - 1) as u64 == 0,
            large & high == high,
            small & (low - 1) as u64 == 0,
            small & low == low,
            large - (high - 1) <= small + (low - 1),
            small - (low - 1) <= large + (high - 1),
    ;
}

/// A power of two as a shift.
proof fn lemma_one_shifted(at: u64)
    requires
        at <= 62,
    ensures
        1u64 << at == pow2(at as nat),
        0 < pow2(at as nat) <= 0x4000_0000_0000_0000,
{
    lemma2_to64();
    lemma2_to64_rest();
    lemma_pow2_pos(at as nat);
    if at < 62 {
        lemma_pow2_strictly_increases(at as nat, 62);
    }
    lemma_u64_shl_is_mul(1, at);
}

/// The mark of a level is a power of two.
pub proof fn lemma_level_bit(level: int)
    requires
        0 <= level <= 30,
    ensures
        level_bit(level) == pow2((2 * (30 - level)) as nat),
        level_bit(level) >= 1,
{
    lemma_one_shifted((2 * (30 - level)) as u64);
}

/// How many descendants a cell has at a level: four times as many with each level.
pub proof fn law_descendant_count(id: u64, level: int)
    requires
        is_valid_cell(id),
        level_of(id) <= level <= 30,
    ensures
        descendants(id, level).len() == pow2((2 * (level - level_of(id))) as nat),
{
    lemma_valid_cell(id);
    let near: u64 = (2 * (30 - level)) as u64;
    let far: u64 = (2 * (30 - level_of(id))) as u64;
    let gap: u64 = (far - near) as u64;
    lemma_one_shifted(near);
    lemma_one_shifted(far);
    lemma_pow2_adds(near as nat, gap as nat);
    let b: int = pow2(near as nat) as int;
    let n: int = pow2(gap as nat) as int;
    assert((b * n) / b == n) by (nonlinear_arith)
        requires
            b > 0,
    ;
}

/// The descendants of a valid cell at a level are cells of that level whose ancestor is the
/// cell, in increasing order, and their ranges tile the range of the cell without gap or
/// overlap. (Leaf identifiers are odd: the next leaf is two further on.)
pub proof fn law_descendants(id: u64, level: int, i: int)
    requires
        is_valid_cell(id),
        level_of(id) <= level <= 30,
        0 <= i < descendants(id, level).len(),
    ensures
        is_valid_cell(descendants(id, level)[i]),
        level_of(descendants(id, level)[i]) == level,
        ancestor_at(descendants(id, level)[i], level_of(id)) == id,
        cell_contains(id, descendants(id, level)[i]),
        i == 0 ==> range_min(descendants(id, level)[i]) == range_min(id),
        i + 1 == descendants(id, level).len() ==> range_max(descendants(id, level)[i])
            == range_max(id),
        i + 1 < descendants(id, level).len() ==> range_min(descendants(id, level)[i + 1])
            == range_max(descendants(id, level)[i]) + 2,
{
    lemma_descendant(id, level, i);
    if i + 1 < descendants(id, level).len() {
        lemma_descendant(id, level, i + 1);
        let b: int = level_bit(level) as int;
        assert(2 * b * (i + 1) == 2 * b * i + 2 * b) by (nonlinear_arith);
    }
    law_descendant_count(id, level);
    lemma_valid_cell(id);
    let near: u64 = (2 * (30 - level)) as u64;
    let gap: u64 = (2 * (level - level_of(id))) as u64;
    lemma_one_shifted(near);
    lemma_one_shifted((2 * (30 - level_of(id))) as u64);
    lemma_pow2_adds(near as nat, gap as nat);
    let b: int = pow2(near as nat) as int;
    let n: int = pow2(gap as nat) as int;
    assert(2 * b * (n - 1) == 2 * (b * n) - 2 * b) by (nonlinear_arith);
}

/// What one descendant is.
pub proof fn lemma_descendant(id: u64, level: int, i: int)
    requires
        is_valid_cell(id),
        level_of(id) <= level <= 30,
        0 <= i < descendants(id, level).len(),
    ensures
        descendants(id, level)[i] == descendant(id, level, i),
        is_valid_cell(descendants(id, level)[i]),
        level_of(descendants(id, level)[i]) == level,
        lowest_bit(descendants(id, level)[i]) == level_bit(level),
        ancestor_at(descendants(id, level)[i], level_of(id)) == id,
        cell_contains(id, descendants(id, level)[i]),
{
    lemma_valid_cell(id);
    lemma_lowest_bit(id);
    law_descendant_count(id, level);
    let s: u64 = (2 * (30 - level)) as u64;
    let t: u64 = (2 * (30 - level_of(id))) as u64;
    let gap: u64 = (t - s) as u64;
    lemma_one_shifted(s);
    lemma_one_shifted(t);
    lemma_one_shifted(gap);
    lemma_pow2_adds(s as nat, gap as nat);
    lemma_pow2_adds(s as nat, 1);
    lemma2_to64();
    let step: int = pow2(s as nat) as int;
    let n: int = pow2(gap as nat) as int;
    assert(0 <= 2 * step * i && i * (step * 2) == 2 * step * i && 2 * step * i + 2 * step <= 2 * (
    step * n)) by (nonlinear_arith)
        requires
            0 <= i < n,
            0 < step,
    ;
    let k: u64 = i as u64;
    let b: u64 = 1u64 << s;
    let far: u64 = 1u64 << t;
    lemma_u64_shl_is_mul(k, (s + 1) as u64);
    let moved: u64 = k << ((s + 1) as u64);
    let d: u64 = (id - far + b + moved) as u64;
    assert(id < 0xc000_0000_0000_0000) by (bit_vector)
        requires
            id >> 61u64 < 6,
    ;
    assert(d as int == descendant(id, level, i));
    let s1: u64 = (s + 1) as u64;
    assert(d & (b - 1) as u64 == 0 && d & b != 0 && d >> 61u64 == id >> 61u64 && b
        & 0x1555_5555_5555_5555 != 0 && (d & !((far - 1) as u64)) | far == id) by (bit_vector)
        requires
            s <= t <= 60,
            s % 2 == 0,
            s1 == s + 1,
            b == 1u64 << s,
            far == 1u64 << t,
            id & (far - 1) as u64 == 0,
            id & far == far,
            moved == k << s1,
            moved + 2 * b <= 2 * far,
            d == id - far + b + moved,
    ;
    lemma_trailing_zeros_at(d, s);
    law_parent_contains(d, level_of(id));
}

/// An identifier as a signed number, and back.
pub proof fn lemma_signed_and_back(id: u64)
    ensures
        (id as i64) as u64 == id,
{
    assert((id as i64) as u64 == id) by (bit_vector);
}

/// A signed number as an identifier, and back.
pub proof fn lemma_unsigned_and_back(cell: i64)
    ensures
        (cell as u64) as i64 == cell,
{
    assert((cell as u64) as i64 == cell) by (bit_vector);
}

/// Tests whether an identifier has a level.
pub fn check_level(id: u64) -> (ok: bool)
    ensures
        ok == has_level(id),
{
    id.trailing_zeros() < 62
}

/// Tests whether an identifier names a cell with a place on the sphere.
pub fn check_place(id: u64) -> (ok: bool)
    ensures
        ok == has_place(id),
{
    id >> 61 < 6 && check_level(id)
}

/// Tests whether an identifier is a valid cell.
pub fn check_valid(id: u64) -> (ok: bool)
    ensures
        ok == is_valid_cell(id),
{
    if id == 0 {
        assert(0u64 & !((0 - 1) as u64) & 0x1555_5555_5555_5555 == 0) by (bit_vector);
        return false;
    }
    id >> 61 < 6 && (id & !(id - 1)) & 0x1555_5555_5555_5555 != 0
}

/// Whether the descendants of a cell at a level can be counted off: the level lies between the
/// cell's own and 30, and the end of the row is an identifier.
pub open spec fn has_descendants(id: u64, level: int) -> bool {
    &&& has_level(id)
    &&& level_of(id) <= level <= 30
    &&& id + lowest_bit(id) + level_bit(level) <= u64::MAX
}

/// Tests whether the descendants of a cell at a level can be counted off.
pub fn check_descendants(id: u64, level: i32) -> (ok: bool)
    ensures
        ok == has_descendants(id, level as int),
{
    if level < 0 || level > 30 || !check_level(id) {
        return false;
    }
    proof {
        lemma_lowest_bit(id);
    }
    let own: i32 = 30 - (id.trailing_zeros() / 2) as i32;
    let low: u64 = id & !(id - 1);
    let mark: u64 = 1u64 << ((2 * (30 - level)) as u64);
    own <= level && low <= u64::MAX - id && mark <= u64::MAX - id - low
}

/// An identifier that is an odd number times a power of two: the power is its lowest bit and gives
/// the level, if there is one, and the range, which is less than the power to either side.
pub proof fn law_lowest_bit(id: u64, half: int, at: int)
    requires
        half >= 0,
        0 <= at < 64,
        id == (2 * half + 1) * pow2(at as nat),
    ensures
        lowest_bit(id) == pow2(at as nat),
        has_level(id) <==> at < 62,
        level_of(id) == 30 - at / 2,
        range_min(id) == id - (pow2(at as nat) - 1),
        range_max(id) == id + (pow2(at as nat) - 1),
        forall|other: u64| #[trigger]
            cell_contains(id, other) <==> id - pow2(at as nat) < other < id + pow2(at as nat),
        is_valid_cell(id) <==> at % 2 == 0 && at <= 60 && id < 0xc000_0000_0000_0000,
        has_place(id) <==> at < 62 && id < 0xc000_0000_0000_0000,
{
    lemma2_to64();
    lemma2_to64_rest();
    lemma_pow2_pos(at as nat);
    if at < 63 {
        lemma_pow2_strictly_increases(at as nat, 63);
    }
    let p: int = pow2(at as nat) as int;
    let n: int = 2 * half + 1;
    assert(0 <= n <= id) by (nonlinear_arith)
        requires
            id == n * p,
            p >= 1,
            n >= 1,
    ;
    let odd: u64 = n as u64;
    let t: u64 = at as u64;
    assert(1 * p == p);
    lemma_u64_shl_is_mul(1, t);
    lemma_u64_shl_is_mul(odd, t);
    assert(id & ((1u64 << t) - 1) as u64 == 0 && id & (1u64 << t) != 0 && (id >> 61u64 < 6 <==> id
        < 0xc000_0000_0000_0000) && ((1u64 << t) & 0x1555_5555_5555_5555 != 0 <==> t % 2 == 0 && t
        <= 60)) by (bit_vector)
        requires
            t < 64,
            odd % 2 == 1,
            id == odd << t,
    ;
    lemma_trailing_zeros_at(id, t);
}

/// The identifier 0 is no cell and has no level.
pub proof fn law_zero_is_no_cell()
    ensures
        !has_level(0),
        !has_place(0),
        !is_valid_cell(0),
{
    axiom_u64_trailing_zeros(0);
    assert(0u64 & !((0 - 1) as u64) & 0x1555_5555_5555_5555 == 0) by (bit_vector);
}

/// The ancestor at a level keeps what of the identifier is above the level's mark, as a multiple of
/// twice the mark, and then has the mark.
pub proof fn law_ancestor(id: u64, level: int)
    requires
        0 <= level <= 30,
    ensures
        ({
            let mark = pow2((2 * (30 - level)) as nat) as int;
            ancestor_at(id, level) == (id as int / (2 * mark)) * (2 * mark) + mark
        }),
{
    let at: u64 = (2 * (30 - level)) as u64;
    let up: u64 = (at + 1) as u64;
    lemma_one_shifted(at);
    lemma_one_shifted(up);
    lemma2_to64();
    lemma_pow2_adds(at as nat, 1);
    let high: u64 = id >> up;
    lemma_u64_shr_is_div(id, up);
    let mark: int = pow2(at as nat) as int;
    assert(high as int == id as int / (2 * mark));
    assert(high * (2 * mark) <= id) by (nonlinear_arith)
        requires
            high as int == id as int / (2 * mark),
            mark > 0,
    ;
    lemma_u64_shl_is_mul(high, up);
    assert((id & !(((1u64 << at) - 1) as u64)) | (1u64 << at) == (high << up) + (1u64 << at))
        by (bit_vector)
        requires
            at <= 60,
            up == at + 1,
            high == id >> up,
    ;
}

/// The descendants of a valid cell can be counted off at each level from its own to 30, and at no
/// other level.
pub proof fn law_valid_cells_have_descendants(id: u64, level: int)
    requires
        is_valid_cell(id),
    ensures
        has_descendants(id, level) <==> level_of(id) <= level <= 30,
{
    lemma_valid_cell(id);
    lemma_lowest_bit(id);
    if level_of(id) <= level <= 30 {
        lemma_mark_of_face(id, level);
    }
}

/// Two marks behind a cell on one of the six faces there is room for an identifier.
proof fn lemma_mark_of_face(id: u64, level: int)
    requires
        is_valid_cell(id),
        level_of(id) <= level <= 30,
    ensures
        id + lowest_bit(id) + level_bit(level) <= u64::MAX,
{
    lemma_valid_cell(id);
    let low: u64 = (2 * (30 - level_of(id))) as u64;
    let at: u64 = (2 * (30 - level)) as u64;
    assert((1u64 << low) <= 0x1000_0000_0000_0000 && (1u64 << at) <= 0x1000_0000_0000_0000 && id
        < 0xc000_0000_0000_0000) by (bit_vector)
        requires
            low <= 60,
            at <= 60,
            id >> 61u64 < 6,
    ;
}

/// A valid cell has a centre, and an identifier without a face or a level has none. Any other has
/// one unless it is even, the parity of its column differs from that of a quarter of it, and its
/// column or row is the last.
pub proof fn law_center(id: u64)
    ensures
        is_valid_cell(id) ==> has_center(id),
        !has_place(id) ==> !has_center(id),
        has_place(id) && id % 2 == 1 ==> has_center(id),
        has_place(id) && !is_valid_cell(id) && id % 2 == 0 ==> (has_center(id) <==> (
        leaf_coordinates(id).0 as int - id as int / 4) % 2 == 0 || (leaf_coordinates(id).0
            != 0x3fff_ffff && leaf_coordinates(id).1 != 0x3fff_ffff)),
{
    if is_valid_cell(id) {
        lemma_valid_cell(id);
    }
}

/// A valid cell contains another just where the other has it as its ancestor.
pub proof fn law_contains_is_ancestry(outer: u64, inner: u64)
    requires
        is_valid_cell(outer),
        is_valid_cell(inner),
    ensures
        cell_contains(outer, inner) <==> level_of(outer) <= level_of(inner) && ancestor_at(
            inner,
            level_of(outer),
        ) == outer,
{
    lemma_valid_cell(outer);
    if cell_contains(outer, inner) {
        law_contained_means_descended(outer, inner);
    }
    if level_of(outer) <= level_of(inner) && ancestor_at(inner, level_of(outer)) == outer {
        law_parent_contains(inner, level_of(outer));
    }
}

/// The descendants of an identifier that is an odd number times a power of two can be counted off
/// at a level just where it has a level, the level asked for lies between that and 30, and the two
/// marks behind it are still an identifier.
pub proof fn law_counted_descendants(id: u64, half: int, at: int, level: int)
    requires
        half >= 0,
        0 <= at < 64,
        id == (2 * half + 1) * pow2(at as nat),
        0 <= level <= 30,
    ensures
        has_descendants(id, level) <==> at < 62 && 30 - at / 2 <= level && id + pow2(at as nat)
            + pow2((2 * (30 - level)) as nat) <= u64::MAX,
        !has_descendants(id, -1),
        !has_descendants(id, 31),
{
    law_lowest_bit(id, half, at);
    lemma_level_bit(level);
}

} // verus!
