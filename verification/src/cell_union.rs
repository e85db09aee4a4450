//! Unions of cells as binary objects, and the functions on them.
use crate::cell::{lemma_signed_and_back, lemma_unsigned_and_back};
use crate::columns::{exact, only_signature, ColumnType, Signature};
use crate::text::{
    is_space, join, law_split_of_join, law_trimmed_of_padded, split, split_at_char, trim, trimmed,
    views,
};
use crate::token::{
    cell_from_token, digit_value, law_token_characters, law_token_round_trip, token, token_value,
};
use crate::union_query::{
    contains_cell, intersects_union, law_order_does_not_matter, union_covers, unions_overlap,
};
use vstd::arithmetic::power::*;
use vstd::prelude::*;

verus! {

/// The last `n` bytes of a number, the lowest first.
pub open spec fn le_bytes(v: int, n: nat) -> Seq<u8>
    decreases n,
{
    if n == 0 {
        Seq::empty()
    } else {
        seq![(v % 256) as u8] + le_bytes(v / 256, (n - 1) as nat)
    }
}

/// The number whose bytes these are, the lowest first.
pub open spec fn le_value(bytes: Seq<u8>) -> int
    decreases bytes.len(),
{
    if bytes.len() == 0 {
        0
    } else {
        bytes[0] + 256 * le_value(bytes.skip(1))
    }
}

/// Eight bytes for each cell, in order.
pub open spec fn packed_cells(cells: Seq<i64>) -> Seq<u8>
    decreases cells.len(),
{
    if cells.len() == 0 {
        Seq::empty()
    } else {
        packed_cells(cells.drop_last()) + le_bytes(cells.last() as u64 as int, 8)
    }
}

/// A union of cells as a binary object: the number of cells in four bytes, then the cells.
pub open spec fn packed(cells: Seq<i64>) -> Seq<u8> {
    le_bytes(cells.len() as int, 4) + packed_cells(cells)
}

/// How many cells a binary object holds: what its first four bytes say, as far as eight
/// bytes are there for each.
pub open spec fn packed_count(blob: Seq<u8>) -> int {
    if blob.len() < 4 {
        0
    } else if le_value(blob.take(4)) <= (blob.len() - 4) / 8 {
        le_value(blob.take(4))
    } else {
        (blob.len() - 4) / 8
    }
}

/// The cells that a binary object holds.
pub open spec fn unpacked(blob: Seq<u8>) -> Seq<u64> {
    Seq::new(
        packed_count(blob) as nat,
        |i: int| le_value(blob.subrange(4 + 8 * i, 12 + 8 * i)) as u64,
    )
}

/// The bytes of a number.
proof fn lemma_le_bytes(v: int, n: nat)
    requires
        v >= 0,
    ensures
        le_bytes(v, n).len() == n,
        v < pow(256, n) ==> le_value(le_bytes(v, n)) == v,
    decreases n,
{
    reveal(pow);
    if n > 0 {
        lemma_le_bytes(v / 256, (n - 1) as nat);
        assert(le_bytes(v, n).skip(1) == le_bytes(v / 256, (n - 1) as nat));
    }
}

/// The value of some bytes.
proof fn lemma_le_value(bytes: Seq<u8>)
    ensures
        0 <= le_value(bytes) < pow(256, bytes.len()),
        le_bytes(le_value(bytes), bytes.len()) == bytes,
    decreases bytes.len(),
{
    reveal(pow);
    if bytes.len() > 0 {
        let rest = bytes.skip(1);
        lemma_le_value(rest);
        let v = le_value(bytes);
        assert(v % 256 == bytes[0] && v / 256 == le_value(rest));
        assert(seq![bytes[0]] + rest == bytes);
    }
}

/// Powers of 256 that are word sizes.
proof fn lemma_word_sizes()
    ensures
        pow(256, 4) == 0x1_0000_0000,
        pow(256, 8) == 0x1_0000_0000_0000_0000,
{
    reveal_with_fuel(pow, 9);
}

/// Appends the last `n` bytes of a number, the lowest first.
fn push_le(bytes: &mut Vec<u8>, v: u64, n: usize)
    ensures
        final(bytes)@ == old(bytes)@ + le_bytes(v as int, n as nat),
{
    let mut rest: u64 = v;
    let mut i: usize = 0;
    assert(bytes@ + le_bytes(v as int, n as nat) == old(bytes)@ + le_bytes(v as int, n as nat));
    while i < n
        invariant
            i <= n,
            bytes@ + le_bytes(rest as int, (n - i) as nat) == old(bytes)@ + le_bytes(
                v as int,
                n as nat,
            ),
        decreases n - i,
    {
        let ghost before = bytes@;
        let low: u8 = (rest % 256) as u8;
        bytes.push(low);
        assert(before + le_bytes(rest as int, (n - i) as nat) == before.push(low) + le_bytes(
            rest as int / 256,
            (n - i - 1) as nat,
        ));
        rest = rest / 256;
        i += 1;
    }
    assert(bytes@ + Seq::<u8>::empty() == bytes@);
}

/// The number in the `n` bytes at `from`, the lowest first.
fn read_le(bytes: &[u8], from: usize, n: usize) -> (v: u64)
    requires
        from + n <= bytes@.len(),
        n <= 8,
    ensures
        v == le_value(bytes@.subrange(from as int, from + n)),
{
    let mut v: u64 = 0;
    let mut i: usize = n;
    proof {
        lemma_word_sizes();
        assert(bytes@.subrange(from + n, from + n) == Seq::<u8>::empty());
    }
    while i > 0
        invariant
            i <= n <= 8,
            from + n <= bytes@.len() == bytes.len(),
            v == le_value(bytes@.subrange(from + i, from + n)),
        decreases i,
    {
        let ghost part = bytes@.subrange(from + i - 1, from + n);
        proof {
            assert(part.skip(1) == bytes@.subrange(from + i, from + n));
            lemma_le_value(part);
            lemma_word_sizes();
            if part.len() < 8 {
                lemma_pow_strictly_increases(256, part.len(), 8);
            }
        }
        v = bytes[from + (i - 1)] as u64 + 256 * v;
        i -= 1;
    }
    v
}

/// Packs cells into a binary object.
pub fn pack_cell_union(cells: &[i64]) -> (bytes: Vec<u8>)
    ensures
        bytes@ == packed(cells@),
{
    let mut bytes: Vec<u8> = Vec::new();
    push_le(&mut bytes, cells.len() as u64, 4);
    let ghost head = bytes@;
    assert(head == le_bytes(cells@.len() as int, 4));
    assert(head + packed_cells(cells@.take(0)) == head);
    for i in 0..cells.len()
        invariant
            bytes@ == head + packed_cells(cells@.take(i as int)),
    {
        let ghost part = cells@.take(i + 1);
        assert(part.drop_last() == cells@.take(i as int));
        push_le(&mut bytes, cells[i] as u64, 8);
        assert(bytes@ == head + packed_cells(part));
    }
    assert(cells@.take(cells@.len() as int) == cells@);
    bytes
}

/// Reads the cells of a binary object. What does not hold as many cells as it says is read
/// as far as it goes.
pub fn unpack_cell_union(blob: &[u8]) -> (cells: Vec<u64>)
    ensures
        cells@ == unpacked(blob@),
{
    let mut cells: Vec<u64> = Vec::new();
    if blob.len() < 4 {
        return cells;
    }
    let count: u64 = read_le(blob, 0, 4);
    assert(blob@.subrange(0, 4) == blob@.take(4));
    let mut at: usize = 4;
    while (cells.len() as u64) < count && blob.len() - at >= 8
        invariant
            4 <= at <= blob@.len() == blob.len(),
            at == 4 + 8 * cells@.len(),
            count == le_value(blob@.take(4)),
            cells@.len() <= packed_count(blob@),
            forall|i: int|
                0 <= i < cells@.len() ==> #[trigger] cells@[i] == le_value(
                    blob@.subrange(4 + 8 * i, 12 + 8 * i),
                ),
        decreases blob.len() - at,
    {
        cells.push(read_le(blob, at, 8));
        at += 8;
    }
    cells
}

/// A packed union has four bytes for the number of cells and eight for each.
pub proof fn law_packed_length(cells: Seq<i64>)
    ensures
        packed(cells).len() == 4 + 8 * cells.len(),
{
    lemma_le_bytes(cells.len() as int, 4);
    lemma_packed_cells_length(cells);
}

/// The cells that were packed are read back.
pub proof fn law_unpack_of_pack(cells: Seq<i64>)
    requires
        cells.len() < 0x1_0000_0000,
    ensures
        unpacked(packed(cells)) == cells.map_values(|c: i64| c as u64),
{
    let blob = packed(cells);
    lemma_word_sizes();
    lemma_le_bytes(cells.len() as int, 4);
    law_packed_length(cells);
    assert(blob.take(4) == le_bytes(cells.len() as int, 4));
    assert forall|i: int| 0 <= i < cells.len() implies #[trigger] unpacked(blob)[i]
        == cells[i] as u64 by {
        lemma_packed_cell(cells, i);
        lemma_le_bytes(cells[i] as u64 as int, 8);
        assert(blob.subrange(4 + 8 * i, 12 + 8 * i) == packed_cells(cells).subrange(
            8 * i,
            8 * i + 8,
        ));
    }
}

/// A binary object of just the length that its first four bytes say is what its cells are
/// packed into.
pub proof fn law_pack_of_unpack(blob: Seq<u8>)
    requires
        blob.len() >= 4,
        blob.len() == 4 + 8 * le_value(blob.take(4)),
    ensures
        packed(unpacked(blob).map_values(|c: u64| c as i64)) == blob,
{
    let cells = unpacked(blob).map_values(|c: u64| c as i64);
    lemma_le_value(blob.take(4));
    lemma_repacked(blob, cells.len() as int);
    assert(cells.take(cells.len() as int) == cells);
    assert(blob.take(4) + blob.subrange(4, blob.len() as int) == blob);
}

/// The first cells of a binary object, packed again.
proof fn lemma_repacked(blob: Seq<u8>, n: int)
    requires
        blob.len() >= 4,
        0 <= n <= unpacked(blob).len(),
    ensures
        packed_cells(unpacked(blob).map_values(|c: u64| c as i64).take(n))
            == blob.subrange(4, 4 + 8 * n),
    decreases n,
{
    let cells = unpacked(blob).map_values(|c: u64| c as i64);
    lemma_le_value(blob.take(4));
    if n == 0 {
        assert(cells.take(0) == Seq::<i64>::empty());
        assert(blob.subrange(4, 4) == Seq::<u8>::empty());
    } else {
        let m: int = n - 1;
        lemma_repacked(blob, m);
        assert(cells.take(n).drop_last() == cells.take(m));
        let bytes = blob.subrange(4 + 8 * m, 12 + 8 * m);
        lemma_le_value(bytes);
        lemma_word_sizes();
        let x: u64 = le_value(bytes) as u64;
        lemma_signed_and_back(x);
        assert(blob.subrange(4, 4 + 8 * n) == blob.subrange(4, 4 + 8 * m) + bytes);
    }
}

/// How long packed cells are.
proof fn lemma_packed_cells_length(cells: Seq<i64>)
    ensures
        packed_cells(cells).len() == 8 * cells.len(),
    decreases cells.len(),
{
    if cells.len() > 0 {
        lemma_packed_cells_length(cells.drop_last());
        lemma_le_bytes(cells.last() as u64 as int, 8);
    }
}

/// Where a packed cell stands.
proof fn lemma_packed_cell(cells: Seq<i64>, i: int)
    requires
        0 <= i < cells.len(),
    ensures
        packed_cells(cells).len() == 8 * cells.len(),
        packed_cells(cells).subrange(8 * i, 8 * i + 8) == le_bytes(cells[i] as u64 as int, 8),
    decreases cells.len(),
{
    lemma_packed_cells_length(cells);
    lemma_packed_cells_length(cells.drop_last());
    lemma_le_bytes(cells.last() as u64 as int, 8);
    if i < cells.len() - 1 {
        lemma_packed_cell(cells.drop_last(), i);
        assert(packed_cells(cells).subrange(8 * i, 8 * i + 8) == packed_cells(
            cells.drop_last(),
        ).subrange(8 * i, 8 * i + 8));
    }
}

/// The cells that some texts stand for: each is trimmed and read as a token, and what is then
/// empty is left out.
pub open spec fn token_cells(pieces: Seq<Seq<char>>) -> Seq<i64>
    decreases pieces.len(),
{
    if pieces.len() == 0 {
        Seq::empty()
    } else {
        let first = token_cells(pieces.drop_last());
        let last = trimmed(pieces.last());
        if last.len() == 0 {
            first
        } else {
            first.push(token_value(last) as i64)
        }
    }
}

/// The cells of a list of tokens with commas between them.
pub open spec fn listed_cells(list: Seq<char>) -> Seq<i64> {
    token_cells(split(list, ','))
}

/// The tokens of some cells.
pub open spec fn tokens_of(cells: Seq<i64>) -> Seq<Seq<char>> {
    cells.map_values(|c: i64| token(c as u64))
}

/// Reads a list of tokens with commas between them.
fn read_token_list(list: &str) -> (cells: Vec<i64>)
    ensures
        cells@ == listed_cells(list@),
{
    let pieces: Vec<String> = split_at_char(list, ',');
    let mut cells: Vec<i64> = Vec::new();
    let ghost all = views(pieces@);
    assert(all.take(0) == Seq::<Seq<char>>::empty());
    for i in 0..pieces.len()
        invariant
            all == views(pieces@),
            cells@ == token_cells(all.take(i as int)),
    {
        let piece: String = trim(pieces[i].as_str());
        proof {
            let part = all.take(i + 1);
            assert(part.drop_last() == all.take(i as int));
            assert(part.last() == pieces@[i as int]@);
        }
        if !piece.as_str().is_empty() {
            cells.push(cell_from_token(piece.as_str()) as i64);
        }
    }
    assert(all.take(all.len() as int) == all);
    cells
}

/// The tokens of cells, joined by commas, are read as those cells.
pub proof fn law_list_of_tokens(cells: Seq<i64>)
    ensures
        listed_cells(join(tokens_of(cells), ',')) == cells,
{
    let tokens = tokens_of(cells);
    lemma_tokens_read(cells);
    if cells.len() == 0 {
        let empty = Seq::<char>::empty();
        assert(join(tokens, ',') == empty);
        assert(trimmed(empty) == empty);
        assert(seq![empty].drop_last() == Seq::<Seq<char>>::empty());
        reveal_with_fuel(token_cells, 2);
        assert(token_cells(seq![empty]) == Seq::<i64>::empty());
    } else {
        assert forall|k: int| 0 <= k < tokens.len() implies !(#[trigger] tokens[k]).contains(
            ',',
        ) by {
            law_token_characters(cells[k] as u64);
        }
        law_split_of_join(tokens, ',');
    }
}

/// Tokens are read one by one.
proof fn lemma_tokens_read(cells: Seq<i64>)
    ensures
        token_cells(tokens_of(cells)) == cells,
    decreases cells.len(),
{
    if cells.len() > 0 {
        lemma_tokens_read(cells.drop_last());
        assert(tokens_of(cells).drop_last() == tokens_of(cells.drop_last()));
        let c: i64 = cells.last();
        let id: u64 = c as u64;
        let text = token(id);
        law_token_characters(id);
        law_token_round_trip(id);
        assert(digit_value(text[0]) is Some || text[0] == 'X');
        assert(digit_value(text[text.len() - 1]) is Some || text[text.len() - 1] == 'X');
        assert(trimmed(text) == text);
        lemma_unsigned_and_back(c);
        assert(tokens_of(cells).last() == text);
        assert(cells.drop_last().push(c) == cells);
    }
}

/// Packing the joined tokens of cells and reading the binary object gives the cells: a union
/// can be collected with an aggregate over tokens.
pub proof fn law_union_of_tokens(cells: Seq<i64>)
    requires
        cells.len() < 0x1_0000_0000,
    ensures
        unpacked(packed(listed_cells(join(tokens_of(cells), ',')))) == cells.map_values(
            |c: i64| c as u64,
        ),
{
    law_list_of_tokens(cells);
    law_unpack_of_pack(cells);
}

/// `s2_cell_union_pack(tokens)`: packs a list of tokens with commas between them.
pub struct S2CellUnionPack;

impl S2CellUnionPack {
    /// Packs the list of each row.
    pub fn invoke(csv: &[String]) -> (blobs: Vec<Vec<u8>>)
        ensures
            blobs@.len() == csv@.len(),
            forall|i: int|
                0 <= i < csv@.len() ==> (#[trigger] blobs@[i])@ == packed(
                    listed_cells(csv@[i]@),
                ),
    {
        let mut blobs: Vec<Vec<u8>> = Vec::new();
        for i in 0..csv.len()
            invariant
                blobs@.len() == i,
                forall|k: int|
                    0 <= k < i ==> (#[trigger] blobs@[k])@ == packed(listed_cells(csv@[k]@)),
        {
            let cells: Vec<i64> = read_token_list(csv[i].as_str());
            blobs.push(pack_cell_union(&cells));
        }
        blobs
    }

    /// Text to binary object.
    pub fn signatures() -> (signatures: Vec<Signature>)
        ensures
            only_signature(signatures@, seq![ColumnType::Utf8], ColumnType::Binary),
    {
        exact(vec![ColumnType::Utf8], ColumnType::Binary)
    }
}

/// `s2_cell_union_contains(union, cell)`: whether a cell of a packed union contains a cell. The
/// cells of the union may have been collected in any order.
pub struct S2CellUnionContains;

impl S2CellUnionContains {
    /// Answers the query of each row.
    pub fn invoke(blob: &[Vec<u8>], cell: &[i64]) -> (held: Vec<bool>)
        requires
            blob@.len() == cell@.len(),
        ensures
            held@.len() == blob@.len(),
            forall|i: int|
                0 <= i < blob@.len() ==> #[trigger] held@[i] == union_covers(
                    unpacked(blob@[i]@),
                    cell@[i] as u64,
                ),
    {
        let mut held: Vec<bool> = Vec::new();
        for i in 0..blob.len()
            invariant
                blob@.len() == cell@.len(),
                held@.len() == i,
                forall|k: int|
                    0 <= k < i ==> #[trigger] held@[k] == union_covers(
                        unpacked(blob@[k]@),
                        cell@[k] as u64,
                    ),
        {
            let cells: Vec<u64> = unpack_cell_union(&blob[i]);
            held.push(contains_cell(&cells, cell[i] as u64));
        }
        held
    }

    /// Binary object and cell to truth value.
    pub fn signatures() -> (signatures: Vec<Signature>)
        ensures
            only_signature(
                signatures@,
                seq![ColumnType::Binary, ColumnType::Int64],
                ColumnType::Boolean,
            ),
    {
        exact(vec![ColumnType::Binary, ColumnType::Int64], ColumnType::Boolean)
    }
}

/// `s2_cell_union_intersects(union, union)`: whether two packed unions have a leaf cell in
/// common, whatever the order of their cells.
pub struct S2CellUnionIntersects;

impl S2CellUnionIntersects {
    /// Answers the query of each row.
    pub fn invoke(first: &[Vec<u8>], second: &[Vec<u8>]) -> (met: Vec<bool>)
        requires
            first@.len() == second@.len(),
        ensures
            met@.len() == first@.len(),
            forall|i: int|
                0 <= i < first@.len() ==> #[trigger] met@[i] == unions_overlap(
                    unpacked(first@[i]@),
                    unpacked(second@[i]@),
                ),
    {
        let mut met: Vec<bool> = Vec::new();
        for i in 0..first.len()
            invariant
                first@.len() == second@.len(),
                met@.len() == i,
                forall|k: int|
                    0 <= k < i ==> #[trigger] met@[k] == unions_overlap(
                        unpacked(first@[k]@),
                        unpacked(second@[k]@),
                    ),
        {
            let a: Vec<u64> = unpack_cell_union(&first[i]);
            let b: Vec<u64> = unpack_cell_union(&second[i]);
            met.push(intersects_union(&a, &b));
        }
        met
    }

    /// Two binary objects to truth value.
    pub fn signatures() -> (signatures: Vec<Signature>)
        ensures
            only_signature(
                signatures@,
                seq![ColumnType::Binary, ColumnType::Binary],
                ColumnType::Boolean,
            ),
    {
        exact(vec![ColumnType::Binary, ColumnType::Binary], ColumnType::Boolean)
    }
}

/// `s2_cell_union_area(union)`: the area of a packed union in square metres.
pub struct S2CellUnionArea;

impl S2CellUnionArea {
    /// Binary object to number.
    pub fn signatures() -> (signatures: Vec<Signature>)
        ensures
            only_signature(signatures@, seq![ColumnType::Binary], ColumnType::Float64),
    {
        exact(vec![ColumnType::Binary], ColumnType::Float64)
    }
}

/// The bytes of a number, the lowest first, one by one.
proof fn lemma_le_bytes_at(v: int, n: nat, j: int)
    requires
        v >= 0,
        0 <= j < n,
    ensures
        le_bytes(v, n).len() == n,
        le_bytes(v, n)[j] == (v / pow(256, j as nat)) % 256,
    decreases n,
{
    reveal(pow);
    lemma_le_bytes(v, n);
    if j > 0 {
        lemma_le_bytes_at(v / 256, (n - 1) as nat, j - 1);
        assert(le_bytes(v, n)[j] == le_bytes(v / 256, (n - 1) as nat)[j - 1]);
        let p: int = pow(256, (j - 1) as nat);
        lemma_pow_positive(256, (j - 1) as nat);
        vstd::arithmetic::div_mod::lemma_div_denominator(v, 256, p);
    } else {
        assert(v / 1 == v);
    }
}

/// Each byte of a packed union: the first four say how many cells there are, and each eight from
/// then on hold a cell, in order, always with the lowest byte first.
pub proof fn law_packed_bytes(cells: Seq<i64>, i: int, j: int)
    ensures
        packed(cells).len() == 4 + 8 * cells.len(),
        0 <= j < 4 ==> packed(cells)[j] == (cells.len() as int / pow(256, j as nat)) % 256,
        0 <= i < cells.len() && 0 <= j < 8 ==> packed(cells)[4 + 8 * i + j] == (
        cells[i] as u64 as int / pow(256, j as nat)) % 256,
{
    law_packed_length(cells);
    lemma_le_bytes(cells.len() as int, 4);
    if 0 <= j < 4 {
        lemma_le_bytes_at(cells.len() as int, 4, j);
        assert(packed(cells)[j] == le_bytes(cells.len() as int, 4)[j]);
    }
    if 0 <= i < cells.len() && 0 <= j < 8 {
        lemma_packed_cell(cells, i);
        lemma_le_bytes_at(cells[i] as u64 as int, 8, j);
        let part = packed_cells(cells).subrange(8 * i, 8 * i + 8);
        assert(part[j] == packed_cells(cells)[8 * i + j]);
        assert(packed(cells)[4 + 8 * i + j] == packed_cells(cells)[8 * i + j]);
    }
}

/// The cells of a binary object: as many as its first four bytes say, as far as eight bytes are
/// there for each, and each of them the number in its eight bytes, the lowest first.
pub proof fn law_unpacked_cells(blob: Seq<u8>, i: int)
    ensures
        blob.len() < 4 ==> unpacked(blob).len() == 0,
        blob.len() >= 4 ==> {
            let said = blob[0] + 0x100 * blob[1] + 0x1_0000 * blob[2] + 0x100_0000 * blob[3];
            let there = (blob.len() - 4) / 8;
            &&& unpacked(blob).len() <= said
            &&& unpacked(blob).len() <= there
            &&& unpacked(blob).len() == said || unpacked(blob).len() == there
        },
        0 <= i < unpacked(blob).len() ==> unpacked(blob)[i] == blob[4 + 8 * i] + 0x100 * blob[5 + 8
            * i] + 0x1_0000 * blob[6 + 8 * i] + 0x100_0000 * blob[7 + 8 * i] + 0x1_0000_0000
            * blob[8 + 8 * i] + 0x100_0000_0000 * blob[9 + 8 * i] + 0x1_0000_0000_0000 * blob[10 + 8
            * i] + 0x100_0000_0000_0000 * blob[11 + 8 * i],
{
    reveal_with_fuel(le_value, 9);
    if blob.len() >= 4 {
        let head = blob.take(4);
        lemma_le_value(head);
        assert(head.skip(1).skip(1) == head.skip(2));
        assert(head.skip(2).skip(1) == head.skip(3));
        assert(head.skip(3).skip(1) == Seq::<u8>::empty());
    }
    if 0 <= i < unpacked(blob).len() {
        let part = blob.subrange(4 + 8 * i, 12 + 8 * i);
        lemma_le_value(part);
        lemma_word_sizes();
        assert(part.skip(1).skip(1) == part.skip(2));
        assert(part.skip(2).skip(1) == part.skip(3));
        assert(part.skip(3).skip(1) == part.skip(4));
        assert(part.skip(4).skip(1) == part.skip(5));
        assert(part.skip(5).skip(1) == part.skip(6));
        assert(part.skip(6).skip(1) == part.skip(7));
        assert(part.skip(7).skip(1) == Seq::<u8>::empty());
    }
}

/// The cells of some texts and then others are those of the ones and then those of the others.
pub proof fn law_token_cells_add(first: Seq<Seq<char>>, second: Seq<Seq<char>>)
    ensures
        token_cells(first + second) == token_cells(first) + token_cells(second),
    decreases second.len(),
{
    if second.len() == 0 {
        assert(first + second == first);
        assert(token_cells(first) + Seq::<i64>::empty() == token_cells(first));
    } else {
        law_token_cells_add(first, second.drop_last());
        assert((first + second).drop_last() == first + second.drop_last());
        assert((first + second).last() == second.last());
        assert(token_cells(first + second) == token_cells(first) + token_cells(second));
    }
}

/// A list of texts with commas between them holds, for each text in order, the cell that it stands
/// for as a token, whatever white space there is around it; a text of white space alone holds none.
pub proof fn law_listed_cells(
    first: Seq<Seq<char>>,
    before: Seq<char>,
    inner: Seq<char>,
    after: Seq<char>,
)
    requires
        forall|k: int| 0 <= k < first.len() ==> !(#[trigger] first[k]).contains(','),
        !(before + inner + after).contains(','),
        forall|i: int| 0 <= i < before.len() ==> is_space(#[trigger] before[i]),
        forall|i: int| 0 <= i < after.len() ==> is_space(#[trigger] after[i]),
        inner.len() > 0 ==> !is_space(inner[0]) && !is_space(inner[inner.len() - 1]),
    ensures
        ({
            let pieces = first.push(before + inner + after);
            let cells = if first.len() == 0 {
                Seq::empty()
            } else {
                listed_cells(join(first, ','))
            };
            listed_cells(join(pieces, ',')) == if inner.len() == 0 {
                cells
            } else {
                cells.push(token_value(inner) as i64)
            }
        }),
{
    let piece = before + inner + after;
    let pieces = first.push(piece);
    law_split_of_join(pieces, ',');
    if first.len() > 0 {
        law_split_of_join(first, ',');
    }
    assert(pieces.drop_last() == first);
    assert(pieces.last() == piece);
    law_trimmed_of_padded(before, inner, after);
    if first.len() == 0 {
        assert(token_cells(first) == Seq::<i64>::empty());
    }
    assert(listed_cells(join(pieces, ',')) == token_cells(pieces));
}

/// Whether a packed union contains a cell does not change when the union is packed in any other
/// order, or with some of its cells more than once.
pub proof fn law_packed_order_does_not_matter(cells: Seq<i64>, other: Seq<i64>, id: u64)
    requires
        cells.len() < 0x1_0000_0000,
        other.len() < 0x1_0000_0000,
        forall|c: i64| #[trigger] cells.contains(c) == other.contains(c),
    ensures
        union_covers(unpacked(packed(cells)), id) == union_covers(unpacked(packed(other)), id),
{
    law_unpack_of_pack(cells);
    law_unpack_of_pack(other);
    let a = unpacked(packed(cells));
    let b = unpacked(packed(other));
    assert forall|c: u64| #[trigger] a.contains(c) == b.contains(c) by {
        lemma_among_packed(cells, c);
        lemma_among_packed(other, c);
    }
    law_order_does_not_matter(a, b, id);
}

/// A cell is among identifiers just where it is among the signed numbers.
proof fn lemma_among_packed(cells: Seq<i64>, c: u64)
    ensures
        cells.map_values(|x: i64| x as u64).contains(c) == cells.contains(c as i64),
{
    let ids = cells.map_values(|x: i64| x as u64);
    lemma_signed_and_back(c);
    if ids.contains(c) {
        let k = choose|k: int| 0 <= k < ids.len() && ids[k] == c;
        lemma_unsigned_and_back(cells[k]);
        assert(cells[k] == c as i64);
    }
    if cells.contains(c as i64) {
        let k = choose|k: int| 0 <= k < cells.len() && cells[k] == c as i64;
        assert(ids[k] == c);
    }
}

} // verus!
