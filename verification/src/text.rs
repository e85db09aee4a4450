//! Splitting, trimming, searching and joining text.
use vstd::prelude::*;

verus! {

/// Whether a character is white space.
pub open spec fn is_space(c: char) -> bool {
    ||| '\u{9}' <= c <= '\u{d}'
    ||| c == '\u{20}'
    ||| c == '\u{85}'
    ||| c == '\u{a0}'
    ||| c == '\u{1680}'
    ||| '\u{2000}' <= c <= '\u{200a}'
    ||| c == '\u{2028}'
    ||| c == '\u{2029}'
    ||| c == '\u{202f}'
    ||| c == '\u{205f}'
    ||| c == '\u{3000}'
}

/// A text without the white space at its two ends.
pub open spec fn trimmed(s: Seq<char>) -> Seq<char>
    decreases s.len(),
{
    if s.len() > 0 && is_space(s[0]) {
        trimmed(s.skip(1))
    } else if s.len() > 0 && is_space(s.last()) {
        trimmed(s.drop_last())
    } else {
        s
    }
}

/// The pieces of a text between the separators: one more piece than there are separators.
pub open spec fn split(s: Seq<char>, separator: char) -> Seq<Seq<char>>
    decreases s.len(),
{
    if s.len() == 0 {
        seq![Seq::empty()]
    } else {
        let pieces = split(s.drop_last(), separator);
        if s.last() == separator {
            pieces.push(Seq::empty())
        } else {
            pieces.drop_last().push(pieces.last().push(s.last()))
        }
    }
}

/// The pieces with a separator between any two of them.
pub open spec fn join(pieces: Seq<Seq<char>>, separator: char) -> Seq<char>
    decreases pieces.len(),
{
    if pieces.len() == 0 {
        Seq::empty()
    } else if pieces.len() == 1 {
        pieces[0]
    } else {
        join(pieces.drop_last(), separator).push(separator) + pieces.last()
    }
}

/// Whether `needle` occurs in `text`.
pub open spec fn occurs(needle: Seq<char>, text: Seq<char>) -> bool {
    exists|i: int|
        0 <= i <= text.len() - needle.len() && #[trigger] text.subrange(i, i + needle.len())
            == needle
}

/// The decimal digits of a number, without leading zeros.
pub open spec fn decimal(n: nat) -> Seq<char>
    decreases n,
{
    if n < 10 {
        seq![(48 + n) as char]
    } else {
        decimal(n / 10).push((48 + n % 10) as char)
    }
}

/// The views of some texts.
pub open spec fn views(texts: Seq<String>) -> Seq<Seq<char>> {
    texts.map_values(|t: String| t@)
}

/// Adds a character at the end of a text, with `String::push` of the standard library.
pub assume_specification[ String::push ](text: &mut String, c: char)
    ensures
        final(text)@ == old(text)@.push(c),
;

/// The characters of a text.
pub(crate) fn characters(text: &str) -> (chars: Vec<char>)
    ensures
        chars@ == text@,
{
    let mut chars: Vec<char> = Vec::new();
    for c in it: text.chars()
        invariant
            it.seq() == text@,
            chars@ == text@.take(it.index()),
    {
        chars.push(c);
        assert(text@.take(it.index() + 1) == text@.take(it.index()).push(c));
    }
    assert(text@.take(text@.len() as int) == text@);
    chars
}

/// The text made of a run of characters.
pub(crate) fn text_between(chars: &[char], from: usize, to: usize) -> (text: String)
    requires
        from <= to <= chars@.len(),
    ensures
        text@ == chars@.subrange(from as int, to as int),
{
    let mut text: String = String::new();
    for i in from..to
        invariant
            from <= to <= chars@.len(),
            text@ == chars@.subrange(from as int, i as int),
    {
        text.push(chars[i]);
        assert(chars@.subrange(from as int, i + 1) == chars@.subrange(from as int, i as int).push(
            chars@[i as int],
        ));
    }
    text
}

/// Whether a character is white space.
pub fn is_white_space(c: char) -> (space: bool)
    ensures
        space == is_space(c),
{
    ('\u{9}' <= c && c <= '\u{d}') || c == '\u{20}' || c == '\u{85}' || c == '\u{a0}' || c
        == '\u{1680}' || ('\u{2000}' <= c && c <= '\u{200a}') || c == '\u{2028}' || c == '\u{2029}'
        || c == '\u{202f}' || c == '\u{205f}' || c == '\u{3000}'
}

/// Removes the white space at the two ends of a text.
pub fn trim(text: &str) -> (inner: String)
    ensures
        inner@ == trimmed(text@),
{
    let chars: Vec<char> = characters(text);
    let ghost s = text@;
    let mut from: usize = 0;
    assert(s.subrange(0, s.len() as int) == s);
    while from < chars.len() && is_white_space(chars[from])
        invariant
            chars@ == s,
            from <= s.len(),
            trimmed(s.subrange(from as int, s.len() as int)) == trimmed(s),
        decreases chars.len() - from,
    {
        assert(s.subrange(from as int, s.len() as int).skip(1) == s.subrange(
            from + 1,
            s.len() as int,
        ));
        from += 1;
    }
    let mut to: usize = chars.len();
    while to > from && is_white_space(chars[to - 1])
        invariant
            chars@ == s,
            from <= to <= s.len(),
            from < to ==> !is_space(s[from as int]),
            trimmed(s.subrange(from as int, to as int)) == trimmed(s),
        decreases to,
    {
        let ghost part = s.subrange(from as int, to as int);
        assert(part[0] == s[from as int]);
        assert(part.last() == s[to - 1]);
        assert(part.drop_last() == s.subrange(from as int, to - 1));
        to -= 1;
    }
    proof {
        let part = s.subrange(from as int, to as int);
        if from < to {
            assert(part[0] == s[from as int]);
            assert(part.last() == s[to - 1]);
        }
        assert(trimmed(part) == part);
    }
    text_between(&chars, from, to)
}

/// Splits a text at a separator.
pub fn split_at_char(text: &str, separator: char) -> (pieces: Vec<String>)
    ensures
        views(pieces@) == split(text@, separator),
{
    let mut pieces: Vec<String> = Vec::new();
    let mut piece: String = String::new();
    assert(text@.take(0) == Seq::<char>::empty());
    assert(views(pieces@).push(piece@) == split(text@.take(0), separator));
    for c in it: text.chars()
        invariant
            it.seq() == text@,
            views(pieces@).push(piece@) == split(text@.take(it.index()), separator),
    {
        let ghost before = views(pieces@);
        let ghost start = piece@;
        proof {
            let next = text@.take(it.index() + 1);
            assert(next.drop_last() == text@.take(it.index()));
            assert(next.last() == c);
            assert(before.push(start).drop_last() == before);
        }
        if c == separator {
            pieces.push(piece);
            piece = String::new();
            assert(views(pieces@) == before.push(start));
        } else {
            piece.push(c);
        }
    }
    assert(text@.take(text@.len() as int) == text@);
    let ghost before = views(pieces@);
    pieces.push(piece);
    assert(views(pieces@) == before.push(piece@));
    pieces
}

/// Whether a text holds `needle` somewhere.
pub fn contains_text(text: &str, needle: &str) -> (found: bool)
    ensures
        found == occurs(needle@, text@),
{
    let hay: Vec<char> = characters(text);
    let pin: Vec<char> = characters(needle);
    let mut at: usize = 0;
    while at <= hay.len() && pin.len() <= hay.len() - at
        invariant
            hay@ == text@,
            pin@ == needle@,
            at <= hay@.len() + 1,
            hay@.len() == hay.len(),
            forall|i: int|
                0 <= i < at && i <= text@.len() - needle@.len() ==> #[trigger] text@.subrange(
                    i,
                    i + needle@.len(),
                ) != needle@,
        decreases hay.len() + 1 - at,
    {
        let mut same: usize = 0;
        while same < pin.len() && hay[at + same] == pin[same]
            invariant
                hay@ == text@,
                pin@ == needle@,
                at + pin@.len() <= hay@.len() == hay.len(),
                same <= pin@.len(),
                forall|k: int| 0 <= k < same ==> hay@[at + k] == pin@[k],
            decreases pin.len() - same,
        {
            same += 1;
        }
        if same == pin.len() {
            assert(text@.subrange(at as int, at + needle@.len()) == needle@);
            return true;
        }
        proof {
            let part = text@.subrange(at as int, at + needle@.len());
            assert(part[same as int] != needle@[same as int]);
        }
        if at == hay.len() {
            return false;
        }
        at += 1;
    }
    false
}

/// Writes a number in decimal digits.
pub fn decimal_text(n: u16) -> (text: String)
    ensures
        text@ == decimal(n as nat),
    decreases n,
{
    if n < 10 {
        let mut text: String = String::new();
        text.push(decimal_digit(n));
        assert(text@ == decimal(n as nat));
        text
    } else {
        let mut text: String = decimal_text(n / 10);
        text.push(decimal_digit(n % 10));
        text
    }
}

/// The digit of a number below ten.
fn decimal_digit(n: u16) -> (c: char)
    requires
        n < 10,
    ensures
        c == (48 + n) as char,
{
    (48 + n as u8) as char
}

/// Joined pieces that hold no separator are split into the pieces again.
pub proof fn law_split_of_join(pieces: Seq<Seq<char>>, separator: char)
    requires
        pieces.len() > 0,
        forall|k: int| 0 <= k < pieces.len() ==> !(#[trigger] pieces[k]).contains(separator),
    ensures
        split(join(pieces, separator), separator) == pieces,
    decreases pieces.len(),
{
    let empty = Seq::<char>::empty();
    if pieces.len() == 1 {
        lemma_split_extended(empty, pieces[0], separator);
        assert(empty + pieces[0] == pieces[0]);
        assert(split(empty, separator) == seq![empty]);
        assert(seq![empty].drop_last().push(empty + pieces[0]) == pieces);
    } else {
        let head = join(pieces.drop_last(), separator);
        law_split_of_join(pieces.drop_last(), separator);
        let cut = head.push(separator);
        assert(cut.drop_last() == head);
        lemma_split_extended(cut, pieces.last(), separator);
        assert(split(cut, separator) == pieces.drop_last().push(empty));
        assert(empty + pieces.last() == pieces.last());
        assert(split(cut, separator).drop_last() == pieces.drop_last());
        assert(pieces.drop_last().push(pieces.last()) == pieces);
    }
}

/// A text without separators goes to the last piece.
proof fn lemma_split_extended(s: Seq<char>, more: Seq<char>, separator: char)
    requires
        !more.contains(separator),
    ensures
        split(s, separator).len() > 0,
        split(s + more, separator) == split(s, separator).drop_last().push(
            split(s, separator).last() + more,
        ),
    decreases s.len() + more.len(),
{
    if more.len() == 0 {
        assert(s + more == s);
        if s.len() > 0 {
            lemma_split_extended(s.drop_last(), Seq::empty(), separator);
        }
        assert(split(s, separator).last() + more == split(s, separator).last());
        assert(split(s, separator) == split(s, separator).drop_last().push(
            split(s, separator).last(),
        ));
    } else {
        let less = more.drop_last();
        assert forall|k: int| 0 <= k < less.len() implies less[k] != separator by {
            assert(more[k] == less[k]);
        }
        lemma_split_extended(s, less, separator);
        assert((s + more).drop_last() == s + less);
        assert((s + more).last() == more.last());
        assert(more.last() == more[more.len() - 1]);
        assert((split(s, separator).last() + less).push(more.last()) == split(s, separator).last()
            + more);
        let first = split(s, separator).drop_last();
        let last = split(s, separator).last();
        assert(first.push(last + less).drop_last() == first);
    }
}

/// The pieces of a text, joined by the separator, are the text again.
pub proof fn law_join_of_split(s: Seq<char>, separator: char)
    ensures
        split(s, separator).len() > 0,
        join(split(s, separator), separator) == s,
    decreases s.len(),
{
    if s.len() == 0 {
        assert(join(seq![Seq::<char>::empty()], separator) == Seq::<char>::empty());
    } else {
        let pieces = split(s.drop_last(), separator);
        law_join_of_split(s.drop_last(), separator);
        if s.last() == separator {
            let more = pieces.push(Seq::empty());
            assert(more.drop_last() == pieces);
            assert(join(pieces, separator).push(separator) + Seq::<char>::empty() == s);
        } else {
            let more = pieces.drop_last().push(pieces.last().push(s.last()));
            assert(more.drop_last() == pieces.drop_last());
            if pieces.len() > 1 {
                let head = join(pieces.drop_last(), separator).push(separator);
                assert(head + pieces.last().push(s.last()) == (head + pieces.last()).push(
                    s.last(),
                ));
            }
            assert(s.drop_last().push(s.last()) == s);
        }
    }
}

/// What is left of a trimmed text neither begins nor ends with white space.
pub proof fn law_trimmed_ends(s: Seq<char>)
    ensures
        trimmed(s).len() > 0 ==> !is_space(trimmed(s)[0]) && !is_space(trimmed(s).last()),
        trimmed(trimmed(s)) == trimmed(s),
    decreases s.len(),
{
    if s.len() > 0 && is_space(s[0]) {
        law_trimmed_ends(s.skip(1));
    } else if s.len() > 0 && is_space(s.last()) {
        law_trimmed_ends(s.drop_last());
    }
}

/// The characters that are white space, by their numbers.
pub proof fn law_white_space(c: char)
    ensures
        is_space(c) <==> seq![
            0x9int, 0xa, 0xb, 0xc, 0xd, 0x20, 0x85, 0xa0, 0x1680, 0x2000, 0x2001, 0x2002, 0x2003,
            0x2004, 0x2005, 0x2006, 0x2007, 0x2008, 0x2009, 0x200a, 0x2028, 0x2029, 0x202f, 0x205f,
            0x3000,
        ].contains(c as int),
{
    let spaces = seq![
        0x9int, 0xa, 0xb, 0xc, 0xd, 0x20, 0x85, 0xa0, 0x1680, 0x2000, 0x2001, 0x2002, 0x2003,
        0x2004, 0x2005, 0x2006, 0x2007, 0x2008, 0x2009, 0x200a, 0x2028, 0x2029, 0x202f, 0x205f,
        0x3000,
    ];
    let n: int = c as int;
    if is_space(c) {
        let i: int = if n <= 0xd {
            n - 9
        } else if n == 0x20 {
            5
        } else if n == 0x85 {
            6
        } else if n == 0xa0 {
            7
        } else if n == 0x1680 {
            8
        } else if n <= 0x200a {
            n - 0x2000 + 9
        } else if n == 0x2028 {
            20
        } else if n == 0x2029 {
            21
        } else if n == 0x202f {
            22
        } else if n == 0x205f {
            23
        } else {
            24
        };
        assert(spaces[i] == n);
    }
}

/// Trimming takes away all white space at the two ends of a text, and nothing else.
pub proof fn law_trimmed_of_padded(before: Seq<char>, inner: Seq<char>, after: Seq<char>)
    requires
        forall|i: int| 0 <= i < before.len() ==> is_space(#[trigger] before[i]),
        forall|i: int| 0 <= i < after.len() ==> is_space(#[trigger] after[i]),
        inner.len() > 0 ==> !is_space(inner[0]) && !is_space(inner[inner.len() - 1]),
    ensures
        trimmed(before + inner + after) == inner,
    decreases before.len() + after.len(),
{
    let s = before + inner + after;
    if before.len() > 0 {
        assert(s[0] == before[0]);
        assert(s.skip(1) == before.skip(1) + inner + after);
        law_trimmed_of_padded(before.skip(1), inner, after);
    } else if after.len() > 0 {
        let last = after.len() - 1;
        if inner.len() == 0 {
            assert(s[0] == after[0]);
            assert(s.skip(1) == before + inner + after.skip(1));
            law_trimmed_of_padded(before, inner, after.skip(1));
        } else {
            assert(s[0] == inner[0]);
            assert(s.last() == after[last]);
            assert(s.drop_last() == before + inner + after.drop_last());
            law_trimmed_of_padded(before, inner, after.drop_last());
        }
    } else {
        assert(s == inner);
    }
}

/// One text occurs in another just where the other is some text, the one, and some text.
pub proof fn law_occurs(needle: Seq<char>, text: Seq<char>)
    ensures
        occurs(needle, text) <==> exists|before: Seq<char>, after: Seq<char>|
            text == #[trigger] (before + needle + after),
{
    if occurs(needle, text) {
        let i = choose|i: int|
            0 <= i <= text.len() - needle.len() && #[trigger] text.subrange(i, i + needle.len())
                == needle;
        let before = text.take(i);
        let after = text.skip(i + needle.len());
        assert(text.subrange(i, i + needle.len()) == needle);
        assert(text == text.take(i) + text.subrange(i, i + needle.len()) + text.skip(
            i + needle.len(),
        ));
        assert(text == before + needle + after);
    }
    if exists|before: Seq<char>, after: Seq<char>| text == #[trigger] (before + needle + after) {
        let (before, after) = choose|before: Seq<char>, after: Seq<char>|
            text == #[trigger] (before + needle + after);
        let i: int = before.len() as int;
        assert(text.subrange(i, i + needle.len()) == needle);
    }
}

/// The number that a run of decimal digits stands for.
pub open spec fn decimal_value(s: Seq<char>) -> int
    decreases s.len(),
{
    if s.len() == 0 {
        0
    } else {
        10 * decimal_value(s.drop_last()) + (s.last() as int - '0' as int)
    }
}

/// A number that was written in decimal digits is read back: all characters are digits, the first
/// is not a zero unless it is the only one, and the digits stand for the number.
pub proof fn law_decimal(n: nat)
    ensures
        decimal(n).len() > 0,
        forall|i: int| 0 <= i < decimal(n).len() ==> '0' <= #[trigger] decimal(n)[i] <= '9',
        decimal(n)[0] == '0' ==> n == 0 && decimal(n).len() == 1,
        decimal_value(decimal(n)) == n,
    decreases n,
{
    if n < 10 {
        let s = decimal(n);
        assert(s.drop_last() == Seq::<char>::empty());
        reveal_with_fuel(decimal_value, 2);
    } else {
        law_decimal(n / 10);
        let s = decimal(n);
        assert(s.drop_last() == decimal(n / 10));
        assert forall|i: int| 0 <= i < s.len() implies '0' <= #[trigger] s[i] <= '9' by {
            if i < s.len() - 1 {
                assert(s[i] == decimal(n / 10)[i]);
            }
        }
        assert(s[0] == decimal(n / 10)[0]);
    }
}

/// The view of a list of texts has the view of each text in its place.
pub proof fn law_views(texts: Seq<String>, i: int)
    ensures
        views(texts).len() == texts.len(),
        0 <= i < texts.len() ==> views(texts)[i] == texts[i]@,
{
}

} // verus!
