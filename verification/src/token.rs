//! Cell tokens: a cell identifier in hexadecimal, without its trailing zeros.
use s2::cellid::CellID;
use vstd::arithmetic::power::*;
use vstd::prelude::*;

verus! {

/// The lower-case hexadecimal digit of a number below 16.
pub open spec fn hex_digit(n: int) -> char {
    if n < 10 {
        (48 + n) as char
    } else {
        (87 + n) as char
    }
}

/// The number that a hexadecimal digit of either case stands for.
pub open spec fn digit_value(c: char) -> Option<int> {
    if '0' <= c <= '9' {
        Some(c as int - 48)
    } else if 'a' <= c <= 'f' {
        Some(c as int - 87)
    } else if 'A' <= c <= 'F' {
        Some(c as int - 55)
    } else {
        None
    }
}

/// The last `n` hexadecimal digits of `v`, leading zeros kept.
pub open spec fn hex_digits(v: int, n: nat) -> Seq<char>
    decreases n,
{
    if n == 0 {
        Seq::empty()
    } else {
        hex_digits(v / 16, (n - 1) as nat).push(hex_digit(v % 16))
    }
}

/// The number that a run of hexadecimal digits stands for, if all are digits.
pub open spec fn digits_value(s: Seq<char>) -> Option<int>
    decreases s.len(),
{
    if s.len() == 0 {
        Some(0)
    } else {
        match (digits_value(s.drop_last()), digit_value(s.last())) {
            (Some(high), Some(low)) => Some(high * 16 + low),
            _ => None,
        }
    }
}

/// A text without its trailing zeros.
pub open spec fn without_trailing_zeros(s: Seq<char>) -> Seq<char>
    decreases s.len(),
{
    if s.len() > 0 && s.last() == '0' {
        without_trailing_zeros(s.drop_last())
    } else {
        s
    }
}

/// The token of a cell identifier: its sixteen hexadecimal digits without the trailing zeros,
/// or `X` for the identifier 0.
pub open spec fn token(id: u64) -> Seq<char> {
    if id == 0 {
        seq!['X']
    } else {
        without_trailing_zeros(hex_digits(id as int, 16))
    }
}

/// The digits of a token: what follows an optional plus sign.
pub open spec fn token_digits(s: Seq<char>) -> Seq<char> {
    if s.len() > 0 && s[0] == '+' {
        s.skip(1)
    } else {
        s
    }
}

/// The cell identifier that a text stands for when it is read as a token: zeros are added
/// behind a text shorter than sixteen characters. A text without digits, with anything else
/// in it, or whose number is too large stands for 0.
pub open spec fn token_value(s: Seq<char>) -> int {
    match digits_value(token_digits(s)) {
        Some(v) => if token_digits(s).len() == 0 || v > u64::MAX {
            0
        } else if s.len() < 16 {
            v * pow(16, (16 - s.len()) as nat)
        } else {
            v
        },
        None => 0,
    }
}

/// Calls `CellID::to_token` of the `s2` crate, which strips the trailing zeros from sixteen
/// lower-case hexadecimal digits and writes `X` for the identifier 0.
#[verifier::external_body]
pub(crate) fn cell_to_token(id: u64) -> (text: String)
    ensures
        text@ == token(id),
{
    CellID(id).to_token()
}

/// Calls `CellID::from_token` of the `s2` crate, which reads the text as a hexadecimal `u64`
/// with an optional plus sign, shifts the number of a text shorter than sixteen bytes to the
/// top, and takes what it cannot read for 0.
#[verifier::external_body]
pub(crate) fn cell_from_token(text: &str) -> (id: u64)
    ensures
        id == token_value(text@),
{
    CellID::from_token(text).0
}

/// Digits written are digits read.
proof fn lemma_hex_digits(v: int, n: nat)
    requires
        0 <= v < pow(16, n),
    ensures
        hex_digits(v, n).len() == n,
        digits_value(hex_digits(v, n)) == Some(v),
    decreases n,
{
    reveal(pow);
    if n > 0 {
        lemma_hex_digits(v / 16, (n - 1) as nat);
        let s = hex_digits(v, n);
        assert(s.drop_last() == hex_digits(v / 16, (n - 1) as nat));
    }
}

/// What the trailing zeros of a number are worth.
proof fn lemma_without_trailing_zeros(s: Seq<char>)
    requires
        digits_value(s) is Some,
    ensures
        without_trailing_zeros(s).len() <= s.len(),
        digits_value(without_trailing_zeros(s)) is Some,
        digits_value(s)->0 == digits_value(without_trailing_zeros(s))->0 * pow(
            16,
            (s.len() - without_trailing_zeros(s).len()) as nat,
        ),
    decreases s.len(),
{
    reveal(pow);
    if s.len() > 0 && s.last() == '0' {
        lemma_without_trailing_zeros(s.drop_last());
        let v = digits_value(without_trailing_zeros(s))->0;
        let n = (s.len() - without_trailing_zeros(s).len()) as nat;
        assert((v * pow(16, (n - 1) as nat)) * 16 == v * (16 * pow(16, (n - 1) as nat)))
            by (nonlinear_arith);
    }
}

/// All characters of a number that can be read are digits.
proof fn lemma_digits_are_digits(s: Seq<char>, i: int)
    requires
        digits_value(s) is Some,
        0 <= i < s.len(),
    ensures
        digit_value(s[i]) is Some,
    decreases s.len(),
{
    if i < s.len() - 1 {
        lemma_digits_are_digits(s.drop_last(), i);
    }
}

/// Sixteen digits hold every identifier.
proof fn lemma_sixteen_digits(id: u64)
    ensures
        hex_digits(id as int, 16).len() == 16,
        digits_value(hex_digits(id as int, 16)) == Some(id as int),
{
    assert(pow(16, 16) == 0x1_0000_0000_0000_0000) by {
        reveal_with_fuel(pow, 17);
    }
    lemma_hex_digits(id as int, 16);
}

/// A token is one to sixteen characters long, and each of them is a hexadecimal digit or `X`.
pub proof fn law_token_characters(id: u64)
    ensures
        1 <= token(id).len() <= 16,
        forall|i: int|
            0 <= i < token(id).len() ==> digit_value(#[trigger] token(id)[i]) is Some || token(
                id,
            )[i] == 'X',
{
    if id != 0 {
        let s = hex_digits(id as int, 16);
        lemma_sixteen_digits(id);
        lemma_without_trailing_zeros(s);
        if token(id).len() == 0 {
            assert(digits_value(token(id)) == Some(0int));
            assert(0 * pow(16, 16) == 0) by (nonlinear_arith);
        }
        assert forall|i: int| 0 <= i < token(id).len() implies digit_value(
            #[trigger] token(id)[i],
        ) is Some by {
            lemma_digits_are_digits(token(id), i);
        }
    }
}

/// The token of a cell identifier is read back as that identifier.
pub proof fn law_token_round_trip(id: u64)
    ensures
        token_value(token(id)) == id,
{
    law_token_characters(id);
    let t = token(id);
    if id == 0 {
        assert(token_digits(t) == t);
        assert(digit_value(t.last()) is None);
    } else {
        let s = hex_digits(id as int, 16);
        lemma_sixteen_digits(id);
        lemma_without_trailing_zeros(s);
        lemma_digits_are_digits(t, 0);
        assert(token_digits(t) == t);
        let v = digits_value(t)->0;
        let p = pow(16, (16 - t.len()) as nat);
        lemma_pow_positive(16, (16 - t.len()) as nat);
        assert(v <= id) by (nonlinear_arith)
            requires
                id == v * p,
                p > 0,
                id > 0,
        ;
        if t.len() == 16 {
            lemma_pow0(16);
        }
    }
}

/// Two cell identifiers with one token are the same.
pub proof fn law_tokens_differ(a: u64, b: u64)
    requires
        token(a) == token(b),
    ensures
        a == b,
{
    law_token_round_trip(a);
    law_token_round_trip(b);
}

} // verus!
