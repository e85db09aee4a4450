//! Double-precision numbers as bit patterns: order, sign, least and greatest, and the exact
//! conversion of smaller numbers.
use vstd::arithmetic::power2::*;
use vstd::prelude::*;

verus! {

/// The bit pattern of zero.
pub const ZERO: u64 = 0;

/// The bit pattern of 1.
pub const ONE: u64 = 0x3ff0_0000_0000_0000;

/// The bit pattern of -1.
pub const MINUS_ONE: u64 = 0xbff0_0000_0000_0000;

/// The bit pattern of infinity.
pub const INFINITY: u64 = 0x7ff0_0000_0000_0000;

/// The bit pattern of minus infinity.
pub const MINUS_INFINITY: u64 = 0xfff0_0000_0000_0000;

/// The bit pattern of a NaN.
pub const NAN: u64 = 0x7ff8_0000_0000_0000;

/// The sign bit of a double.
pub const SIGN: u64 = 0x8000_0000_0000_0000;

/// The mark of a single's sign.
pub const SINGLE_SIGN: u32 = 0x8000_0000;

/// The bit pattern of infinity as a single.
pub const SINGLE_INFINITY: u32 = 0x7f80_0000;

/// One in the exponent of a double.
pub const DOUBLE_STEP: u64 = 0x10_0000_0000_0000;

/// One in the exponent of a single.
pub const SINGLE_STEP: u32 = 0x80_0000;

/// The value of a pattern without sign, in units of the smallest number that is not zero: the
/// exponent stands above the fraction, and `step` is one in the exponent. Infinity counts as
/// the number behind the greatest.
pub open spec fn magnitude_value(m: int, step: int) -> int {
    if m / step == 0 {
        m
    } else {
        (step + m % step) * pow2((m / step - 1) as nat)
    }
}

/// A double without its sign.
pub open spec fn magnitude(bits: u64) -> u64 {
    if bits >= SIGN {
        (bits - SIGN) as u64
    } else {
        bits
    }
}

/// Whether a double is a NaN.
pub open spec fn is_nan(bits: u64) -> bool {
    magnitude(bits) > INFINITY
}

/// The value of a double, in units of 2 to the -1074th.
pub open spec fn value(bits: u64) -> int {
    if bits >= SIGN {
        -magnitude_value(magnitude(bits) as int, DOUBLE_STEP as int)
    } else {
        magnitude_value(bits as int, DOUBLE_STEP as int)
    }
}

/// A single without its sign.
pub open spec fn single_magnitude(bits: u32) -> u32 {
    if bits >= SINGLE_SIGN {
        (bits - SINGLE_SIGN) as u32
    } else {
        bits
    }
}

/// Whether a single is a NaN.
pub open spec fn single_is_nan(bits: u32) -> bool {
    single_magnitude(bits) > SINGLE_INFINITY
}

/// The value of a single, in units of 2 to the -149th.
pub open spec fn single_value(bits: u32) -> int {
    if bits >= SINGLE_SIGN {
        -magnitude_value(single_magnitude(bits) as int, SINGLE_STEP as int)
    } else {
        magnitude_value(bits as int, SINGLE_STEP as int)
    }
}

/// Whether one double is less than another; a NaN is not.
pub open spec fn less(a: u64, b: u64) -> bool {
    !is_nan(a) && !is_nan(b) && value(a) < value(b)
}

/// A larger pattern without sign has a larger value.
proof fn lemma_magnitudes(a: int, b: int, step: int)
    requires
        0 <= a < b,
        step > 0,
    ensures
        0 <= magnitude_value(a, step) < magnitude_value(b, step),
{
    let ea = a / step;
    let eb = b / step;
    assert(0 <= ea <= eb && a == ea * step + a % step && b == eb * step + b % step && 0 <= a % step
        < step && 0 <= b % step < step) by (nonlinear_arith)
        requires
            0 <= a < b,
            step > 0,
            ea == a / step,
            eb == b / step,
    ;
    if ea == eb {
        if ea > 0 {
            let p = pow2((ea - 1) as nat) as int;
            lemma_pow2_pos((ea - 1) as nat);
            assert(0 <= (step + a % step) * p < (step + b % step) * p) by (nonlinear_arith)
                requires
                    0 <= a % step < b % step,
                    step > 0,
                    p > 0,
            ;
        }
    } else {
        let q = pow2((eb - 1) as nat) as int;
        lemma_pow2_pos((eb - 1) as nat);
        assert(step * q <= (step + b % step) * q) by (nonlinear_arith)
            requires
                0 <= b % step,
                q > 0,
        ;
        if ea == 0 {
            assert(a % step == a) by (nonlinear_arith)
                requires
                    a == 0 * step + a % step,
            ;
            assert(step <= step * q) by (nonlinear_arith)
                requires
                    step > 0,
                    q > 0,
            ;
        } else {
            let p = pow2((ea - 1) as nat) as int;
            lemma_pow2_pos((ea - 1) as nat);
            lemma_pow2_unfold(ea as nat);
            assert(2 * p <= q) by {
                if ea < eb - 1 {
                    lemma_pow2_strictly_increases(ea as nat, (eb - 1) as nat);
                }
            }
            assert(0 <= (step + a % step) * p < step * q) by (nonlinear_arith)
                requires
                    0 <= a % step < step,
                    p > 0,
                    2 * p <= q,
            ;
        }
    }
}

/// The order of patterns without sign is the order of their values.
proof fn lemma_magnitude_order(a: int, b: int, step: int)
    requires
        0 <= a,
        0 <= b,
        step > 0,
    ensures
        a < b <==> magnitude_value(a, step) < magnitude_value(b, step),
        magnitude_value(a, step) == 0 <==> a == 0,
        magnitude_value(a, step) >= 0,
{
    if a < b {
        lemma_magnitudes(a, b, step);
    }
    if b < a {
        lemma_magnitudes(b, a, step);
    }
    lemma_magnitudes(a, a + 1, step);
    assert(magnitude_value(0, step) == 0) by {
        assert(0int / step == 0) by (nonlinear_arith)
            requires
                step > 0,
        ;
    }
    if a > 0 {
        lemma_magnitudes(0, a, step);
    }
}

/// Two doubles of one sign and one value are the same.
pub proof fn law_value_is_exact(a: u64, b: u64)
    requires
        a >= SIGN <==> b >= SIGN,
        value(a) == value(b),
    ensures
        a == b,
{
    let ma: int = magnitude(a) as int;
    let mb: int = magnitude(b) as int;
    lemma_magnitude_order(ma, mb, DOUBLE_STEP as int);
    lemma_magnitude_order(mb, ma, DOUBLE_STEP as int);
}

/// A double without its sign.
fn unsigned(bits: u64) -> (m: u64)
    ensures
        m == magnitude(bits),
{
    if bits >= SIGN {
        bits - SIGN
    } else {
        bits
    }
}

/// Tests whether a double is a NaN.
pub fn is_not_a_number(bits: u64) -> (nan: bool)
    ensures
        nan == is_nan(bits),
{
    unsigned(bits) > INFINITY
}

/// Tests whether one double is less than another.
pub fn less_than(a: u64, b: u64) -> (r: bool)
    ensures
        r == less(a, b),
{
    if is_not_a_number(a) || is_not_a_number(b) {
        return false;
    }
    let ma: u64 = unsigned(a);
    let mb: u64 = unsigned(b);
    proof {
        lemma_magnitude_order(ma as int, mb as int, DOUBLE_STEP as int);
        lemma_magnitude_order(mb as int, ma as int, DOUBLE_STEP as int);
    }
    if a < SIGN {
        b < SIGN && ma < mb
    } else if b < SIGN {
        ma > 0 || mb > 0
    } else {
        mb < ma
    }
}

/// The number of the same size without a minus sign.
pub fn absolute(bits: u64) -> (r: u64)
    ensures
        r == magnitude(bits),
        value(r) >= 0,
        value(r) == value(bits) || value(r) == -value(bits),
        is_nan(r) == is_nan(bits),
{
    proof {
        lemma_magnitude_order(magnitude(bits) as int, 0, DOUBLE_STEP as int);
    }
    unsigned(bits)
}

/// A double with the other sign.
pub open spec fn negative(bits: u64) -> u64 {
    if bits >= SIGN {
        (bits - SIGN) as u64
    } else {
        (bits + SIGN) as u64
    }
}

/// The number with the other sign.
pub fn negate(bits: u64) -> (r: u64)
    ensures
        r == negative(bits),
        value(r) == -value(bits),
        is_nan(r) == is_nan(bits),
{
    if bits >= SIGN {
        bits - SIGN
    } else {
        bits + SIGN
    }
}

/// The least of some numbers, where NaNs do not count, and infinity of no number.
pub open spec fn least(numbers: Seq<u64>) -> u64
    decreases numbers.len(),
{
    if numbers.len() == 0 {
        INFINITY
    } else {
        let rest = least(numbers.drop_last());
        if less(numbers.last(), rest) {
            numbers.last()
        } else {
            rest
        }
    }
}

/// The greatest of some numbers, where NaNs do not count, and minus infinity of no number.
pub open spec fn greatest(numbers: Seq<u64>) -> u64
    decreases numbers.len(),
{
    if numbers.len() == 0 {
        MINUS_INFINITY
    } else {
        let rest = greatest(numbers.drop_last());
        if less(rest, numbers.last()) {
            numbers.last()
        } else {
            rest
        }
    }
}

/// Finds the least of some numbers.
pub fn least_of(numbers: &[u64]) -> (r: u64)
    ensures
        r == least(numbers@),
{
    let mut r: u64 = INFINITY;
    assert(numbers@.take(0) == Seq::<u64>::empty());
    for i in 0..numbers.len()
        invariant
            r == least(numbers@.take(i as int)),
    {
        assert(numbers@.take(i + 1).drop_last() == numbers@.take(i as int));
        if less_than(numbers[i], r) {
            r = numbers[i];
        }
    }
    assert(numbers@.take(numbers@.len() as int) == numbers@);
    r
}

/// Finds the greatest of some numbers.
pub fn greatest_of(numbers: &[u64]) -> (r: u64)
    ensures
        r == greatest(numbers@),
{
    let mut r: u64 = MINUS_INFINITY;
    assert(numbers@.take(0) == Seq::<u64>::empty());
    for i in 0..numbers.len()
        invariant
            r == greatest(numbers@.take(i as int)),
    {
        assert(numbers@.take(i + 1).drop_last() == numbers@.take(i as int));
        if less_than(r, numbers[i]) {
            r = numbers[i];
        }
    }
    assert(numbers@.take(numbers@.len() as int) == numbers@);
    r
}

/// The least of some numbers is not greater than any of them, and is one of them unless there
/// is none below infinity.
pub proof fn law_least(numbers: Seq<u64>)
    ensures
        !is_nan(least(numbers)),
        forall|i: int|
            0 <= i < numbers.len() && !is_nan(#[trigger] numbers[i]) ==> value(least(numbers))
                <= value(numbers[i]),
        least(numbers) == INFINITY || numbers.contains(least(numbers)),
    decreases numbers.len(),
{
    if numbers.len() > 0 {
        let first = numbers.drop_last();
        law_least(first);
        assert(numbers[numbers.len() - 1] == numbers.last());
        assert forall|i: int|
            0 <= i < numbers.len() && !is_nan(#[trigger] numbers[i]) implies value(least(numbers))
            <= value(numbers[i]) by {
            if i < numbers.len() - 1 {
                assert(first[i] == numbers[i]);
            }
        }
        if first.contains(least(first)) {
            let k = choose|k: int| 0 <= k < first.len() && first[k] == least(first);
            assert(numbers[k] == least(first));
        }
    }
}

/// The greatest of some numbers is not less than any of them, and is one of them unless there
/// is none above minus infinity.
pub proof fn law_greatest(numbers: Seq<u64>)
    ensures
        !is_nan(greatest(numbers)),
        forall|i: int|
            0 <= i < numbers.len() && !is_nan(#[trigger] numbers[i]) ==> value(greatest(numbers))
                >= value(numbers[i]),
        greatest(numbers) == MINUS_INFINITY || numbers.contains(greatest(numbers)),
    decreases numbers.len(),
{
    if numbers.len() > 0 {
        let first = numbers.drop_last();
        law_greatest(first);
        assert(numbers[numbers.len() - 1] == numbers.last());
        assert forall|i: int|
            0 <= i < numbers.len() && !is_nan(#[trigger] numbers[i]) implies value(
            greatest(numbers),
        ) >= value(numbers[i]) by {
            if i < numbers.len() - 1 {
                assert(first[i] == numbers[i]);
            }
        }
        if first.contains(greatest(first)) {
            let k = choose|k: int| 0 <= k < first.len() && first[k] == greatest(first);
            assert(numbers[k] == greatest(first));
        }
    }
}

/// No number is beyond the infinities, and one that is as large as an infinity is that infinity.
proof fn lemma_infinities(bits: u64)
    requires
        !is_nan(bits),
    ensures
        value(MINUS_INFINITY) <= value(bits) <= value(INFINITY),
        value(bits) == value(INFINITY) ==> bits == INFINITY,
        value(bits) == value(MINUS_INFINITY) ==> bits == MINUS_INFINITY,
{
    let m: int = magnitude(bits) as int;
    lemma_magnitude_order(m, INFINITY as int, DOUBLE_STEP as int);
    lemma_magnitude_order(INFINITY as int, m, DOUBLE_STEP as int);
}

/// Where there is a number, the least and the greatest are among the numbers.
pub proof fn law_least_and_greatest_occur(numbers: Seq<u64>, i: int)
    requires
        0 <= i < numbers.len(),
        !is_nan(numbers[i]),
    ensures
        numbers.contains(least(numbers)),
        numbers.contains(greatest(numbers)),
{
    law_least(numbers);
    law_greatest(numbers);
    lemma_infinities(numbers[i]);
}

/// No number lies outside the least and the greatest of the numbers that it is one of.
pub proof fn law_within_least_and_greatest(numbers: Seq<u64>, i: int)
    requires
        0 <= i < numbers.len(),
    ensures
        !less(numbers[i], least(numbers)),
        !less(greatest(numbers), numbers[i]),
{
    law_least(numbers);
    law_greatest(numbers);
}

/// A power of two below a bound.
proof fn lemma_shift_bound(k: nat, m: int)
    requires
        pow2(k) <= m < 2 * DOUBLE_STEP,
    ensures
        k <= 52,
{
    lemma2_to64_rest();
    if k > 53 {
        lemma_pow2_strictly_increases(53, k);
    }
}

/// The double of the value `n` times 2 to the `power`th, in units of the smallest double.
fn encode(n: u32, power: u32) -> (bits: u64)
    requires
        0 < n < 0x100_0000,
        100 <= power <= 2000,
    ensures
        bits < INFINITY,
        value(bits) == n * pow2(power as nat),
{
    let mut m: u64 = n as u64 * 0x2000_0000;
    let mut p: u32 = power - 29;
    proof {
        lemma2_to64();
        lemma_pow2_adds(29, p as nat);
        assert((n * 0x2000_0000) * pow2(p as nat) == n * (0x2000_0000 * pow2(p as nat)))
            by (nonlinear_arith);
    }
    while m < DOUBLE_STEP
        invariant
            m < 2 * DOUBLE_STEP,
            100 <= power <= 2000,
            p <= power,
            pow2((power - p) as nat) <= m,
            m * pow2(p as nat) == n * pow2(power as nat),
        decreases p,
    {
        proof {
            lemma_shift_bound((power - p) as nat, m as int);
            lemma_pow2_unfold((power - p + 1) as nat);
            lemma_pow2_unfold(p as nat);
            assert((2 * m) * pow2((p - 1) as nat) == m * (2 * pow2((p - 1) as nat)))
                by (nonlinear_arith);
        }
        m = m * 2;
        p = p - 1;
    }
    proof {
        lemma_shift_bound((power - p) as nat, m as int);
    }
    let bits: u64 = (p as u64 + 1) * DOUBLE_STEP + (m - DOUBLE_STEP);
    bits
}

/// Whether a double is the same number as a single.
pub open spec fn is_widened(single: u32, bits: u64) -> bool {
    if single_is_nan(single) {
        is_nan(bits)
    } else if single_magnitude(single) == SINGLE_INFINITY {
        bits == if single >= SINGLE_SIGN {
            MINUS_INFINITY
        } else {
            INFINITY
        }
    } else {
        &&& magnitude(bits) < INFINITY
        &&& bits >= SIGN <==> single >= SINGLE_SIGN
        &&& value(bits) == single_value(single) * pow2(925)
    }
}

/// Turns a single into the double of the same value.
pub fn widen_single(single: u32) -> (bits: u64)
    ensures
        is_widened(single, bits),
{
    let m: u32 = if single >= SINGLE_SIGN {
        single - SINGLE_SIGN
    } else {
        single
    };
    let size: u64 = if m > SINGLE_INFINITY {
        NAN
    } else if m == SINGLE_INFINITY {
        INFINITY
    } else if m == 0 {
        ZERO
    } else if m < SINGLE_STEP {
        encode(m, 925)
    } else {
        encode(SINGLE_STEP + m % SINGLE_STEP, 925 + (m / SINGLE_STEP - 1))
    };
    proof {
        if 0 < m < SINGLE_INFINITY {
            let e: int = m as int / SINGLE_STEP as int;
            if e > 0 {
                lemma_pow2_adds((e - 1) as nat, 925);
                let n: int = SINGLE_STEP + m % SINGLE_STEP;
                assert(n * (pow2((e - 1) as nat) * pow2(925)) == (n * pow2((e - 1) as nat)) * pow2(
                    925,
                )) by (nonlinear_arith);
            }
        }
        assert(value(size) == magnitude_value(size as int, DOUBLE_STEP as int));
        let v: int = magnitude_value(m as int, SINGLE_STEP as int);
        assert((-v) * pow2(925) == -(v * pow2(925))) by (nonlinear_arith);
        assert(0 * pow2(925) == 0);
    }
    if single >= SINGLE_SIGN {
        size + SIGN
    } else {
        size
    }
}

/// Turns a whole number into the double of the same value.
pub fn widen_whole(n: u16) -> (bits: u64)
    ensures
        bits < INFINITY,
        value(bits) == n * pow2(1074),
{
    if n == 0 {
        assert(0 * pow2(1074) == 0);
        return ZERO;
    }
    encode(n as u32, 1074)
}

/// What a double stands for: its top bit is the sign, the next eleven are the exponent, and the
/// others are the fraction.
pub proof fn law_double(bits: u64, sign: int, exponent: int, fraction: int)
    requires
        sign == 0 || sign == 1,
        0 <= exponent < 0x800,
        0 <= fraction < 0x10_0000_0000_0000,
        bits == sign * 0x8000_0000_0000_0000 + exponent * 0x10_0000_0000_0000 + fraction,
    ensures
        is_nan(bits) <==> exponent == 0x7ff && fraction != 0,
        sign == 0 && exponent == 0 ==> value(bits) == fraction,
        sign == 1 && exponent == 0 ==> value(bits) == -fraction,
        sign == 0 && exponent > 0 ==> value(bits) == (0x10_0000_0000_0000 + fraction) * pow2(
            (exponent - 1) as nat,
        ),
        sign == 1 && exponent > 0 ==> value(bits) == -((0x10_0000_0000_0000 + fraction) * pow2(
            (exponent - 1) as nat,
        )),
        sign == 0 ==> magnitude(bits) == bits,
        magnitude(bits) == exponent * 0x10_0000_0000_0000 + fraction,
{
}

/// What a single stands for: its top bit is the sign, the next eight are the exponent, and the
/// others are the fraction.
pub proof fn law_single(bits: u32, sign: int, exponent: int, fraction: int)
    requires
        sign == 0 || sign == 1,
        0 <= exponent < 0x100,
        0 <= fraction < 0x80_0000,
        bits == sign * 0x8000_0000 + exponent * 0x80_0000 + fraction,
    ensures
        single_is_nan(bits) <==> exponent == 0xff && fraction != 0,
        sign == 0 && exponent == 0 ==> single_value(bits) == fraction,
        sign == 1 && exponent == 0 ==> single_value(bits) == -fraction,
        sign == 0 && exponent > 0 ==> single_value(bits) == (0x80_0000 + fraction) * pow2(
            (exponent - 1) as nat,
        ),
        sign == 1 && exponent > 0 ==> single_value(bits) == -((0x80_0000 + fraction) * pow2(
            (exponent - 1) as nat,
        )),
        single_magnitude(bits) == exponent * 0x80_0000 + fraction,
{
}

/// One number is less than another just where both are numbers and its value is less.
pub proof fn law_less(a: u64, b: u64)
    ensures
        less(a, b) <==> !is_nan(a) && !is_nan(b) && value(a) < value(b),
{
}

/// The number with the other sign has the other sign and the same size; twice that is the number
/// itself.
pub proof fn law_negative(bits: u64)
    ensures
        bits < 0x8000_0000_0000_0000 ==> negative(bits) == bits + 0x8000_0000_0000_0000,
        bits >= 0x8000_0000_0000_0000 ==> negative(bits) == bits - 0x8000_0000_0000_0000,
        magnitude(negative(bits)) == magnitude(bits),
        value(negative(bits)) == -value(bits),
        negative(negative(bits)) == bits,
{
}

/// With one number more, the least is that number if it is less, and otherwise what it was.
pub proof fn law_least_with_one_more(numbers: Seq<u64>, n: u64)
    ensures
        least(Seq::<u64>::empty()) == 0x7ff0_0000_0000_0000,
        !is_nan(n) && value(n) < value(least(numbers)) ==> least(numbers.push(n)) == n,
        is_nan(n) || value(n) >= value(least(numbers)) ==> least(numbers.push(n)) == least(numbers),
{
    law_least(numbers);
    assert(numbers.push(n).drop_last() == numbers);
}

/// With one number more, the greatest is that number if it is greater, and otherwise what it was.
pub proof fn law_greatest_with_one_more(numbers: Seq<u64>, n: u64)
    ensures
        greatest(Seq::<u64>::empty()) == 0xfff0_0000_0000_0000,
        !is_nan(n) && value(n) > value(greatest(numbers)) ==> greatest(numbers.push(n)) == n,
        is_nan(n) || value(n) <= value(greatest(numbers)) ==> greatest(numbers.push(n)) == greatest(
            numbers,
        ),
{
    law_greatest(numbers);
    assert(numbers.push(n).drop_last() == numbers);
}

/// A single that is a number and the double that it is widened to have the same sign, and sizes
/// whose ratio is that of their units; infinities stay infinities and NaNs stay NaNs.
pub proof fn law_widened(single: u32, bits: u64)
    requires
        is_widened(single, bits),
    ensures
        single_is_nan(single) ==> is_nan(bits),
        single == 0x7f80_0000 ==> bits == 0x7ff0_0000_0000_0000,
        single == 0xff80_0000 ==> bits == 0xfff0_0000_0000_0000,
        single_magnitude(single) < 0x7f80_0000 ==> {
            &&& !is_nan(bits)
            &&& magnitude(bits) < 0x7ff0_0000_0000_0000
            &&& bits >= 0x8000_0000_0000_0000 <==> single >= 0x8000_0000
            &&& value(bits) == single_value(single) * pow2(925)
        },
{
}

/// There is just one double that a single which is no NaN is widened to.
pub proof fn law_widened_is_unique(single: u32, a: u64, b: u64)
    requires
        is_widened(single, a),
        is_widened(single, b),
        !single_is_nan(single),
    ensures
        a == b,
{
    if single_magnitude(single) < SINGLE_INFINITY {
        law_value_is_exact(a, b);
    }
}

} // verus!
