use duckdb_raster::double::{
    absolute, greatest_of, is_not_a_number, least_of, less_than, negate, widen_single, widen_whole,
    INFINITY, MINUS_INFINITY, MINUS_ONE, NAN, ONE, ZERO,
};
use duckdb_raster::text::{contains_text, decimal_text, is_white_space, split_at_char, trim};

const NUMBERS: [f64; 14] = [
    0.0,
    -0.0,
    1.0,
    -1.0,
    5e-324,
    -5e-324,
    2.2250738585072014e-308,
    1.5,
    1.5000000000000002,
    -1e300,
    f64::MAX,
    f64::INFINITY,
    f64::NEG_INFINITY,
    f64::NAN,
];

#[test]
fn white_space_is_that_of_unicode() {
    for n in 0..0x11_0000u32 {
        if let Some(c) = char::from_u32(n) {
            assert_eq!(is_white_space(c), c.is_whitespace(), "{}", n);
        }
    }
}

#[test]
fn trimming() {
    for s in ["", " ", "a", " a ", "\u{3000}\ta b\r\n", "\u{200b}a", "  \n"] {
        assert_eq!(trim(s), s.trim());
    }
}

#[test]
fn splitting() {
    for s in ["", ",", "a", "a,b", ",a,,b,", "ä,ö"] {
        let expected: Vec<&str> = s.split(',').collect();
        assert_eq!(split_at_char(s, ','), expected);
    }
}

#[test]
fn joined_pieces_are_split_again() {
    let pieces: Vec<String> = vec!["".to_string(), "x y".to_string(), "z".to_string()];
    assert_eq!(split_at_char(pieces.join(";").as_str(), ';'), pieces);
}

#[test]
fn searching() {
    assert!(contains_text("", "") && contains_text("abc", "") && contains_text("abc", "abc"));
    assert!(contains_text("xNODATA=", "NODATA") && contains_text("aab", "ab"));
    assert!(!contains_text("NODAT", "NODATA") && !contains_text("nodata", "NODATA"));
    assert!(!contains_text("", "a") && contains_text("äöü", "ü"));
}

#[test]
fn decimal_digits() {
    for n in [0u16, 7, 10, 99, 100, 4326, 65535] {
        assert_eq!(decimal_text(n), n.to_string());
    }
}

#[test]
fn patterns_of_named_numbers() {
    assert_eq!(ZERO, 0.0f64.to_bits());
    assert_eq!(ONE, 1.0f64.to_bits());
    assert_eq!(MINUS_ONE, (-1.0f64).to_bits());
    assert_eq!(INFINITY, f64::INFINITY.to_bits());
    assert_eq!(MINUS_INFINITY, f64::NEG_INFINITY.to_bits());
    assert_eq!(NAN, f64::NAN.to_bits());
}

#[test]
fn order_of_patterns_is_that_of_numbers() {
    for a in NUMBERS {
        for b in NUMBERS {
            assert_eq!(less_than(a.to_bits(), b.to_bits()), a < b, "{} {}", a, b);
        }
        assert_eq!(is_not_a_number(a.to_bits()), a.is_nan());
    }
}

#[test]
fn signs_of_patterns() {
    for a in NUMBERS {
        assert_eq!(negate(a.to_bits()), (-a).to_bits());
        assert_eq!(absolute(a.to_bits()), a.abs().to_bits());
    }
}

#[test]
fn least_and_greatest() {
    let bits: Vec<u64> = [3.5, f64::NAN, -2.0, 7.25].iter().map(|v: &f64| v.to_bits()).collect();
    assert_eq!(least_of(&bits), (-2.0f64).to_bits());
    assert_eq!(greatest_of(&bits), 7.25f64.to_bits());
    assert_eq!(least_of(&[]), INFINITY);
    assert_eq!(greatest_of(&[]), MINUS_INFINITY);
    assert_eq!(least_of(&[NAN, NAN]), INFINITY);
    assert_eq!(greatest_of(&[NAN]), MINUS_INFINITY);
}

#[test]
fn whole_numbers_are_widened_exactly() {
    for n in 0..=u16::MAX {
        assert_eq!(widen_whole(n), (n as f64).to_bits());
    }
}

#[test]
fn singles_are_widened_exactly() {
    let mut bits: u32 = 0;
    loop {
        let v: f32 = f32::from_bits(bits);
        if v.is_nan() {
            assert!(is_not_a_number(widen_single(bits)));
        } else {
            assert_eq!(widen_single(bits), (v as f64).to_bits(), "{}", bits);
        }
        match bits.checked_add(9973) {
            Some(next) => bits = next,
            None => return,
        }
    }
}

#[test]
fn special_singles() {
    for v in [
        0.0f32,
        -0.0,
        1.0,
        f32::MIN_POSITIVE,
        f32::MAX,
        f32::MIN,
        f32::INFINITY,
        f32::NEG_INFINITY,
    ] {
        assert_eq!(widen_single(v.to_bits()), (v as f64).to_bits());
    }
    assert_eq!(widen_single(1), (f32::from_bits(1) as f64).to_bits());
    assert_eq!(widen_single(0x007f_ffff), (f32::from_bits(0x007f_ffff) as f64).to_bits());
    assert!(is_not_a_number(widen_single(f32::NAN.to_bits())));
}

#[test]
fn pieces_are_joined_again() {
    for s in ["", ",", "a,b", ",,a,"] {
        assert_eq!(split_at_char(s, ',').join(","), s);
    }
}

#[test]
fn trimming_again_changes_nothing() {
    for s in ["", "  x y\t", "\n\n", "z"] {
        let once: String = trim(s);
        assert_eq!(trim(once.as_str()), once);
        assert!(!once.starts_with(char::is_whitespace) && !once.ends_with(char::is_whitespace));
    }
}

#[test]
fn no_number_lies_outside_least_and_greatest() {
    let bits: Vec<u64> = NUMBERS.iter().map(|v| v.to_bits()).collect();
    for &b in bits.iter() {
        assert!(!less_than(b, least_of(&bits)) && !less_than(greatest_of(&bits), b));
    }
}
