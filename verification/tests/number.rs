use gnuplot_rs::number::Number;

fn notation(text: &str) -> Option<String> {
    Number::parse(text).map(|n| String::from(n.as_str()))
}

#[test]
fn decimals_are_numbers() {
    assert_eq!(notation("0"), Some(String::from("0")));
    assert_eq!(notation("42"), Some(String::from("42")));
    assert_eq!(notation("-7"), Some(String::from("-7")));
    assert_eq!(notation("3.25"), Some(String::from("3.25")));
    assert_eq!(notation("-0.5"), Some(String::from("-0.5")));
    assert_eq!(notation("007"), Some(String::from("007")));
}

#[test]
fn words_for_what_is_not_finite_are_numbers() {
    assert_eq!(notation("NaN"), Some(String::from("NaN")));
    assert_eq!(notation("inf"), Some(String::from("inf")));
    assert_eq!(notation("-inf"), Some(String::from("-inf")));
}

#[test]
fn other_texts_are_no_numbers() {
    for text in [
        "", "-", ".", "1.", ".5", "-.5", "1..2", "1.2.3", "1 2", " 1", "1 ", "1\n", "e", "1e5",
        "--1", "+1", "inf ", "nan", "-NaN", "Inf", "infinity", "1,5", "0x10", "١",
    ] {
        assert!(Number::parse(text).is_none(), "{:?}", text);
    }
}

#[test]
fn every_float_is_written_as_a_number() {
    let values = [
        0.0,
        -0.0,
        1.0,
        -1.0,
        0.1,
        2.5,
        -8.75,
        1e21,
        1e300,
        1e-7,
        123456789.125,
        f64::MAX,
        f64::MIN,
        f64::MIN_POSITIVE,
        5e-324,
        f64::EPSILON,
        f64::NAN,
        f64::INFINITY,
        f64::NEG_INFINITY,
        std::f64::consts::PI,
    ];
    for value in values {
        let text = value.to_string();
        assert_eq!(notation(&text), Some(text.clone()), "{:?}", text);
    }
}

#[test]
fn many_floats_are_written_as_numbers() {
    let mut bits: u64 = 0x9E37_79B9_7F4A_7C15;
    let mut count = 0;
    while count < 20000 {
        bits = bits.wrapping_mul(6364136223846793005).wrapping_add(1442695040888963407);
        let text = f64::from_bits(bits).to_string();
        assert!(Number::parse(&text).is_some(), "{:?}", text);
        count += 1;
    }
}
