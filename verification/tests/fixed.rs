use statusline::fixed::parse_hundredths;

fn read(s: &str) -> Option<u32> {
    let chars: Vec<char> = s.chars().collect();
    parse_hundredths(&chars)
}

#[test]
fn parse_hundredths_reads_fixed_point_numbers() {
    assert_eq!(read("0"), Some(0));
    assert_eq!(read("1"), Some(100));
    assert_eq!(read("0.45"), Some(45));
    assert_eq!(read("0.4"), Some(40));
    assert_eq!(read("0.05"), Some(5));
    assert_eq!(read("1.00"), Some(100));
    assert_eq!(read("12.34"), Some(1234));
    assert_eq!(read("12."), Some(1200));
    assert_eq!(read(".34"), Some(34));
    assert_eq!(read("+1.5"), Some(150));
    assert_eq!(read("+.5"), Some(50));
    assert_eq!(read("000.50"), Some(50));
}

#[test]
fn parse_hundredths_cuts_off_after_two_places() {
    assert_eq!(read("0.999"), Some(99));
    assert_eq!(read("0.4599999999999999999999999999"), Some(45));
    assert_eq!(read("0.001"), Some(0));
    assert_eq!(read("1.239"), Some(123));
}

#[test]
fn parse_hundredths_stops_at_the_largest_number() {
    assert_eq!(read("42949672.94"), Some(4_294_967_294));
    assert_eq!(read("42949672.95"), Some(u32::MAX));
    assert_eq!(read("42949672.96"), Some(u32::MAX));
    assert_eq!(read("42949673"), Some(u32::MAX));
    assert_eq!(read("4294967295"), Some(u32::MAX));
    assert_eq!(read("4294967296.01"), Some(u32::MAX));
    assert_eq!(read("99999999999999999999999999999999999999.99"), Some(u32::MAX));
}

#[test]
fn parse_hundredths_moves_the_point_by_the_exponent() {
    assert_eq!(read("1e0"), Some(100));
    assert_eq!(read("1e1"), Some(1000));
    assert_eq!(read("1E+1"), Some(1000));
    assert_eq!(read("1e2"), Some(10_000));
    assert_eq!(read("1e-1"), Some(10));
    assert_eq!(read("1e-2"), Some(1));
    assert_eq!(read("1e-3"), Some(0));
    assert_eq!(read("12.5e-1"), Some(125));
    assert_eq!(read("12.5e1"), Some(12_500));
    assert_eq!(read("0.001e3"), Some(100));
    assert_eq!(read("0.0019e3"), Some(190));
    assert_eq!(read(".5e1"), Some(500));
    assert_eq!(read("5.e-1"), Some(50));
    assert_eq!(read("1.e5"), Some(10_000_000));
    assert_eq!(read("123456e-4"), Some(1234));
    assert_eq!(read("123456e-6"), Some(12));
    assert_eq!(read("123456e-7"), Some(1));
    assert_eq!(read("123456e-8"), Some(0));
    assert_eq!(read("0.0000000001e12"), Some(10_000));
    assert_eq!(read("1e-00002"), Some(1));
    assert_eq!(read("1e+0000000000000000000000000000000000002"), Some(10_000));
}

#[test]
fn parse_hundredths_holds_far_exponents() {
    assert_eq!(read("1e7"), Some(1_000_000_000));
    assert_eq!(read("4e7"), Some(4_000_000_000));
    assert_eq!(read("5e7"), Some(u32::MAX));
    assert_eq!(read("1e8"), Some(u32::MAX));
    assert_eq!(read("1e10"), Some(u32::MAX));
    assert_eq!(read("0.001e40"), Some(u32::MAX));
    assert_eq!(read("1e99999999999999999999999999999999999999"), Some(u32::MAX));
    assert_eq!(read("1e1267650600228229401496703205375"), Some(u32::MAX));
    assert_eq!(read("1e1267650600228229401496703205376"), Some(u32::MAX));
    assert_eq!(read("1e1267650600228229401496703205377"), Some(u32::MAX));
    assert_eq!(read("0e99999999999999999999999999999999999999"), Some(0));
    assert_eq!(read("0.000e1267650600228229401496703205377"), Some(0));
    assert_eq!(read("1e-99999999999999999999999999999999999999"), Some(0));
    assert_eq!(read("99999999999e-1267650600228229401496703205377"), Some(0));
    assert_eq!(read("98765432109876543210e-20"), Some(98));
}

#[test]
fn parse_hundredths_reads_the_three_words_in_any_case() {
    assert_eq!(read("inf"), Some(u32::MAX));
    assert_eq!(read("+inf"), Some(u32::MAX));
    assert_eq!(read("INF"), Some(u32::MAX));
    assert_eq!(read("infinity"), Some(u32::MAX));
    assert_eq!(read("+Infinity"), Some(u32::MAX));
    assert_eq!(read("iNfInItY"), Some(u32::MAX));
    assert_eq!(read("-inf"), Some(0));
    assert_eq!(read("-INFINITY"), Some(0));
    assert_eq!(read("nan"), Some(0));
    assert_eq!(read("NaN"), Some(0));
    assert_eq!(read("+NAN"), Some(0));
    assert_eq!(read("-nan"), Some(0));
}

#[test]
fn parse_hundredths_reads_a_negative_number_as_nothing() {
    assert_eq!(read("-0"), Some(0));
    assert_eq!(read("-0.30"), Some(0));
    assert_eq!(read("-5"), Some(0));
    assert_eq!(read("-1e30"), Some(0));
    assert_eq!(read("-.5"), Some(0));
}

#[test]
fn parse_hundredths_refuses_everything_else() {
    let refused = [
        "", "+", "-", ".", "+.", "-.", "e", "e5", ".e5", "+e5", "1e", "1e+", "1e-", "1e+-1",
        "1ee5", "1e5.0", "1e5e5", "1e 5", "1.2.3", "1..2", "1,5", "0x1", "1_0", " 1", "1 ", "1.5%",
        "1.+5", "++1", "+-1", "--1", "a.5", "5.a", "in", "infinit", "infinityy", "nane", "na",
        "i nf", "+", "١", "1f",
    ];
    for s in refused {
        assert_eq!(read(s), None);
    }
}

#[test]
fn parse_hundredths_takes_what_the_standard_library_takes_as_a_number() {
    let texts = [
        "", "0", "1", "-1", "+1", "1.", ".1", ".", "+.", "1.5", "1e5", "1E5", "1e+5", "1e-5",
        "1e", "e1", ".e1", "1.e1", ".1e1", "inf", "-inf", "+inf", "infinity", "INFINITY", "nan",
        "NaN", "-NAN", "in", "infinit", "nanx", "1 ", " 1", "1_000", "0x10", "1,5", "1e5.5",
        "1e1e1", "--1", "+-1", "1+", "0.45", "1.00", "١", "1f32", "1e99999", "1e-99999", "+", "-",
    ];
    for s in texts {
        assert_eq!(read(s).is_some(), s.parse::<f32>().is_ok());
    }
}

#[test]
fn parse_hundredths_agrees_with_rounding_for_two_decimal_places() {
    for whole in 0u32..3 {
        for cents in 0u32..100 {
            let text = format!("{}.{:02}", whole, cents);
            let number: f64 = text.parse().expect("a number");
            assert_eq!(read(&text), Some((number * 100.0).round() as u32));
        }
    }
}
