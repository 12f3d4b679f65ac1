use kdi_alignment::kdi::order::{ranked_key_le, text_key_le, text_pair_key_le};
use kdi_alignment::kdi::text::{
    chars_of, decimal_text, is_number_text, parse_usize, split_text, str_eq, str_le,
};

#[test]
fn decimal_text_writes_numerals() {
    assert_eq!(decimal_text(0), "0");
    assert_eq!(decimal_text(7), "7");
    assert_eq!(decimal_text(10), "10");
    assert_eq!(decimal_text(1234567890), "1234567890");
    assert_eq!(decimal_text(usize::MAX), usize::MAX.to_string());
}

#[test]
fn parse_usize_reads_numerals() {
    assert_eq!(parse_usize("0"), Some(0));
    assert_eq!(parse_usize("42"), Some(42));
    assert_eq!(parse_usize("+42"), Some(42));
    assert_eq!(parse_usize("007"), Some(7));
    assert_eq!(parse_usize(&usize::MAX.to_string()), Some(usize::MAX));
}

#[test]
fn parse_usize_refuses_what_is_no_numeral() {
    assert_eq!(parse_usize(""), None);
    assert_eq!(parse_usize("+"), None);
    assert_eq!(parse_usize("-1"), None);
    assert_eq!(parse_usize("1 "), None);
    assert_eq!(parse_usize(" 1"), None);
    assert_eq!(parse_usize("1.0"), None);
    assert_eq!(parse_usize("12a"), None);
    assert_eq!(parse_usize("++1"), None);
}

#[test]
fn parse_usize_refuses_what_does_not_fit() {
    let too_large = format!("{}0", usize::MAX);
    assert_eq!(parse_usize(&too_large), None);
    assert_eq!(parse_usize("99999999999999999999999999999999"), None);
}

#[test]
fn parse_usize_agrees_with_std() {
    for text in
        ["0", "1", "+5", "-5", "", "+", "18446744073709551615", "18446744073709551616", "0x10", "１"]
    {
        assert_eq!(parse_usize(text), text.parse::<usize>().ok(), "{:?}", text);
    }
}

#[test]
fn split_text_cuts_at_every_separator() {
    assert_eq!(split_text("11.12,46.07", ','), vec!["11.12", "46.07"]);
    assert_eq!(split_text("", ','), vec![""]);
    assert_eq!(split_text("abc", ','), vec!["abc"]);
    assert_eq!(split_text(",", ','), vec!["", ""]);
    assert_eq!(split_text("a,", ','), vec!["a", ""]);
    assert_eq!(split_text(",a", ','), vec!["", "a"]);
    assert_eq!(split_text("a,b,c", ','), vec!["a", "b", "c"]);
    assert_eq!(split_text("à,è", ','), vec!["à", "è"]);
}

#[test]
fn split_text_agrees_with_std() {
    for text in ["", ",", ",,", "1,2", "1,2,3", "x", "é,ü,", " , "] {
        let expected: Vec<String> = text.split(',').map(|s| s.to_string()).collect();
        assert_eq!(split_text(text, ','), expected, "{:?}", text);
    }
}

#[test]
fn is_number_text_accepts_number_literals() {
    for text in [
        "0", "11.12", "46.07", "-3", "+3", "1.", ".5", "-.5", "1e5", "1E5", "1e+5", "1.5e-3",
        "inf", "-inf", "+Infinity", "INFINITY", "nan", "NaN", "-nan", "007", "1.e1",
    ] {
        assert!(is_number_text(text), "{:?}", text);
    }
}

#[test]
fn is_number_text_refuses_what_is_no_number() {
    for text in [
        "", "+", "-", ".", "-.", "e5", "1e", "1e+", "1e5.0", " 1", "1 ", "1,5", "abc", "1..2",
        "--1", "+-1", "in", "infinit", "nanx", "1f", "0x10", "1_000", "١",
    ] {
        assert!(!is_number_text(text), "{:?}", text);
    }
}

#[test]
fn is_number_text_agrees_with_float_parsing() {
    for text in [
        "0", "11.12", "-3", "+3", "1.", ".5", "1e5", "1E5", "1e+5", "inf", "-inf", "infinity",
        "nan", "NaN", "", "+", ".", "e5", "1e", " 1", "1 ", "abc", "1..2", "--1", "infinit",
        "1f", "0x10", "1_000", ".e1", "+.e1", "1e-", "Inf", "iNf", "nAn", "+nan", "1.e", "-",
    ] {
        assert_eq!(is_number_text(text), text.parse::<f64>().is_ok(), "{:?}", text);
    }
}

#[test]
fn str_le_orders_by_code_points() {
    assert!(str_le("", ""));
    assert!(str_le("", "a"));
    assert!(!str_le("a", ""));
    assert!(str_le("a", "a"));
    assert!(str_le("a", "b"));
    assert!(!str_le("b", "a"));
    assert!(str_le("CS_10", "CS_2"));
    assert!(!str_le("CS_2", "CS_10"));
    assert!(str_le("EU_1", "U_1"));
    assert!(str_le("ab", "abc"));
    assert!(!str_le("abc", "ab"));
    assert!(str_le("z", "é"));
}

#[test]
fn str_le_agrees_with_std() {
    let texts = [
        "", "a", "ab", "b", "U_1", "EU_1", "ZONE_U_1", "é", "z", "CS_10", "CS_2", "😀", "\u{ffff}",
    ];
    for a in texts {
        for b in texts {
            assert_eq!(str_le(a, b), a <= b, "{:?} {:?}", a, b);
        }
    }
}

#[test]
fn str_eq_compares_characters() {
    assert!(str_eq("", ""));
    assert!(str_eq("via", "via"));
    assert!(!str_eq("via", "vi"));
    assert!(!str_eq("vi", "via"));
    assert!(!str_eq("via", "vie"));
    assert!(!str_eq("", "a"));
}

#[test]
fn chars_of_lists_characters() {
    assert_eq!(chars_of("aé😀"), vec!['a', 'é', '😀']);
    assert_eq!(chars_of(""), Vec::<char>::new());
}

#[test]
fn key_comparisons_order_by_fields_in_turn() {
    assert!(text_key_le("a", "a"));
    assert!(text_key_le("a", "b"));
    assert!(!text_key_le("b", "a"));
    assert!(text_pair_key_le("a", "z", "b", "a"));
    assert!(text_pair_key_le("a", "x", "a", "y"));
    assert!(!text_pair_key_le("a", "y", "a", "x"));
    assert!(text_pair_key_le("a", "x", "a", "x"));
    assert!(ranked_key_le("a", 9, "b", 1));
    assert!(ranked_key_le("a", 1, "a", 2));
    assert!(ranked_key_le("a", 2, "a", 2));
    assert!(!ranked_key_le("a", 3, "a", 2));
    assert!(!ranked_key_le("b", 1, "a", 2));
}

fn next(seed: &mut u64) -> usize {
    *seed = seed.wrapping_mul(6364136223846793005).wrapping_add(1442695040888963407);
    (*seed >> 33) as usize
}

fn random_text(seed: &mut u64, alphabet: &[char], longest: usize) -> String {
    let length = next(seed) % (longest + 1);
    (0..length).map(|_| alphabet[next(seed) % alphabet.len()]).collect()
}

#[test]
fn is_number_text_agrees_with_float_parsing_on_many_texts() {
    let alphabet: Vec<char> = "+-..eE0123456789infatyINFATY ".chars().collect();
    let mut seed: u64 = 7;
    let mut accepted = 0;
    for _ in 0..40000 {
        let text = random_text(&mut seed, &alphabet, 7);
        let expected = text.parse::<f64>().is_ok();
        assert_eq!(is_number_text(&text), expected, "{:?}", text);
        if expected {
            accepted += 1;
        }
    }
    assert!(accepted > 1000);
    let digits: Vec<char> = "+-.e0123456789".chars().collect();
    for _ in 0..40000 {
        let text = random_text(&mut seed, &digits, 9);
        assert_eq!(is_number_text(&text), text.parse::<f64>().is_ok(), "{:?}", text);
    }
}

#[test]
fn parse_usize_agrees_with_std_on_many_texts() {
    let alphabet: Vec<char> = "+-0123456789 a".chars().collect();
    let mut seed: u64 = 11;
    for _ in 0..40000 {
        let text = random_text(&mut seed, &alphabet, 24);
        assert_eq!(parse_usize(&text), text.parse::<usize>().ok(), "{:?}", text);
    }
    let digits: Vec<char> = "0123456789".chars().collect();
    for _ in 0..20000 {
        let text = random_text(&mut seed, &digits, 22);
        assert_eq!(parse_usize(&text), text.parse::<usize>().ok(), "{:?}", text);
    }
}

#[test]
fn split_and_order_agree_with_std_on_many_texts() {
    let alphabet: Vec<char> = ",,ab1é_".chars().collect();
    let mut seed: u64 = 13;
    for _ in 0..5000 {
        let a = random_text(&mut seed, &alphabet, 8);
        let b = random_text(&mut seed, &alphabet, 8);
        let expected: Vec<String> = a.split(',').map(|s| s.to_string()).collect();
        assert_eq!(split_text(&a, ','), expected, "{:?}", a);
        assert_eq!(str_le(&a, &b), a <= b, "{:?} {:?}", a, b);
        assert_eq!(str_eq(&a, &b), a == b, "{:?} {:?}", a, b);
    }
}

#[test]
fn decimal_text_agrees_with_std_on_many_numbers() {
    let mut seed: u64 = 17;
    for _ in 0..5000 {
        let n = next(&mut seed) >> (next(&mut seed) % 31);
        assert_eq!(decimal_text(n), n.to_string());
        assert_eq!(parse_usize(&decimal_text(n)), Some(n));
    }
}
