use betterbot::base::order::stable_order;
use betterbot::base::scalar::Scalar;
use betterbot::base::settings::{
    flag_or, list_items, number_or, signed_or, size_or, small_or, unsigned_or, Environment, Range,
};
use betterbot::base::table::Table;
use betterbot::base::text::{
    contains, decimal_i64, decimal_u64, find, join, parse_integer, same, same_ignoring_ascii_case, split,
    split_once, starts_with, take_chars, to_ascii_lower, to_ascii_upper, trim,
};
use betterbot::vault::updown15m::{market_slug, window_start, UpDownAsset};

fn scalar(x: f64) -> Scalar {
    if x.is_nan() {
        Scalar::Undefined
    } else {
        let b = x.to_bits() as i64;
        Scalar::Rank(if b < 0 { i64::MIN.wrapping_sub(b) } else { b })
    }
}

fn number(s: Scalar) -> f64 {
    match s {
        Scalar::Undefined => f64::NAN,
        Scalar::Rank(a) => {
            if a < 0 {
                -f64::from_bits((-a) as u64)
            } else {
                f64::from_bits(a as u64)
            }
        }
    }
}

#[test]
fn scalars_are_ordered_as_numbers() {
    let xs = [f64::NEG_INFINITY, -2.5, -1e-300, 0.0, 1e-300, 0.5, 2.5, f64::INFINITY];
    for a in xs {
        assert_eq!(number(scalar(a)), a);
        for b in xs {
            assert_eq!(scalar(a).lt(scalar(b)), a < b);
            assert_eq!(scalar(a).le(scalar(b)), a <= b);
            assert_eq!(number(scalar(a).max(scalar(b))), a.max(b));
            assert_eq!(number(scalar(a).min(scalar(b))), a.min(b));
        }
        assert_eq!(scalar(a).is_finite(), a.is_finite());
        assert_eq!(number(scalar(a).abs()), a.abs());
    }
    let nan = scalar(f64::NAN);
    assert!(!nan.lt(scalar(1.0)) && !scalar(1.0).le(nan) && !nan.is_finite());
    assert_eq!(number(nan.max(scalar(1.0))), 1.0);
    assert_eq!(number(scalar(1.0).min(nan)), 1.0);
    assert_eq!(scalar(-0.0), scalar(0.0));
}

#[test]
fn settings_outside_their_range_are_not_taken() {
    let mut env = Environment::new();
    env.set("A", "0.5", Some(scalar(0.5)));
    env.set("B", "0", Some(scalar(0.0)));
    env.set("C", "7", Some(scalar(7.0)));
    env.set("D", "-3", Some(scalar(-3.0)));
    env.set("E", "x", None);
    let one = scalar(1.0);
    assert_eq!(number(number_or(&env, "A", Range::PositiveToOne, one)), 0.5);
    assert_eq!(number(number_or(&env, "B", Range::Positive, one)), 1.0);
    assert_eq!(number(number_or(&env, "B", Range::NonNegative, one)), 0.0);
    assert_eq!(number(number_or(&env, "C", Range::Unit, one)), 1.0);
    assert_eq!(number(number_or(&env, "E", Range::Positive, one)), 1.0);
    assert_eq!(number(number_or(&env, "missing", Range::Positive, one)), 1.0);
    assert!(Range::InsideUnit.admits(scalar(0.999)));
    assert!(!Range::InsideUnit.admits(one));
    assert!(!Range::Positive.admits(scalar(f64::NAN)));
    assert_eq!(unsigned_or(&env, "C", 0, 5, 2), 2);
    assert_eq!(unsigned_or(&env, "C", 0, 9, 2), 7);
    assert_eq!(unsigned_or(&env, "D", 0, 5, 2), 2);
    assert_eq!(size_or(&env, "C", 8, 9, 2), 2);
    assert_eq!(small_or(&env, "E", 0, 9, 4), 4);
    assert_eq!(signed_or(&env, "D", -5, 5, 2), -3);
}

#[test]
fn flags_and_lists() {
    let mut env = Environment::new();
    for (text, value) in [("1", true), ("TRUE", true), ("false", false), ("0", false)] {
        env.set("F", text, None);
        assert_eq!(flag_or(&env, "F", !value), value, "{}", text);
    }
    assert!(flag_or(&env, "G", true));
    assert_eq!(list_items(" a, ,b ,"), vec!["a".to_string(), "b".to_string()]);
    assert!(list_items("  ").is_empty());
}

#[test]
fn texts() {
    assert_eq!(trim(" \t a b \n"), "a b");
    assert_eq!(to_ascii_upper("aÉz1"), "AÉZ1");
    assert_eq!(to_ascii_lower("AÉZ1"), "aÉz1");
    assert!(same("a", "a") && !same("a", "b"));
    assert!(same_ignoring_ascii_case("Yes", "yES"));
    assert_eq!(find("abcabc", "ca"), Some(2));
    assert_eq!(find("abc", "x"), None);
    assert!(contains("abc", ""));
    assert!(starts_with("abc", "ab") && !starts_with("a", "ab"));
    assert_eq!(take_chars("äbc", 2), "äb");
    assert_eq!(split_once("k=v=w", '='), Some(("k".to_string(), "v=w".to_string())));
    assert_eq!(split_once("k", '='), None);
    assert_eq!(split("a,,b", ','), vec!["a".to_string(), String::new(), "b".to_string()]);
    assert_eq!(join(&split("a,,b", ','), ";"), "a;;b");
}

#[test]
fn decimals_are_read_back() {
    for n in [0u64, 1, 10, 1_735_700_000, u64::MAX] {
        assert_eq!(decimal_u64(n), n.to_string());
        assert_eq!(parse_integer(&decimal_u64(n), false, 0, u64::MAX as i128), Some(n as i128));
    }
    for n in [i64::MIN, -1, 0, i64::MAX] {
        assert_eq!(decimal_i64(n), n.to_string());
        assert_eq!(parse_integer(&decimal_i64(n), true, i64::MIN as i128, i64::MAX as i128), Some(n as i128));
    }
    assert_eq!(parse_integer("+7", false, 0, 9), Some(7));
    assert_eq!(parse_integer("-7", false, 0, 9), None);
    assert_eq!(parse_integer("", true, 0, 9), None);
    assert_eq!(parse_integer("-", true, 0, 9), None);
    assert_eq!(parse_integer("7 ", true, 0, 9), None);
    assert_eq!(parse_integer("10", true, 0, 9), None);
}

#[test]
fn tables_keep_the_order_of_insertion() {
    let mut t: Table<u8> = Table::new();
    t.insert("b".to_string(), 1);
    t.insert("a".to_string(), 2);
    t.insert("b".to_string(), 3);
    assert_eq!(t.len(), 2);
    assert_eq!((t.key_at(0).as_str(), *t.value_at(0)), ("b", 3));
    assert_eq!(t.get("a"), Some(&2));
    assert_eq!(t.replace_at(1, 9), 2);
    assert_eq!(t.remove("b"), Some(3));
    assert_eq!(t.remove("b"), None);
    assert!(t.contains("a") && !t.contains("b"));
}

#[test]
fn equal_keys_keep_their_order() {
    assert_eq!(stable_order(&vec![3, 1, 3, 2, 1]), vec![1, 4, 3, 0, 2]);
    assert!(stable_order(&Vec::new()).is_empty());
}

#[test]
fn windows_of_a_quarter_hour() {
    assert_eq!(window_start(1_735_700_123), 1_735_699_500);
    assert_eq!(window_start(900), 900);
    assert_eq!(market_slug("eth", 900), "eth-updown-15m-900");
    assert!(matches!(UpDownAsset::from_symbol("BTCUSDT"), Some(UpDownAsset::Btc)));
    assert!(UpDownAsset::from_symbol("DOGEUSDT").is_none());
    assert_eq!(UpDownAsset::Sol.binance_symbol(), "SOLUSDT");
}
