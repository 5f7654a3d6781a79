use poppy::crypto::{floor_div, multiply, UNIT};
use poppy::utils::params::ParamMap;
use poppy::utils::registry::Registry;
use poppy::utils::{
    bool_from_int, decimal_text, get_timestamp, integer_text, is_listed, numeral_text, push_numeral,
    rounded_text, timestamp_millis, wide_decimal_text,
};
use std::time::{SystemTime, UNIX_EPOCH};

#[test]
fn floor_div_rounds_toward_negative_infinity() {
    assert_eq!(floor_div(7, 2), 3);
    assert_eq!(floor_div(-7, 2), -4);
    assert_eq!(floor_div(-8, 2), -4);
    assert_eq!(floor_div(0, 5), 0);
    assert_eq!(floor_div(-1, 100), -1);
    assert_eq!(floor_div(i128::MAX, 1), i128::MAX);
    assert_eq!(floor_div(i128::MIN + 1, 1), i128::MIN + 1);
}

#[test]
fn multiply_scales_the_product_back() {
    assert_eq!(multiply(2 * UNIT, 3 * UNIT), 6 * UNIT as i128);
    assert_eq!(multiply(UNIT / 2, UNIT / 2), (UNIT / 4) as i128);
    assert_eq!(multiply(1, 1), 0);
    assert_eq!(multiply(-1, 1), -1);
    assert_eq!(multiply(98 * UNIT, 2_000_000), 196_000_000);
    assert_eq!(multiply(i64::MAX, i64::MAX), (i64::MAX as i128 * i64::MAX as i128) / UNIT as i128);
    assert_eq!(multiply(i64::MIN, i64::MIN), (i64::MIN as i128 * i64::MIN as i128) / UNIT as i128);
}

#[test]
fn numerals_have_no_leading_zeros() {
    assert_eq!(numeral_text(0), "0");
    assert_eq!(numeral_text(7), "7");
    assert_eq!(numeral_text(10), "10");
    assert_eq!(numeral_text(5000), "5000");
    assert_eq!(numeral_text(1_234_567_890), "1234567890");
    assert_eq!(numeral_text(u64::MAX), u64::MAX.to_string());
    let mut text = "n=".to_string();
    push_numeral(&mut text, u128::MAX);
    assert_eq!(text, format!("n={}", u128::MAX));
}

#[test]
fn integers_carry_their_sign() {
    assert_eq!(integer_text(0), "0");
    assert_eq!(integer_text(-1), "-1");
    assert_eq!(integer_text(1_616_161_616_161), "1616161616161");
    assert_eq!(integer_text(i64::MIN), i64::MIN.to_string());
    assert_eq!(integer_text(i64::MAX), i64::MAX.to_string());
}

#[test]
fn decimals_drop_the_zeros_at_their_end() {
    assert_eq!(decimal_text(0), "0");
    assert_eq!(decimal_text(UNIT), "1");
    assert_eq!(decimal_text(2_352_000_000), "23.52");
    assert_eq!(decimal_text(2_350_000_000), "23.5");
    assert_eq!(decimal_text(1), "0.00000001");
    assert_eq!(decimal_text(10), "0.0000001");
    assert_eq!(decimal_text(100_000_001), "1.00000001");
    assert_eq!(decimal_text(1_200), "0.000012");
    assert_eq!(decimal_text(-150_000_000), "-1.5");
    assert_eq!(decimal_text(-1), "-0.00000001");
    assert_eq!(decimal_text(i64::MAX), "92233720368.54775807");
    assert_eq!(decimal_text(i64::MIN), "-92233720368.54775808");
    assert_eq!(wide_decimal_text(-9_223_372_036_860_000_000), "-92233720368.6");
}

#[test]
fn decimals_read_like_the_floating_point_numbers_they_stand_for() {
    for value in [0i64, 1, 5, 23, 2350, 990, 10150, 47, 4705] {
        let fixed = value * (UNIT / 100);
        assert_eq!(decimal_text(fixed), format!("{}", value as f64 / 100.0));
    }
}

#[test]
fn rounded_text_keeps_three_decimals() {
    assert_eq!(rounded_text(0), "0.000");
    assert_eq!(rounded_text(UNIT), "1.000");
    assert_eq!(rounded_text(9_912_345_678), "99.123");
    assert_eq!(rounded_text(9_912_350_000), "99.124");
    assert_eq!(rounded_text(9_912_349_999), "99.123");
    assert_eq!(rounded_text(99_950_000), "1.000");
    assert_eq!(rounded_text(-150_000_000), "-1.500");
    assert_eq!(rounded_text(-49_999), "-0.000");
    assert_eq!(rounded_text(i64::MAX), "92233720368.548");
    assert_eq!(rounded_text(i64::MIN), "-92233720368.548");
}

#[test]
fn timestamp_is_in_milliseconds() {
    assert_eq!(timestamp_millis(0, 0), 0);
    assert_eq!(timestamp_millis(1, 0), 1000);
    assert_eq!(timestamp_millis(1, 999_999), 1000);
    assert_eq!(timestamp_millis(1, 1_000_000), 1001);
    assert_eq!(timestamp_millis(1_616_161_616, 161_999_999), 1_616_161_616_161);
    assert_eq!(timestamp_millis(u64::MAX / 1000, 615_000_000), u64::MAX);
    assert_eq!(timestamp_millis(u64::MAX / 1000, 616_000_000), u64::MAX);
    assert_eq!(timestamp_millis(u64::MAX / 1000, 614_000_000), u64::MAX - 1);
    assert_eq!(timestamp_millis(u64::MAX, 0), u64::MAX);
}

#[test]
fn get_timestamp_reads_the_clock() {
    let before = SystemTime::now().duration_since(UNIX_EPOCH).unwrap().as_millis() as u64;
    let stamp = get_timestamp();
    let after = SystemTime::now().duration_since(UNIX_EPOCH).unwrap().as_millis() as u64;
    assert!(before <= stamp && stamp <= after);
}

#[test]
fn flags_are_zero_or_one() {
    assert_eq!(bool_from_int(0), Ok(false));
    assert_eq!(bool_from_int(1), Ok(true));
    assert_eq!(bool_from_int(2), Err(2));
    assert_eq!(bool_from_int(255), Err(255));
}

#[test]
fn is_listed_compares_whole_names() {
    let names = vec!["STMX".to_string(), "BTC".to_string()];
    assert!(is_listed(&names, &"BTC".to_string()));
    assert!(is_listed(&names, &"STMX".to_string()));
    assert!(!is_listed(&names, &"STM".to_string()));
    assert!(!is_listed(&Vec::new(), &"BTC".to_string()));
}

#[test]
fn params_stand_in_the_order_of_their_keys() {
    let mut params = ParamMap::new();
    assert_eq!(params.query(), "");
    for (key, value) in [
        ("symbol", "BTC_USDT"),
        ("side", "0"),
        ("type", "1"),
        ("recvWindow", "5000"),
        ("quantity", "1.5"),
        ("timestamp", "17"),
        ("price", "2"),
        ("Zeta", "z"),
        ("", "empty"),
        ("sid", "prefix"),
    ] {
        params.insert(key.to_string(), value.to_string());
    }
    assert_eq!(
        params.query(),
        "=empty&Zeta=z&price=2&quantity=1.5&recvWindow=5000&sid=prefix&side=0&symbol=BTC_USDT&timestamp=17&type=1"
    );
    assert_eq!(params.len(), 10);
    let mut sorted = std::collections::BTreeMap::new();
    for slot in 0..params.len() {
        let (key, value) = params.entry(slot);
        sorted.insert(key.clone(), value.clone());
    }
    let in_order: Vec<String> = sorted.keys().cloned().collect();
    let kept: Vec<String> = (0..params.len()).map(|slot| params.entry(slot).0.clone()).collect();
    assert_eq!(kept, in_order);
}

#[test]
fn a_param_is_replaced_under_its_key() {
    let mut params = ParamMap::new();
    params.insert("b".to_string(), "1".to_string());
    params.insert("a".to_string(), "2".to_string());
    params.insert("b".to_string(), "3".to_string());
    assert_eq!(params.query(), "a=2&b=3");
    assert_eq!(params.len(), 2);
    let mut single = ParamMap::new();
    single.insert("k".to_string(), "v".to_string());
    assert_eq!(single.query(), "k=v");
}

#[test]
fn params_order_keys_beyond_ascii_like_strings_do() {
    let mut params = ParamMap::new();
    for key in ["é", "z", "日本", "a", "€", "zz"] {
        params.insert(key.to_string(), "1".to_string());
    }
    let kept: Vec<String> = (0..params.len()).map(|slot| params.entry(slot).0.clone()).collect();
    let mut expected: Vec<String> = kept.clone();
    expected.sort();
    assert_eq!(kept, expected);
}

#[test]
fn registry_finds_items_by_name() {
    let mut registry: Registry<i32> = Registry::new();
    assert_eq!(registry.len(), 0);
    assert_eq!(registry.insert("a".to_string(), 1), None);
    assert_eq!(registry.insert("b".to_string(), 2), None);
    assert_eq!(registry.insert("a".to_string(), 3), Some(1));
    assert_eq!(registry.len(), 2);
    assert_eq!(registry.get(&"a".to_string()), Some(&3));
    assert_eq!(registry.get(&"b".to_string()), Some(&2));
    assert_eq!(registry.get(&"c".to_string()), None);
    assert_eq!(registry.position(&"b".to_string()), Some(1));
    assert_eq!(registry.position(&"".to_string()), None);
    assert_eq!(registry.name(0), "a");
    assert_eq!(*registry.item(1), 2);
    assert_eq!(registry.replace(1, 9), 2);
    *registry.item_mut(0) += 1;
    assert_eq!(registry.get(&"a".to_string()), Some(&4));
    assert_eq!(registry.get(&"b".to_string()), Some(&9));
}
