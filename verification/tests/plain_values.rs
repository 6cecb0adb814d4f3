use lash_harness_opt::calendar::{days_to_ymd, rfc3339};
use lash_harness_opt::text::{
    count_matches, decimal_text, hex16, join, join_path, lines, padded_text, replace_text,
    split_text, take_chars, text_before, trim,
};
use lash_harness_opt::{Score, StringMap};

fn score(x: f64) -> Score {
    Score { bits: x.to_bits() }
}

fn numbers() -> Vec<f64> {
    vec![
        0.0,
        -0.0,
        1.0,
        -1.0,
        0.1,
        0.3,
        1e300,
        -1e300,
        5e-324,
        f64::INFINITY,
        f64::NEG_INFINITY,
        f64::NAN,
        -f64::NAN,
    ]
}

#[test]
fn scores_compare_as_doubles_do() {
    for a in numbers() {
        for b in numbers() {
            assert_eq!(score(a).less_than(&score(b)), a < b, "{a} < {b}");
            assert_eq!(score(a).at_least(&score(b)), a >= b, "{a} >= {b}");
            assert_eq!(score(a).same_number(&score(b)), a == b, "{a} == {b}");
            let greater = f64::from_bits(score(a).max(&score(b)).bits);
            assert!(greater == a.max(b) || (greater.is_nan() && a.max(b).is_nan()));
        }
        assert_eq!(score(a).is_nan(), a.is_nan());
        assert_eq!(score(a).is_finite(), a.is_finite());
    }
    assert_eq!(Score::one(), score(1.0));
    assert_eq!(Score::zero(), score(0.0));
}

#[test]
fn integers_are_rounded_to_doubles() {
    for n in [
        0u64,
        1,
        3,
        (1 << 53) - 1,
        (1 << 53) + 1,
        (1 << 53) + 3,
        (1 << 54) + 2,
        (1 << 54) + 6,
        u64::MAX,
        u64::MAX - 1024,
        u64::MAX - 1023,
        0x8000_0000_0000_0400,
        0x8000_0000_0000_0401,
    ] {
        assert_eq!(Score::from_u64(n), score(n as f64), "{n}");
    }
}

#[test]
fn days_are_turned_into_dates() {
    assert_eq!(days_to_ymd(0), (1970, 1, 1));
    assert_eq!(days_to_ymd(59), (1970, 3, 1));
    assert_eq!(days_to_ymd(789), (1972, 2, 29));
    assert_eq!(days_to_ymd(11016), (2000, 2, 29));
    assert_eq!(days_to_ymd(11017), (2000, 3, 1));
    assert_eq!(days_to_ymd(47540), (2100, 2, 28));
    assert_eq!(days_to_ymd(47541), (2100, 3, 1));
    assert_eq!(days_to_ymd(20453), (2025, 12, 31));
}

#[test]
fn moments_are_written_in_rfc_3339() {
    assert_eq!(rfc3339(0), "1970-01-01T00:00:00Z");
    assert_eq!(rfc3339(1_000_000_000), "2001-09-09T01:46:40Z");
    assert_eq!(rfc3339(4_107_542_399), "2100-02-28T23:59:59Z");
}

#[test]
fn texts_are_cut_and_joined() {
    assert_eq!(lines("a\r\nb\n\nc\r"), ["a", "b", "", "c\r"]);
    assert_eq!(lines("a\n"), ["a"]);
    assert!(lines("").is_empty());
    assert_eq!(split_text("a--b--", "--"), ["a", "b", ""]);
    assert_eq!(count_matches("aaaa", "aa"), 2);
    assert_eq!(replace_text("x{a}y{a}", "{a}", "{a}b"), "x{a}by{a}b");
    assert_eq!(trim("\u{3000} \ta b\u{a0}\n"), "a b");
    assert_eq!(take_chars("äöü", 2), "äö");
    assert_eq!(
        join(&vec!["a".to_string(), "b".to_string()], ", "),
        "a, b"
    );
}

#[test]
fn white_space_is_that_of_unicode() {
    for code in 0u32..0x11_0000 {
        if let Some(c) = char::from_u32(code) {
            assert_eq!(
                lash_harness_opt::text::is_whitespace(c),
                c.is_whitespace(),
                "{code:x}"
            );
        }
    }
}

#[test]
fn numbers_are_written() {
    assert_eq!(decimal_text(u64::MAX), "18446744073709551615");
    assert_eq!(padded_text(7, 2), "07");
    assert_eq!(padded_text(2026, 4), "2026");
    assert_eq!(hex16(0xdead_beef), "00000000deadbeef");
}

#[test]
fn texts_are_ordered_as_strings_are() {
    let words = ["", "a", "ab", "b", "B", "\u{ffff}", "\u{10000}", "ä"];
    for a in words {
        for b in words {
            assert_eq!(text_before(a, b), a < b);
        }
    }
}

#[test]
fn paths_are_joined_as_std_does() {
    for (a, b) in [("run", "x"), ("run/", "x"), ("", "x"), ("run", "/x"), ("run", "")] {
        assert_eq!(
            join_path(a, b),
            std::path::Path::new(a).join(b).to_string_lossy()
        );
    }
}

#[test]
fn maps_keep_their_keys_in_order() {
    let mut map: StringMap<u64> = StringMap::new();
    for (i, key) in ["m", "a", "z", "m", "b"].iter().enumerate() {
        map.insert(key.to_string(), i as u64);
    }
    assert_eq!(map.keys(), ["a", "b", "m", "z"]);
    assert_eq!(map.get("m"), Some(&3));
    assert_eq!(map.remove("b"), Some(4));
    assert_eq!(map.remove("b"), None);
    let mut other: StringMap<u64> = StringMap::new();
    other.insert("z".to_string(), 9);
    other.insert("c".to_string(), 8);
    map.extend(other);
    assert_eq!(map.keys(), ["a", "c", "m", "z"]);
    assert_eq!(map.get("z"), Some(&9));
    let some = map.restricted(&["z".to_string(), "q".to_string(), "a".to_string()]);
    assert_eq!(some.keys(), ["a", "z"]);
    assert_eq!(map.clone(), map);
    assert_eq!(map.len(), 4);
    assert!(!map.is_empty());
}
