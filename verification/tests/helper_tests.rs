use heirloom_backend::clock::{Clock, Duration, Timestamp};
use heirloom_backend::graph::{reachable, Link};
use heirloom_backend::order::{ranked, widen};
use heirloom_backend::ring::push_bounded;
use heirloom_backend::scan::{head_of, lines_of, name_at_start, split_once, split_top_level, squeeze};
use heirloom_backend::strmap::StrMap;
use heirloom_backend::text::{
    decimal_int_text, eq_ignore_case, is_before, parse_signed, parse_unsigned, split_list, trimmed,
};

#[test]
fn a_map_keeps_the_order_of_insertion() {
    let mut m: StrMap<u8> = StrMap::new();
    assert_eq!(m.insert("b".to_string(), 1), None);
    assert_eq!(m.insert("a".to_string(), 2), None);
    assert_eq!(m.insert("b".to_string(), 3), Some(1));
    assert_eq!(m.len(), 2);
    assert_eq!(m.key_at(0), "b");
    assert_eq!(m.get("b"), Some(&3));
    *m.get_mut("a").unwrap() = 9;
    assert_eq!(m.remove("b"), Some(3));
    assert!(!m.contains_key("b"));
    assert_eq!(m.value_at(0), &9);
}

#[test]
fn numbers_survive_being_written() {
    for n in [0i128, 7, -1, i128::MAX, i128::MIN] {
        assert_eq!(parse_signed(&decimal_int_text(n)), Some(n));
    }
    assert_eq!(parse_unsigned("+12", 20), Some(12));
    assert_eq!(parse_unsigned("21", 20), None);
    assert_eq!(parse_unsigned("", 20), None);
    assert_eq!(parse_unsigned("1 2", 20), None);
}

#[test]
fn texts_are_cut_and_compared() {
    assert_eq!(trimmed(" \t x y \u{3000}"), "x y");
    assert_eq!(split_list("a,,b", ','), vec!["a", "", "b"]);
    assert!(eq_ignore_case("GZip", "gzip"));
    assert!(is_before("ab", "b"));
    assert!(!is_before("a", "a"));
    assert_eq!(lines_of("a\r\nb\n\nc"), vec!["a", "b", "", "c"]);
    assert_eq!(lines_of("a\n"), vec!["a"]);
    assert_eq!(squeeze("  a\n b\tc "), "a b c");
    assert_eq!(split_once("a->b->c", "->"), Some(("a".to_string(), "b->c".to_string())));
    assert_eq!(head_of("abc", "x"), "abc");
    assert_eq!(split_top_level("a: V<x, y>, b"), vec!["a: V<x, y>", " b"]);
    assert_eq!(name_at_start("f_1(x)"), "f_1");
}

#[test]
fn equal_keys_keep_their_order() {
    assert_eq!(ranked(&vec![3, 1, 3, 2], false), vec![1, 3, 0, 2]);
    assert_eq!(ranked(&vec![3, 1, 3, 2], true), vec![0, 2, 3, 1]);
    assert_eq!(widen(&vec![u64::MAX]), vec![u64::MAX as i128]);
}

#[test]
fn everything_that_can_be_reached_is_found() {
    let link = |a: &str, b: &str| Link { from: a.to_string(), to: b.to_string() };
    let links = vec![link("a", "b"), link("b", "c"), link("c", "a"), link("x", "y")];
    let mut r = reachable(&links, "a");
    r.sort();
    assert_eq!(r, vec!["a", "b", "c"]);
}

#[test]
fn a_ring_forgets_the_oldest() {
    let mut v = vec![1, 2];
    push_bounded(&mut v, 3, 2);
    assert_eq!(v, vec![2, 3]);
}

#[test]
fn clocks_run_forward() {
    let clock = Clock::new();
    let a = clock.now();
    let start = std::time::Instant::now();
    while start.elapsed() < std::time::Duration::from_millis(2) {}
    let b = clock.now();
    assert!(b.duration_since(a).as_micros() >= 2_000);
    assert_eq!(Duration::from_millis(1500).readable_text(), "1.5s");
    assert_eq!(Duration::from_micros(1500).readable_text(), "1.5ms");
    let t = Timestamp { secs: -1, nanos: 5 };
    let u = Timestamp { secs: 0, nanos: 0 };
    assert!(t.is_before(&u));
    assert!(t.order_key() < u.order_key());
    assert!(Timestamp::now().secs > 1_600_000_000);
}
