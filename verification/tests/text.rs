use shuru::paths::{is_absolute_path, is_root_path, join, path_components, path_within};
use shuru::string_map::{copied, StringMap};
use shuru::text::{
    cat, cat3, decimal, hex, parse_i32, parse_u16, split, split_at_most, split_once, str_eq, trim,
};

fn strings(v: Vec<&str>) -> Vec<String> {
    v.into_iter().map(|s| s.to_string()).collect()
}

#[test]
fn texts_are_split() {
    assert_eq!(split("a:b::", ':'), strings(vec!["a", "b", "", ""]));
    assert_eq!(split("", ':'), strings(vec![""]));
    assert_eq!(split_at_most("a:b:c:d", ':', 3), strings(vec!["a", "b", "c:d"]));
    assert_eq!(split_at_most("a", ':', 3), strings(vec!["a"]));
    assert_eq!(split_once("k=v=w", '='), Some(("k".to_string(), "v=w".to_string())));
    assert_eq!(split_once("k", '='), None);
}

#[test]
fn texts_are_joined_and_compared() {
    assert_eq!(cat("a", "b"), "ab");
    assert_eq!(cat3("a", "", "c"), "ac");
    assert!(str_eq("\u{e4}", "\u{e4}"));
    assert!(!str_eq("a", "ab"));
}

#[test]
fn white_space_is_trimmed() {
    for s in [" a b ", "\u{2003}x\u{a0}", "\t\r\n", "", "\u{85}y\u{3000}", "\u{200b}z"] {
        assert_eq!(trim(s), s.trim());
    }
}

#[test]
fn numbers_are_printed() {
    for n in [0u64, 7, 10, 99, 100, 65535, u64::MAX] {
        assert_eq!(decimal(n), format!("{}", n));
        assert_eq!(hex(n, 4), format!("{:04x}", n));
        assert_eq!(hex(n, 0), format!("{:x}", n));
    }
}

#[test]
fn numbers_are_read() {
    for s in ["0", "65535", "65536", "+1", "-1", "", "+", "1a", "007", "\u{661}"] {
        assert_eq!(parse_u16(s), s.parse::<u16>().ok());
        assert_eq!(parse_i32(s), s.parse::<i32>().ok());
    }
    for s in ["-2147483648", "-2147483649", "2147483647", "2147483648", "--1", "-"] {
        assert_eq!(parse_i32(s), s.parse::<i32>().ok());
    }
}

#[test]
fn paths_are_compared_by_components() {
    let cases = ["/", "//", "/.", "/a/b", "/a//b/", "/a/./b", "a", "./a", ".", "", "a/..", "/..", "a/."];
    for x in cases {
        for y in cases {
            let (p, q) = (std::path::Path::new(x), std::path::Path::new(y));
            assert_eq!(path_within(x, y), p.starts_with(q), "{} {}", x, y);
        }
        assert_eq!(is_root_path(x), std::path::Path::new(x) == std::path::Path::new("/"), "{}", x);
        assert_eq!(is_absolute_path(x), x.starts_with('/'));
    }
    assert_eq!(path_components("/a//./b/"), strings(vec!["/", "a", "b"]));
    assert_eq!(join("/a", "b"), "/a/b");
    assert_eq!(join("/a/", "b"), "/a/b");
    assert_eq!(join("", "b"), "b");
}

#[test]
fn maps_keep_the_order_of_their_keys() {
    let mut m: StringMap<String> = StringMap::new();
    m.insert("b".to_string(), "1".to_string());
    m.insert("a".to_string(), "2".to_string());
    m.insert("b".to_string(), "3".to_string());
    assert_eq!(m.len(), 2);
    assert_eq!(m.key_at(0), "b");
    assert_eq!(m.value_at(0), "3");
    assert_eq!(m.key_at(1), "a");
    let mut other: StringMap<String> = StringMap::new();
    other.insert("a".to_string(), "4".to_string());
    other.insert("c".to_string(), "5".to_string());
    let before = copied(&m);
    m.extend(other);
    assert_eq!(m.len(), 3);
    assert_eq!(m.get("a").unwrap(), "4");
    assert_eq!(m.get("c").unwrap(), "5");
    assert_eq!(before.get("a").unwrap(), "2");
    assert!(m.get("d").is_none());
    assert!(!m.is_empty());
}
