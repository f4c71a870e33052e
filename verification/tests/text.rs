use ttsvii::text::{
    contains, escape_quotes, is_blank, is_white_space, join_path, push_decimal, push_fixed3, push_padded4,
    push_shortest, push_shortest_signed, same_text, trim, trim_trailing_slashes,
};

#[test]
fn white_space_is_that_of_unicode() {
    for n in 0..=0x10FFFFu32 {
        if let Some(c) = char::from_u32(n) {
            assert_eq!(is_white_space(c), c.is_whitespace(), "{:x}", n);
        }
    }
}

#[test]
fn trimming_is_that_of_str() {
    for s in ["", " ", "a", " a ", "\t\u{3000}a b\n ", "\u{85}x\u{a0}", "\u{200b}x\u{200b}"] {
        assert_eq!(trim(s), s.trim());
        assert_eq!(is_blank(s), s.trim().is_empty());
    }
}

#[test]
fn searching_is_that_of_str() {
    for (s, p) in [("", ""), ("a", ""), ("", "a"), ("abcabd", "abd"), ("xx429yy", "429"), ("4 29", "429")] {
        assert_eq!(contains(s, p), s.contains(p), "{:?} {:?}", s, p);
    }
    assert!(same_text("你好", "你好"));
    assert!(!same_text("你好", "你"));
}

#[test]
fn numerals_are_those_of_format() {
    for n in [0u64, 7, 10, 99, 100, 12345, u64::MAX] {
        let mut s = String::new();
        push_decimal(&mut s, n);
        assert_eq!(s, n.to_string());
    }
    for n in [0u64, 5, 42, 999, 9999, 10000, 123456] {
        let mut s = String::new();
        push_padded4(&mut s, n);
        assert_eq!(s, format!("{:04}", n));
    }
}

#[test]
fn thousandths_are_those_of_format() {
    for n in [0i64, 1, 9, 10, 999, 1000, 1001, -1, -999, -1500, 86_399_999] {
        let mut s = String::new();
        push_fixed3(&mut s, n);
        assert_eq!(s, format!("{:.3}", n as f64 / 1000.0), "{}", n);
    }
}

#[test]
fn shortest_numerals_are_those_of_floats() {
    for n in [0u64, 1, 10, 100, 1000, 1500, 1230, 1_234_567, 86_399_999] {
        let mut s = String::new();
        push_shortest(&mut s, n, 3);
        assert_eq!(s, (n as f64 / 1000.0).to_string(), "{}", n);
        let mut s = String::new();
        push_shortest(&mut s, n, 6);
        assert_eq!(s, (n as f64 / 1e6).to_string(), "{}", n);
    }
    let mut s = String::new();
    push_shortest_signed(&mut s, -2500, 3);
    assert_eq!(s, "-2.5");
}

#[test]
fn quotes_are_escaped() {
    assert_eq!(escape_quotes("it's"), "it'\\''s");
    assert_eq!(escape_quotes("plain"), "plain");
    assert_eq!(escape_quotes("''"), "''".replace('\'', "'\\''"));
}

#[test]
fn paths_are_joined_with_one_separator() {
    for (dir, name) in [("out", "1.wav"), ("out/", "1.wav"), ("", "1.wav"), ("/", "x"), ("a/b", "c")] {
        let expected = std::path::Path::new(dir).join(name);
        assert_eq!(join_path(dir, name), expected.to_str().unwrap());
    }
}

#[test]
fn trailing_slashes_go() {
    for s in ["http://x", "http://x/", "http://x///", "/", "", "a/b/"] {
        assert_eq!(trim_trailing_slashes(s), s.trim_end_matches('/'));
    }
}

#[test]
fn quoting_keeps_names_apart() {
    let names = ["a", "'", "''", "a'", "'a", "\\", "'\\'", "'\\''"];
    for a in names {
        for b in names {
            assert_eq!(escape_quotes(a) == escape_quotes(b), a == b, "{:?} {:?}", a, b);
        }
    }
}
