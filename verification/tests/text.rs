use rust_confessional::text::{
    ascii_alphanumeric, contains, find_value, is_blank, join, parse_unsigned, same, split,
    starts_with, to_ascii_lowercase, to_ascii_uppercase, to_decimal, trim,
};

const SAMPLES: [&str; 9] = [
    "",
    " ",
    "a, b, c",
    ", ",
    "a,, b",
    "  \u{85}héllo WÖRLD\u{3000}",
    "no separator",
    ", lead",
    "trail, ",
];

#[test]
fn trimming_agrees_with_std() {
    for text in SAMPLES {
        assert_eq!(trim(text), text.trim());
        assert_eq!(is_blank(text), text.trim().is_empty());
    }
}

#[test]
fn splitting_agrees_with_std() {
    for text in SAMPLES {
        let expected: Vec<String> = text.split(", ").map(str::to_owned).collect();
        assert_eq!(split(text, ", "), expected);
    }
    assert_eq!(split("aaaa", "aa"), vec!["", "", ""]);
}

#[test]
fn splitting_undoes_joining() {
    let tools = vec!["Tokio channels".to_owned(), "JoinSet".to_owned(), "tracing".to_owned()];
    let text = join(&tools, ", ");
    assert_eq!(text, "Tokio channels, JoinSet, tracing");
    assert_eq!(split(&text, ", "), tools);
    assert_eq!(join(&Vec::new(), ", "), "");
}

#[test]
fn case_changes_touch_ascii_letters_only() {
    for text in SAMPLES {
        assert_eq!(to_ascii_lowercase(text), text.to_ascii_lowercase());
        assert_eq!(to_ascii_uppercase(text), text.to_ascii_uppercase());
    }
    assert_eq!(to_ascii_lowercase("ÀZ@[az"), "Àz@[az");
    for c in (0..=0x10ffff).filter_map(char::from_u32) {
        assert_eq!(ascii_alphanumeric(c), c.is_ascii_alphanumeric());
    }
}

#[test]
fn searching_agrees_with_std() {
    for text in SAMPLES {
        for word in ["", ",", ", ", "a", "WÖ", "separator", "zzz"] {
            assert_eq!(contains(text, word), text.contains(word));
            assert_eq!(starts_with(text, word), text.starts_with(word));
            assert_eq!(same(text, word), text == word);
        }
    }
}

#[test]
fn numbers_read_and_write_like_std() {
    for n in [0u64, 7, 10, 99, 100, 500, u64::MAX] {
        assert_eq!(to_decimal(n), n.to_string());
        assert_eq!(parse_unsigned(&n.to_string(), u64::MAX), Some(n));
    }
    for text in ["", "+", "-1", "1 ", "+12", "007", "1_000", "18446744073709551616", "٣"] {
        assert_eq!(parse_unsigned(text, u64::MAX), text.parse::<u64>().ok());
    }
    assert_eq!(parse_unsigned("256", 255), None);
    assert_eq!(parse_unsigned("255", 255), Some(255));
}

#[test]
fn the_first_value_of_a_name_counts() {
    let fields = vec![
        ("a".to_owned(), "1".to_owned()),
        ("b".to_owned(), "2".to_owned()),
        ("a".to_owned(), "3".to_owned()),
    ];
    assert_eq!(find_value(&fields, "a"), Some("1"));
    assert_eq!(find_value(&fields, "b"), Some("2"));
    assert_eq!(find_value(&fields, "c"), None);
}
