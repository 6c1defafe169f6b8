use sec_mcp::text::{
    contains, decimal_text, is_before, join, replace_char, sort_distinct, trim, trim_end_char,
    trim_start_char, trim_start_text, zero_padded_text,
};

fn list(items: &[&str]) -> Vec<String> {
    items.iter().map(|s| s.to_string()).collect()
}

#[test]
fn trim_knows_the_white_space_of_std() {
    let mut n: u32 = 0;
    while n <= 0x10ffff {
        if let Some(c) = char::from_u32(n) {
            let text = format!("{c}a{c}b{c}");
            assert_eq!(trim(&text), text.trim(), "U+{n:04X}");
        }
        n += 1;
    }
}

#[test]
fn trim_takes_white_space_off_both_ends_only() {
    assert_eq!(trim("  a b \t\n"), "a b");
    assert_eq!(trim(" \u{2003} "), "");
    assert_eq!(trim(""), "");
    assert_eq!(trim("plain"), "plain");
}

#[test]
fn trimming_twice_is_trimming_once() {
    for text in ["  a ", "", "\u{3000}x\u{85}", "a b"] {
        let once = trim(text);
        assert_eq!(trim(&once), once);
    }
}

#[test]
fn leading_and_trailing_characters_go() {
    assert_eq!(trim_start_char("0000320193", '0'), "320193");
    assert_eq!(trim_start_char("0000", '0'), "");
    assert_eq!(trim_start_char("100", '0'), "100");
    assert_eq!(trim_end_char("2024Q1II", 'I'), "2024Q1");
    assert_eq!(trim_end_char("I2024", 'I'), "I2024");
    assert_eq!(trim_end_char("III", 'I'), "");
}

#[test]
fn repeated_prefixes_go() {
    for (text, prefix) in [("CYCY2024", "CY"), ("C", "CY"), ("", "CY"), ("CYC", "CY"), ("abab", "abab")] {
        assert_eq!(trim_start_text(text, prefix), text.trim_start_matches(prefix));
    }
    assert_eq!(trim_start_text("text", ""), "text");
}

#[test]
fn contains_finds_what_std_finds() {
    let texts = ["", "a", "ab", "aab", "apple inc.", "\u{e9}t\u{e9}"];
    let parts = ["", "a", "b", "ab", "apple", "inc.", "\u{e9}", "zz"];
    for text in texts {
        for part in parts {
            assert_eq!(contains(text, part), text.contains(part), "{text:?} {part:?}");
        }
    }
}

#[test]
fn every_occurrence_is_replaced() {
    assert_eq!(replace_char("0000320193-24-000123", '-', ""), "000032019324000123");
    assert_eq!(replace_char("USD/shares", '/', "-per-"), "USD-per-shares");
    assert_eq!(replace_char("//", '/', "-per-"), "-per--per-");
    assert_eq!(replace_char("", '/', "x"), "");
}

#[test]
fn numbers_are_written_in_decimal() {
    for n in [0, 7, 9, 10, 99, 100, 320193, u64::MAX] {
        assert_eq!(decimal_text(n), format!("{n}"));
        assert_eq!(zero_padded_text(n, 10), format!("{n:010}"));
    }
    assert_eq!(zero_padded_text(5, 0), "5");
}

#[test]
fn texts_are_joined_with_a_separator() {
    assert_eq!(join(&list(&["10-K", "10-Q", "8-K"]), ", "), "10-K, 10-Q, 8-K");
    assert_eq!(join(&list(&["6-K"]), ", "), "6-K");
    assert_eq!(join(&list(&[]), ", "), "");
}

#[test]
fn texts_are_ordered_as_std_orders_them() {
    let texts = ["", "1", "10-K", "10-K/A", "10-Q", "6-K", "a", "z", "\u{e9}", "\u{ffff}", "\u{10000}"];
    for a in texts {
        for b in texts {
            assert_eq!(is_before(a, b), a < b, "{a:?} {b:?}");
        }
    }
}

#[test]
fn sorting_keeps_each_text_once() {
    let unsorted = list(&["8-K", "10-K", "6-K", "10-K", "10-Q", "6-K"]);
    assert_eq!(sort_distinct(&unsorted), list(&["10-K", "10-Q", "6-K", "8-K"]));
    let mut expected = unsorted.clone();
    expected.sort();
    expected.dedup();
    assert_eq!(sort_distinct(&unsorted), expected);
    assert_eq!(sort_distinct(&list(&[])), list(&[]));
}
