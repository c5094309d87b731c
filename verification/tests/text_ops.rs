use ultralist::sorting::sort_positions;
use ultralist::text::{chars_of, contains_text, is_space, remove_all_folded, str_le, trim};

#[test]
fn contains_text_agrees_with_std() {
    let cases = [
        ("submit report urgent", "urgent"),
        ("submit report", "urgent"),
        ("", ""),
        ("abc", ""),
        ("", "a"),
        ("aab", "ab"),
        ("low  priority", "low priority"),
        ("später", "ä"),
        ("abc", "abcd"),
    ];
    for (text, pat) in cases {
        assert_eq!(contains_text(text, pat), text.contains(pat), "{text:?} {pat:?}");
    }
}

#[test]
fn remove_all_folded_agrees_with_std_replace_on_lower_case() {
    let cases = [
        ("do it later, later", "later"),
        ("aaa", "aa"),
        ("abababa", "aba"),
        ("nothing here", "urgent"),
        ("", "x"),
        ("keep", ""),
        ("xx", "x"),
        ("naïve café", "é"),
        ("today", "today"),
    ];
    for (text, pat) in cases {
        assert_eq!(remove_all_folded(text, pat), text.replace(pat, ""), "{text:?} {pat:?}");
    }
    assert_eq!(remove_all_folded("aaa", "aa"), "a");
    assert_eq!(remove_all_folded("abababa", "aba"), "b");
}

#[test]
fn remove_all_folded_cuts_whatever_the_case() {
    assert_eq!(remove_all_folded("Buy milk URGENT", "urgent"), "Buy milk ");
    assert_eq!(remove_all_folded("Urgent uRgEnT urgent", "urgent"), "  ");
    assert_eq!(remove_all_folded("Low Priority, LOW PRIORITY", "low priority"), ", ");
    assert_eq!(remove_all_folded("ÉTÉ été Été", "été"), "  ");
    assert_eq!(remove_all_folded("URGEN", "urgent"), "URGEN");
    assert_eq!(remove_all_folded("\u{212a}elvin kelvin", "kelvin"), " ");
}

#[test]
fn trim_agrees_with_std() {
    let cases = [
        "  plain  ",
        "\t\n tabs and lines \r\n",
        "",
        "   ",
        "inner  space",
        "\u{a0}no-break\u{a0}",
        "\u{2003}em space\u{3000}",
        "\u{1680}ogham\u{205f}",
        "\u{85}next line\u{2028}\u{2029}",
        "\u{200b}zero width is kept\u{200b}",
        "\u{feff}bom is kept",
        "\u{1c}\u{1f}separators are kept",
    ];
    for text in cases {
        assert_eq!(trim(text), text.trim(), "{text:?}");
    }
    assert_eq!(trim("  a b  "), "a b");
}

#[test]
fn is_space_agrees_with_std_on_every_char() {
    for code in 0..=0x10FFFFu32 {
        if let Some(c) = char::from_u32(code) {
            assert_eq!(is_space(c), c.is_whitespace(), "U+{code:04X}");
        }
    }
}

#[test]
fn str_le_agrees_with_std_order() {
    let words =
        ["", "a", "A", "ab", "abc", "b", "ä", "z", "€", "\u{10000}", "2024-01-01", "2024-01-02"];
    for a in words {
        for b in words {
            assert_eq!(str_le(a, b), a <= b, "{a:?} {b:?}");
        }
    }
}

#[test]
fn str_le_orders_timestamps_as_time_does() {
    assert!(str_le("2023-12-31T23:59:59+00:00", "2024-01-01T00:00:00+00:00"));
    assert!(!str_le("2024-01-01T00:00:01+00:00", "2024-01-01T00:00:00+00:00"));
    assert!(str_le("2024-01-01T00:00:00+00:00", "2024-01-01T00:00:00+00:00"));
}

#[test]
fn chars_of_gives_the_chars() {
    assert_eq!(chars_of("añ€"), vec!['a', 'ñ', '€']);
    assert!(chars_of("").is_empty());
}

#[test]
fn sort_positions_is_a_stable_sort() {
    let keys: Vec<String> = ["b", "a", "c", "a", "b"].iter().map(|s| s.to_string()).collect();
    assert_eq!(sort_positions(&keys, false), vec![1, 3, 0, 4, 2]);
    assert_eq!(sort_positions(&keys, true), vec![2, 0, 4, 1, 3]);
    assert!(sort_positions(&Vec::new(), false).is_empty());
}
