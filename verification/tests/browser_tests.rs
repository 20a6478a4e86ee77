use fempeg::browser::{
    blank, color_slots, entry_for, equal_folded, split_key, table_order, visible, window, Browser,
    Entry, Key, BOUNCE_MS, PALETTE_SIZE,
};
use fempeg::exiftool::{merge_json_output, parse_exiftool_json};
use fempeg::ordering::{compare_bytes, numeric_key, sort_rows, KeyOrder, Row};

fn entry(group: &str, tag: &str, value: &str) -> Entry {
    Entry { group: group.to_string(), tag: tag.to_string(), value: value.to_string() }
}

#[test]
fn key_is_parted_at_its_first_colon() {
    assert_eq!(split_key("IFD0:Model"), ("IFD0".to_string(), "Model".to_string()));
    assert_eq!(split_key("a:b:c"), ("a".to_string(), "b:c".to_string()));
    assert_eq!(split_key("SourceFile"), (String::new(), "SourceFile".to_string()));
    assert_eq!(split_key(":x"), (String::new(), "x".to_string()));
    assert_eq!(split_key("x:"), ("x".to_string(), String::new()));
    assert_eq!(split_key(""), (String::new(), String::new()));
    assert_eq!(split_key("gr\u{fc}n:\u{1f600}"), ("gr\u{fc}n".to_string(), "\u{1f600}".to_string()));
    assert_eq!(entry_for("Nikon:ISO", "100".to_string()), entry("Nikon", "ISO", "100"));
}

#[test]
fn numeric_key_reads_the_digits_of_a_name() {
    assert_eq!(numeric_key("DSC_0042"), Some(42));
    assert_eq!(numeric_key("img12_v3"), Some(123));
    assert_eq!(numeric_key("7"), Some(7));
    assert_eq!(numeric_key("000"), Some(0));
    assert_eq!(numeric_key("holiday"), None);
    assert_eq!(numeric_key(""), None);
    assert_eq!(numeric_key("-5"), Some(5));
    assert_eq!(numeric_key("\u{661}2"), Some(2));
    assert_eq!(numeric_key("18446744073709551615"), Some(u64::MAX));
    assert_eq!(numeric_key("18446744073709551616"), None);
    assert_eq!(numeric_key("1844674407370955161x6"), None);
    assert_eq!(numeric_key("99999999999999999999999999999999999999999999"), None);
}

#[test]
fn texts_compare_as_strings_do() {
    let samples = ["", "a", "A", "ab", "b", "aa", "a\u{e9}", "a\u{1f600}", "\u{7f}", "\u{80}", "Nikon", "nikon"];
    for a in samples {
        for b in samples {
            let expected = match a.cmp(b) {
                std::cmp::Ordering::Less => KeyOrder::Less,
                std::cmp::Ordering::Equal => KeyOrder::Equal,
                std::cmp::Ordering::Greater => KeyOrder::Greater,
            };
            assert_eq!(compare_bytes(a.as_bytes(), b.as_bytes()), expected);
        }
    }
}

#[test]
fn rows_are_sorted_by_class_then_texts_and_stably() {
    let row = |class: usize, first: &str, second: &str| Row {
        class,
        number: 0,
        first: first.to_string(),
        second: second.to_string(),
    };
    let rows = vec![
        row(1, "b", "x"),
        row(0, "z", "z"),
        row(1, "a", "y"),
        row(1, "a", "x"),
        row(1, "b", "x"),
        row(0, "", ""),
        row(1, "a", "x"),
    ];
    assert_eq!(sort_rows(&rows), vec![5, 1, 3, 6, 2, 0, 4]);
    assert_eq!(sort_rows(&vec![]), Vec::<usize>::new());
    assert_eq!(sort_rows(&vec![row(3, "q", "r")]), vec![0]);
}

#[test]
fn sorting_agrees_with_the_standard_sort() {
    let mut seed: u64 = 0x9e37_79b9_7f4a_7c15;
    let mut next = move |bound: u64| -> u64 {
        seed ^= seed << 13;
        seed ^= seed >> 7;
        seed ^= seed << 17;
        seed % bound
    };
    for _ in 0..50 {
        let n = next(30) as usize;
        let rows: Vec<Row> = (0..n)
            .map(|_| Row {
                class: next(3) as usize,
                number: next(3),
                first: ["", "a", "B", "ab"][next(4) as usize].to_string(),
                second: ["x", "X", "xy", "\u{e9}"][next(4) as usize].to_string(),
            })
            .collect();
        let mut expected: Vec<usize> = (0..n).collect();
        expected.sort_by(|i, j| {
            (rows[*i].class, rows[*i].number, &rows[*i].first, &rows[*i].second)
                .cmp(&(rows[*j].class, rows[*j].number, &rows[*j].first, &rows[*j].second))
        });
        assert_eq!(sort_rows(&rows), expected);
    }
}

fn table() -> Vec<Entry> {
    vec![
        entry("Composite", "ImageSize", "6016x4016"),
        entry("ExifIFD", "FNumber", "2.8"),
        entry("ExifIFD", "UserComment", "nikon test shot"),
        entry("IFD0", "Make", "NIKON CORPORATION"),
        entry("IFD0", "Model", "NIKON D750"),
        entry("Nikon", "ISO", "100"),
        entry("Nikon", "Quality", "RAW"),
        entry("System", "FileName", "a.nef"),
        entry("composite", "Aperture", "2.8"),
    ]
}

#[test]
fn table_is_sorted_by_group_then_tag() {
    let shuffled = vec![
        entry("Nikon", "ISO", "100"),
        entry("IFD0", "Model", "D750"),
        entry("", "SourceFile", "a.nef"),
        entry("IFD0", "Make", "NIKON"),
        entry("Composite", "ImageSize", "1x1"),
    ];
    assert_eq!(table_order(&shuffled), vec![2, 4, 3, 1, 0]);
    let sorted = table();
    assert_eq!(table_order(&sorted), (0..sorted.len()).collect::<Vec<usize>>());
}

#[test]
fn blank_query_shows_named_entries_first() {
    let entries = table();
    // Named: IFD0:Model, IFD0:Make, ExifIFD:FNumber, Nikon:ISO,
    // Composite:ImageSize. Then the group nikon by tag, then composite by
    // tag, then the others by group and tag.
    assert_eq!(visible(&entries, ""), vec![4, 3, 1, 5, 0, 6, 8, 2, 7]);
    assert_eq!(visible(&entries, "  \t"), vec![4, 3, 1, 5, 0, 6, 8, 2, 7]);
    assert_eq!(visible(&vec![], ""), Vec::<usize>::new());
}

#[test]
fn named_entries_match_in_any_case() {
    let entries = vec![
        entry("nikon", "iso", "1"),
        entry("NIKON", "ISO", "2"),
        entry("ifd0", "MODEL", "3"),
        entry("", "IFD0:Model", "4"),
    ];
    assert_eq!(visible(&entries, ""), vec![2, 3, 0, 1]);
}

#[test]
fn query_filters_by_tag_and_value() {
    let entries = table();
    assert_eq!(visible(&entries, "nikon"), vec![2, 3, 4]);
    assert_eq!(visible(&entries, "NIKON"), vec![2, 3, 4]);
    assert_eq!(visible(&entries, "iso"), vec![5]);
    assert_eq!(visible(&entries, "2.8"), vec![1, 8]);
    assert_eq!(visible(&entries, "ifd0"), Vec::<usize>::new());
    assert_eq!(visible(&entries, "e"), vec![0, 1, 2, 3, 4, 7, 8]);
    assert_eq!(visible(&entries, " test"), vec![2]);
    assert_eq!(visible(&entries, "shot "), Vec::<usize>::new());
}

#[test]
fn blank_means_whitespace_only() {
    assert!(blank(""));
    assert!(blank(" \t\n\u{a0}"));
    assert!(!blank(" a "));
    assert!(!blank("\u{200b}"));
    assert!(equal_folded(&"IFD0:Model".chars().collect(), &"ifd0:model".chars().collect()));
    assert!(!equal_folded(&"IFD0:Model".chars().collect(), &"ifd0:mode".chars().collect()));
    assert!(!equal_folded(&"\u{c9}".chars().collect(), &"\u{e9}".chars().collect()));
}

#[test]
fn groups_take_colours_in_their_order() {
    assert_eq!(PALETTE_SIZE, 6);
    let entries = table();
    assert_eq!(color_slots(&entries), vec![0, 1, 1, 2, 2, 3, 3, 4, 5]);
    let many: Vec<Entry> = (0..8).map(|i| entry(&format!("g{}", i), "t", "v")).collect();
    assert_eq!(color_slots(&many), vec![0, 1, 2, 3, 4, 5, 0, 1]);
    let mixed = vec![entry("b", "1", ""), entry("a", "1", ""), entry("b", "2", ""), entry("a", "2", "")];
    assert_eq!(color_slots(&mixed), vec![0, 1, 0, 1]);
    assert_eq!(color_slots(&vec![]), Vec::<usize>::new());
}

#[test]
fn window_follows_the_offset() {
    assert_eq!(window(0, 10, 100), (0, 10));
    assert_eq!(window(95, 10, 100), (95, 100));
    assert_eq!(window(100, 10, 100), (100, 100));
    assert_eq!(window(500, 10, 100), (100, 100));
    assert_eq!(window(3, 0, 100), (3, 3));
    assert_eq!(window(0, 10, 0), (0, 0));
    assert_eq!(window(usize::MAX, usize::MAX, usize::MAX), (usize::MAX, usize::MAX));
    assert_eq!(window(1, usize::MAX, 5), (1, 5));
}

#[test]
fn typing_edits_the_query_and_scrolls_to_the_top() {
    let mut browser = Browser::new();
    assert_eq!(browser.query, "");
    assert!(browser.press(Key::Down, 0));
    assert!(browser.press(Key::Down, 1));
    assert_eq!(browser.offset, 2);
    assert!(browser.press(Key::Char('i'), 100));
    assert_eq!(browser.offset, 0);
    assert!(browser.press(Key::Char('s'), 200));
    assert!(browser.press(Key::Char('\u{f6}'), 300));
    assert_eq!(browser.query, "is\u{f6}");
    assert!(browser.press(Key::Backspace, 400));
    assert_eq!(browser.query, "is");
    assert!(browser.press(Key::Down, 401));
    assert!(browser.press(Key::Delete, 500));
    assert_eq!(browser.query, "");
    assert_eq!(browser.offset, 0);
    assert!(browser.press(Key::Backspace, 600));
    assert_eq!(browser.query, "");
    assert_eq!(browser.last, Some((Key::Backspace, 600)));
}

#[test]
fn same_key_within_the_bounce_time_counts_once() {
    assert_eq!(BOUNCE_MS, 40);
    let mut browser = Browser::new();
    assert!(browser.press(Key::Char('a'), 1_000));
    assert!(browser.press(Key::Char('a'), 1_039));
    assert_eq!(browser.query, "a");
    assert_eq!(browser.last, Some((Key::Char('a'), 1_000)));
    assert!(browser.press(Key::Char('a'), 1_040));
    assert_eq!(browser.query, "aa");
    assert!(browser.press(Key::Char('b'), 1_041));
    assert_eq!(browser.query, "aab");
    assert!(browser.press(Key::Backspace, 1_042));
    assert!(browser.press(Key::Backspace, 1_043));
    assert_eq!(browser.query, "aa");
    assert!(!browser.accepts(Key::Backspace, 1_081));
    assert!(browser.accepts(Key::Backspace, 1_082));
    assert!(browser.accepts(Key::Delete, 1_043));
    // A clock that runs backwards counts as no time at all.
    assert!(!browser.accepts(Key::Backspace, 5));
}

#[test]
fn scrolling_stops_at_the_ends() {
    let mut browser = Browser::new();
    assert!(browser.press(Key::Up, 0));
    assert_eq!(browser.offset, 0);
    browser.offset = usize::MAX;
    assert!(browser.press(Key::Down, 0));
    assert_eq!(browser.offset, usize::MAX);
    assert!(browser.press(Key::Up, 0));
    assert_eq!(browser.offset, usize::MAX - 1);
    assert!(browser.press(Key::Other, 0));
    assert_eq!(browser.offset, usize::MAX - 1);
    assert_eq!(browser.last, None);
}

#[test]
fn escape_and_interrupt_end_the_browser() {
    let mut browser = Browser::new();
    browser.press(Key::Char('x'), 0);
    let before = browser.clone();
    assert!(!browser.press(Key::Escape, 10));
    assert!(!browser.press(Key::Interrupt, 20));
    assert_eq!(browser, before);
}

#[test]
fn report_is_read_as_an_array_of_objects() {
    let report = br#"[{"SourceFile":"a.nef","IFD0:Make":"NIKON","ExifIFD:FNumber":2.8,"Nikon:ISO":100,"X:Flag":true,"X:List":[1,2],"X:None":null}]"#;
    let object = merge_json_output(report).unwrap();
    assert_eq!(object.len(), 7);
    assert_eq!(
        parse_exiftool_json(&object),
        vec![
            entry("ExifIFD", "FNumber", "2.8"),
            entry("IFD0", "Make", "NIKON"),
            entry("Nikon", "ISO", "100"),
            entry("", "SourceFile", "a.nef"),
            entry("X", "Flag", "true"),
            entry("X", "List", "[1,2]"),
            entry("X", "None", "null"),
        ]
    );
}

#[test]
fn values_that_are_no_objects_have_no_members() {
    let object = merge_json_output(br#"[1, "two", {"a": "b"}, [], null]"#).unwrap();
    assert_eq!(parse_exiftool_json(&object), vec![entry("", "a", "b")]);
    assert_eq!(merge_json_output(b"[]"), Ok(serde_json::Map::new()));
    assert_eq!(merge_json_output(b"[7]"), Ok(serde_json::Map::new()));
    assert!(merge_json_output(b"{}").is_err());
    assert!(merge_json_output(b"not json").is_err());
    assert!(merge_json_output(b"").is_err());
}

#[test]
fn later_members_replace_earlier_ones() {
    let report = br#"[
        {"IFD0:Make": "first", "Nikon:ISO": 100},
        null,
        {"IFD0:Model": "D750", "IFD0:Make": "second"},
        {},
        {"SourceFile": "a.nef", "IFD0:Make": "third"}
    ]"#;
    let object = merge_json_output(report).unwrap();
    assert_eq!(
        parse_exiftool_json(&object),
        vec![
            entry("IFD0", "Make", "third"),
            entry("IFD0", "Model", "D750"),
            entry("Nikon", "ISO", "100"),
            entry("", "SourceFile", "a.nef"),
        ]
    );
    assert_eq!(parse_exiftool_json(&serde_json::Map::new()), vec![]);
    // Names that differ stay apart, also where they part into the same
    // group and tag.
    let object = merge_json_output(br#"[{"x": "1"}, {":x": "2"}]"#).unwrap();
    assert_eq!(parse_exiftool_json(&object), vec![entry("", "x", "2"), entry("", "x", "1")]);
    // A name that is written twice in one object has its last value.
    let object = merge_json_output(br#"[{"a": 1, "b": 2, "a": 3}]"#).unwrap();
    assert_eq!(parse_exiftool_json(&object), vec![entry("", "a", "3"), entry("", "b", "2")]);
}

#[test]
fn members_come_in_the_order_of_their_bytes() {
    let report = "[{\"b\": 1, \"B\": 2, \"\u{e9}\": 3, \"a\": 4, \"ab\": 5, \"\": 6, \"Z\": 7}]";
    let object = merge_json_output(report.as_bytes()).unwrap();
    let tags: Vec<String> = parse_exiftool_json(&object).into_iter().map(|e| e.tag).collect();
    assert_eq!(tags, vec!["", "B", "Z", "a", "ab", "b", "\u{e9}"]);
}

#[test]
fn report_becomes_a_table() {
    let report = br#"[{"IFD0:Make":"NIKON","Nikon:ISO":100},{"Nikon:ISO":200,"System:FileSize":12}]"#;
    let table = parse_exiftool_json(&merge_json_output(report).unwrap());
    let order = table_order(&table);
    let sorted: Vec<Entry> = order.into_iter().map(|i| table[i].clone()).collect();
    assert_eq!(
        sorted,
        vec![entry("IFD0", "Make", "NIKON"), entry("Nikon", "ISO", "200"), entry("System", "FileSize", "12")]
    );
}
