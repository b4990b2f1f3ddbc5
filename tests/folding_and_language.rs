use fresh_editor::folding::{
    Cursor, FoldManager, FoldToggle, LineIndex, LspFoldingRange, MarkerList,
};
use fresh_editor::language::detect_language;

/// Lines start at bytes 0, 10, 20, ..., 90 (ten lines of ten bytes).
fn ten_lines() -> LineIndex {
    LineIndex::new((0..10).map(|i| i * 10).collect()).unwrap()
}

#[test]
fn line_index_rejects_bad_starts() {
    assert!(LineIndex::new(vec![]).is_none());
    assert!(LineIndex::new(vec![1, 5]).is_none());
    assert!(LineIndex::new(vec![0, 5, 5]).is_none());
    let li = ten_lines();
    assert_eq!(li.get_line_number(0), 0);
    assert_eq!(li.get_line_number(9), 0);
    assert_eq!(li.get_line_number(10), 1);
    assert_eq!(li.get_line_number(95), 9);
    assert_eq!(li.get_line_number(1000), 9);
}

#[test]
fn add_resolve_and_count() {
    let li = ten_lines();
    let mut markers = MarkerList::new();
    let mut folds = FoldManager::new();
    assert!(folds.is_empty());
    // Hide lines 2..=4 under header line 1.
    folds.add(&mut markers, 20, 50, Some("...".to_string()));
    // Empty and reversed ranges are ignored.
    folds.add(&mut markers, 30, 30, None);
    folds.add(&mut markers, 40, 30, None);
    assert!(!folds.is_empty());

    let resolved = folds.resolved_ranges(&li, &markers);
    assert_eq!(resolved.len(), 1);
    let r = &resolved[0];
    assert_eq!((r.header_line, r.start_line, r.end_line), (1, 2, 4));
    assert_eq!((r.start_byte, r.end_byte), (20, 50));
    assert_eq!(r.placeholder.as_deref(), Some("..."));

    folds.add(&mut markers, 70, 90, None);
    let headers = folds.collapsed_headers(&li, &markers);
    assert_eq!(headers.len(), 2);
    assert_eq!(headers.get(&1), Some(&Some("...".to_string())));
    assert_eq!(headers.get(&6), Some(&None));

    assert_eq!(folds.hidden_line_count_in_range(&li, &markers, 0, 9), 5);
    assert_eq!(folds.hidden_line_count_in_range(&li, &markers, 0, 5), 3);
    assert_eq!(folds.hidden_line_count_in_range(&li, &markers, 7, 9), 0);
}

#[test]
fn fold_on_first_line_has_no_header() {
    let li = ten_lines();
    let mut markers = MarkerList::new();
    let mut folds = FoldManager::new();
    folds.add(&mut markers, 0, 15, None);
    assert!(folds.resolved_ranges(&li, &markers).is_empty());
}

#[test]
fn remove_by_header_and_by_byte() {
    let li = ten_lines();
    let mut markers = MarkerList::new();
    let mut folds = FoldManager::new();
    folds.add(&mut markers, 20, 50, None);
    folds.add(&mut markers, 70, 90, None);

    assert!(!folds.remove_by_header_line(&li, &mut markers, 3));
    assert!(folds.remove_by_header_line(&li, &mut markers, 1));
    assert_eq!(markers.get_position(0), None);
    assert_eq!(markers.get_position(1), None);
    assert_eq!(markers.get_position(2), Some(70));
    assert_eq!(folds.resolved_ranges(&li, &markers).len(), 1);

    assert!(!folds.remove_if_contains_byte(&mut markers, 90));
    assert!(folds.remove_if_contains_byte(&mut markers, 70));
    assert!(folds.is_empty());
    assert_eq!(markers.get_position(3), None);
}

#[test]
fn clear_deletes_markers() {
    let mut markers = MarkerList::new();
    let mut folds = FoldManager::new();
    folds.add(&mut markers, 20, 50, None);
    let other = markers.create(5, true);
    folds.clear(&mut markers);
    assert!(folds.is_empty());
    assert_eq!(markers.get_position(0), None);
    assert_eq!(markers.get_position(1), None);
    assert_eq!(markers.get_position(other), Some(5));
}

#[test]
fn language_from_extension() {
    let cases = [
        ("src/main.rs", Some("rust")),
        ("web/app.jsx", Some("javascript")),
        ("x.mjs", Some("javascript")),
        ("x.cjs", Some("javascript")),
        ("x.ts", Some("typescript")),
        ("x.tsx", Some("typescript")),
        ("tool.py", Some("python")),
        ("stub.pyi", Some("python")),
        ("data.json", Some("json")),
        ("README.md", Some("markdown")),
        ("Cargo.toml", Some("toml")),
        ("ci.yml", Some("yaml")),
        ("ci.yaml", Some("yaml")),
        ("index.html", Some("html")),
        ("site.css", Some("css")),
        ("main.go", Some("go")),
        ("a.c", Some("c")),
        ("a.h", Some("c")),
        ("a.cc", Some("cpp")),
        ("a.hxx", Some("cpp")),
        ("archive.tar.gz", None),
        ("Makefile", None),
        (".bashrc", None),
        ("dir.rs/file", None),
        ("/home/u/.config/init.lua", None),
        ("/home/u/.hidden.rs", Some("rust")),
        ("weird.", None),
        ("a.rs/", Some("rust")),
        ("a.rs/.", Some("rust")),
        ("dir/a.rs/./", Some("rust")),
        ("a//b.py", Some("python")),
        ("src/..", None),
        ("x.rs/..", None),
        (".", None),
        ("/", None),
        ("", None),
    ];
    for (path, expected) in cases {
        assert_eq!(detect_language(path).as_deref(), expected, "detect_language({:?})", path);
    }
}

fn range(start_line: u32, end_line: u32, text: Option<&str>) -> LspFoldingRange {
    LspFoldingRange { start_line, end_line, collapsed_text: text.map(|t| t.to_string()) }
}

#[test]
fn toggle_folds_narrowest_range_then_unfolds() {
    let li = ten_lines();
    let mut markers = MarkerList::new();
    let mut folds = FoldManager::new();
    let ranges = vec![
        range(1, 4, Some("{...}")),
        range(1, 3, Some(" \u{a0}\u{3000}\t")),
        range(1, 3, Some("second")),
        range(5, 5, None),
        range(6, 9, None),
    ];
    let mut cursors = vec![
        Cursor { position: 25, anchor: None, sticky_column: 5 },
        Cursor { position: 5, anchor: None, sticky_column: 5 },
        Cursor { position: 50, anchor: Some(35), sticky_column: 0 },
        Cursor { position: 45, anchor: Some(15), sticky_column: 2 },
    ];
    let r = folds.toggle_fold_at_line(&mut markers, &mut cursors, &li, 100, &ranges, 1, 25);
    assert_eq!(
        r,
        FoldToggle::Folded { start_byte: 20, end_byte: 40, header_byte: Some(10), new_top_byte: Some(10) }
    );
    let moved = Cursor { position: 10, anchor: None, sticky_column: 0 };
    assert_eq!(cursors[0], moved);
    assert_eq!(cursors[1], Cursor { position: 5, anchor: None, sticky_column: 5 });
    assert_eq!(cursors[2], moved);
    assert_eq!(cursors[3], Cursor { position: 45, anchor: Some(15), sticky_column: 2 });
    let resolved = folds.resolved_ranges(&li, &markers);
    assert_eq!(resolved.len(), 1);
    assert_eq!((resolved[0].header_line, resolved[0].end_line), (1, 3));
    // The collapsed text of the chosen range is blank: no placeholder.
    assert_eq!(resolved[0].placeholder, None);

    assert_eq!(folds.toggle_fold_at_line(&mut markers, &mut cursors, &li, 100, &ranges, 1, 25), FoldToggle::Unfolded);
    assert!(folds.is_empty());

    assert_eq!(folds.toggle_fold_at_line(&mut markers, &mut cursors, &li, 100, &ranges, 5, 0), FoldToggle::Unchanged);
    assert_eq!(folds.toggle_fold_at_line(&mut markers, &mut cursors, &li, 100, &ranges, 2, 0), FoldToggle::Unchanged);

    // A range that reaches the last line hides up to the end of the buffer.
    assert_eq!(
        folds.toggle_fold_at_line(&mut markers, &mut cursors, &li, 100, &ranges, 6, 25),
        FoldToggle::Folded { start_byte: 70, end_byte: 100, header_byte: Some(60), new_top_byte: None }
    );
    assert_eq!(folds.toggle_fold_at_cursor(&mut markers, &mut cursors, &li, 100, &ranges, 65, 0), FoldToggle::Unfolded);
    assert!(folds.is_empty());
}

#[test]
fn toggle_keeps_a_non_blank_placeholder() {
    let li = ten_lines();
    let mut markers = MarkerList::new();
    let mut folds = FoldManager::new();
    let ranges = vec![range(0, 2, Some(" {...} "))];
    let mut cursors = vec![Cursor { position: 3, anchor: None, sticky_column: 3 }];
    assert!(matches!(
        folds.toggle_fold_at_cursor(&mut markers, &mut cursors, &li, 100, &ranges, 3, 0),
        FoldToggle::Folded { start_byte: 10, end_byte: 30, .. }
    ));
    let headers = folds.collapsed_headers(&li, &markers);
    assert_eq!(headers.get(&0), Some(&Some(" {...} ".to_string())));
    assert_eq!(folds.toggle_fold_at_line(&mut markers, &mut cursors, &li, 100, &vec![], 4, 0), FoldToggle::Unchanged);
}
