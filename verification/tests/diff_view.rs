use gitdiff_tui::diff::{align_changes, side_by_side, ChangeKind, DiffRow, DiffTag, LineChange};
use gitdiff_tui::ui::{diff_title, row_cells, Tone};

fn cell(r: &DiffRow) -> (DiffTag, Option<&str>, Option<&str>) {
    (r.tag, r.left.as_deref(), r.right.as_deref())
}

#[test]
fn side_by_side_pairs_deletes_with_inserts() {
    let rows = side_by_side("a\nb\nc\n", "a\nB\nc\nd\n", 1000);
    let got: Vec<_> = rows.iter().map(cell).collect();
    assert_eq!(
        got,
        vec![
            (DiffTag::Equal, Some("a"), Some("a")),
            (DiffTag::Mod, Some("b"), Some("B")),
            (DiffTag::Equal, Some("c"), Some("c")),
            (DiffTag::Add, None, Some("d")),
        ]
    );
}

#[test]
fn side_by_side_cuts_at_max_lines() {
    let rows = side_by_side("a\nb\nc\n", "a\nB\nc\nd\n", 2);
    assert_eq!(rows.len(), 2);
    assert_eq!(rows[1].tag, DiffTag::Mod);
}

#[test]
fn side_by_side_of_removed_lines_and_crlf() {
    let rows = side_by_side("x\r\ny\r\n", "", 10);
    let got: Vec<_> = rows.iter().map(cell).collect();
    assert_eq!(got, vec![(DiffTag::Del, Some("x"), None), (DiffTag::Del, Some("y"), None)]);
}

#[test]
fn side_by_side_of_equal_texts_keeps_every_line() {
    let text = "one\ntwo\nthree";
    let rows = side_by_side(text, text, 100);
    assert_eq!(rows.len(), 3);
    assert!(rows.iter().all(|r| r.tag == DiffTag::Equal));
    assert_eq!(rows[2].left.as_deref(), Some("three"));
}

#[test]
fn alignment_keeps_both_sides_in_order() {
    let left = "1\n2\n3\n4\n";
    let right = "1\nx\ny\nz\n4\n5\n";
    let rows = side_by_side(left, right, 1000);
    let l: Vec<&str> = rows.iter().filter_map(|r| r.left.as_deref()).collect();
    let r: Vec<&str> = rows.iter().filter_map(|r| r.right.as_deref()).collect();
    assert_eq!(l, vec!["1", "2", "3", "4"]);
    assert_eq!(r, vec!["1", "x", "y", "z", "4", "5"]);
}

#[test]
fn align_changes_flushes_longer_side() {
    let ch = |kind, v: &str| LineChange { kind, value: v.to_string() };
    let changes = vec![
        ch(ChangeKind::Delete, "a\n"),
        ch(ChangeKind::Insert, "b\n"),
        ch(ChangeKind::Insert, "c\n"),
        ch(ChangeKind::Equal, "d\n"),
        ch(ChangeKind::Delete, "e\n"),
    ];
    let rows = align_changes(&changes, 100);
    let got: Vec<_> = rows.iter().map(cell).collect();
    assert_eq!(
        got,
        vec![
            (DiffTag::Mod, Some("a"), Some("b")),
            (DiffTag::Add, None, Some("c")),
            (DiffTag::Equal, Some("d"), Some("d")),
            (DiffTag::Del, Some("e"), None),
        ]
    );
}

#[test]
fn row_cells_pad_and_mark_sides() {
    let row = DiffRow { tag: DiffTag::Mod, left: Some("ab".to_string()), right: Some("abcdef".to_string()) };
    let ((l, lt), (r, rt)) = row_cells(&row, 4);
    assert_eq!(l, "-ab ");
    assert_eq!(lt, Tone::Red);
    assert_eq!(r, "+abc");
    assert_eq!(rt, Tone::Green);
    let row = DiffRow { tag: DiffTag::Add, left: None, right: Some("x".to_string()) };
    let ((l, lt), (r, _)) = row_cells(&row, 3);
    assert_eq!(l, "   ");
    assert_eq!(lt, Tone::Bare);
    assert_eq!(r, "+x ");
    let row = DiffRow { tag: DiffTag::Equal, left: Some("same".to_string()), right: Some("same".to_string()) };
    let ((l, lt), (r, rt)) = row_cells(&row, 2);
    assert_eq!((l.as_str(), lt, r.as_str(), rt), ("sa", Tone::Plain, "sa", Tone::Plain));
}

#[test]
fn diff_titles_name_the_side() {
    assert_eq!(diff_title("a.rs", false, true), " 差异 a.rs [未跟踪] ");
    assert_eq!(diff_title("a.rs", true, false), " 差异 a.rs [暂存] ");
    assert_eq!(diff_title("a.rs", false, false), " 差异 a.rs [工作区] ");
}

#[test]
fn changed_runs_are_modifications_then_pure_rows() {
    let rows = side_by_side("a\nb\nc\nd\ne\n", "a\nB\nC\nX\nY\nZ\ne\nf\n", 100);
    let tags: Vec<DiffTag> = rows.iter().map(|r| r.tag).collect();
    for w in tags.windows(2) {
        let (x, y) = (w[0], w[1]);
        assert!(!((x == DiffTag::Del || x == DiffTag::Add) && y == DiffTag::Mod));
        assert!(!(x == DiffTag::Del && y == DiffTag::Add));
        assert!(!(x == DiffTag::Add && y == DiffTag::Del));
    }
    assert!(tags.contains(&DiffTag::Mod));
}

#[test]
fn only_the_active_difference_is_highlighted() {
    assert!(gitdiff_tui::ui::highlighted(3, Some(3)));
    assert!(!gitdiff_tui::ui::highlighted(2, Some(3)));
    assert!(!gitdiff_tui::ui::highlighted(0, None));
}
