use gitdiff_tui::app::mouse::{add_scroll, move_idx};
use gitdiff_tui::edit::{byte_len, insert_char, next_boundary, prev_boundary, remove_char, split_line};
use gitdiff_tui::git::types::{Area, FileChange};
use gitdiff_tui::text::{int_to_string, join_strings, split_chars, chars_of};
use gitdiff_tui::ui::{
    bordered_inner, clamp_scroll, editor_top, line_tone, pad, short_hash, split_at_cursor, status_char, status_tone,
    window_start, Rect, Tone,
};

#[test]
fn window_keeps_selection_near_middle() {
    assert_eq!(window_start(0, 0, 10), 0);
    assert_eq!(window_start(5, 4, 10), 0);
    assert_eq!(window_start(100, 50, 10), 45);
    assert_eq!(window_start(100, 99, 10), 90);
    assert_eq!(window_start(100, 3, 10), 0);
    assert_eq!(window_start(100, 50, 0), 0);
}

#[test]
fn window_always_shows_selected_row() {
    for total in 1..40usize {
        for height in 1..12usize {
            for sel in 0..total {
                let s = window_start(total, sel, height);
                assert!(s <= sel && sel < s + height);
                if total > height {
                    assert!(s + height <= total);
                }
            }
        }
    }
}

#[test]
fn pad_cuts_or_fills_by_characters() {
    assert_eq!(pad("abc", 5), "abc  ");
    assert_eq!(pad("abcdef", 3), "abc");
    assert_eq!(pad("中文字", 2), "中文");
    assert_eq!(pad("", 0), "");
}

#[test]
fn cursor_split_around_character() {
    let (a, b, c) = split_at_cursor("héllo", 1);
    assert_eq!((a.as_str(), b.as_str(), c.as_str()), ("h", "é", "llo"));
    let (a, b, c) = split_at_cursor("abc", 10);
    assert_eq!((a.as_str(), b.as_str(), c.as_str()), ("abc", "", ""));
}

#[test]
fn boundaries_step_over_whole_characters() {
    let s = "a中b";
    assert_eq!(next_boundary(s, 0), 1);
    assert_eq!(next_boundary(s, 1), 4);
    assert_eq!(next_boundary(s, 4), 5);
    assert_eq!(next_boundary(s, 5), 5);
    assert_eq!(prev_boundary(s, 5), 4);
    assert_eq!(prev_boundary(s, 4), 1);
    assert_eq!(prev_boundary(s, 1), 0);
    assert_eq!(prev_boundary(s, 0), 0);
    assert_eq!(prev_boundary(s, 9), 4);
}

#[test]
fn line_editing_primitives() {
    assert_eq!(insert_char("ac", 1, 'b'), "abc");
    assert_eq!(insert_char("a", 1, '中'), "a中");
    assert_eq!(remove_char("a中b", 1), "ab");
    let (x, y) = split_line("hello", 2);
    assert_eq!((x.as_str(), y.as_str()), ("he", "llo"));
    assert_eq!(byte_len("中"), 3);
}

#[test]
fn typing_then_backspace_restores_line() {
    let line = "x中y";
    let col = 1;
    let typed = insert_char(line, col, 'é');
    let after = next_boundary(&typed, col);
    let back = prev_boundary(&typed, after);
    assert_eq!(back, col);
    assert_eq!(remove_char(&typed, back), line);
}

#[test]
fn selection_steps() {
    assert_eq!(move_idx(0, 1, 0), 0);
    assert_eq!(move_idx(2, 1, 5), 3);
    assert_eq!(move_idx(4, 1, 5), 4);
    assert_eq!(move_idx(0, -1, 5), 0);
    assert_eq!(move_idx(3, -1, 5), 2);
    assert_eq!(add_scroll(0, -1), 0);
    assert_eq!(add_scroll(7, 1), 8);
}

#[test]
fn tones_of_lines_and_letters() {
    assert_eq!(line_tone("+++ b/x"), Tone::Dim);
    assert_eq!(line_tone("--- a/x"), Tone::Dim);
    assert_eq!(line_tone("@@ -1 +1 @@"), Tone::Accent);
    assert_eq!(line_tone("+added"), Tone::Green);
    assert_eq!(line_tone("-gone"), Tone::Red);
    assert_eq!(line_tone(" ctx"), Tone::Plain);
    assert_eq!(status_tone('A'), Tone::Green);
    assert_eq!(status_tone('U'), Tone::Red);
    assert_eq!(status_tone('R'), Tone::Amber);
    assert_eq!(status_tone('?'), Tone::Dim);
    assert_eq!(status_tone('x'), Tone::Plain);
}

#[test]
fn status_letter_by_area() {
    let mut fc = FileChange {
        path: "p".to_string(),
        old_path: None,
        index_status: 'A',
        worktree_status: 'M',
        area: Area::Staged,
    };
    assert_eq!(status_char(&fc), 'A');
    fc.area = Area::Unstaged;
    assert_eq!(status_char(&fc), 'M');
}

#[test]
fn short_hashes() {
    assert_eq!(short_hash("0123456789abcdef"), "01234567");
    assert_eq!(short_hash("abc"), "abc");
}

#[test]
fn rectangles() {
    let r = Rect::new(2, 3, 10, 4);
    assert!(r.contains(2, 3));
    assert!(r.contains(11, 6));
    assert!(!r.contains(12, 6));
    assert!(!r.contains(5, 7));
    let inner = bordered_inner(r);
    assert_eq!(inner, Rect::new(3, 4, 8, 2));
    assert_eq!(bordered_inner(Rect::new(0, 0, 1, 1)), Rect::new(1, 1, 0, 0));
    let edge = Rect::new(u16::MAX - 1, 0, 10, 1);
    assert!(edge.contains(u16::MAX - 1, 0));
}

#[test]
fn scroll_windows() {
    assert_eq!(editor_top(0, 0, 10), 0);
    assert_eq!(editor_top(0, 15, 10), 6);
    assert_eq!(editor_top(8, 3, 10), 3);
    assert_eq!(clamp_scroll(50, 30, 10), 20);
    assert_eq!(clamp_scroll(5, 30, 10), 5);
    assert_eq!(clamp_scroll(5, 3, 10), 0);
}

#[test]
fn split_then_join_gives_back_text() {
    for text in ["", "a", "a\nb", "\n\n", "line1\nline2\n"] {
        let parts = split_chars(&chars_of(text), '\n');
        let strings: Vec<String> = parts.iter().map(|p| p.iter().collect()).collect();
        assert_eq!(join_strings(&strings, '\n'), text);
    }
}

#[test]
fn integers_as_text() {
    assert_eq!(int_to_string(0), "0");
    assert_eq!(int_to_string(-42), "-42");
    assert_eq!(int_to_string(i64::MIN), "-9223372036854775808");
}

#[test]
fn bordered_inner_saturates_at_the_edge() {
    assert_eq!(bordered_inner(Rect::new(u16::MAX, u16::MAX, 5, 1)), Rect::new(u16::MAX, u16::MAX, 3, 0));
}

#[test]
fn boundaries_undo_each_other() {
    let s = "aé中😀z";
    let bounds: Vec<usize> = (0..=s.len()).filter(|&i| s.is_char_boundary(i)).collect();
    for &i in &bounds {
        if i < s.len() {
            assert_eq!(prev_boundary(s, next_boundary(s, i)), i);
        }
        if i > 0 {
            let p = prev_boundary(s, i);
            assert!(p < i && s.is_char_boundary(p));
            assert_eq!(next_boundary(s, p), i);
        }
    }
}
