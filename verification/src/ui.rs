//! What the panels compute before drawing: visible windows of lists, cell
//! padding, the cursor cell of the editor, tones of status letters and diff
//! lines. Drawing itself is left to the terminal front end.
use vstd::prelude::*;
use vstd::utf8::is_char_boundary;

use crate::edit::{byte_len, bytes_of, split_line};
use crate::diff::{DiffRow, DiffTag};
use crate::git::types::{Area, FileChange};
use crate::text::{chars_of, concat, string_from, string_of};

verus! {

/// A rectangle of terminal cells.
#[derive(Debug, Clone, Copy, PartialEq, Eq, Structural)]
pub struct Rect {
    pub x: u16,
    pub y: u16,
    pub width: u16,
    pub height: u16,
}

pub open spec fn sat_add(a: u16, b: u16) -> int {
    if a + b > u16::MAX {
        u16::MAX as int
    } else {
        a + b
    }
}

pub open spec fn sat_sub(a: int, b: int) -> int {
    if a >= b {
        a - b
    } else {
        0
    }
}

impl Rect {
    pub fn new(x: u16, y: u16, width: u16, height: u16) -> (r: Rect)
        ensures
            r == (Rect { x, y, width, height }),
    {
        Rect { x, y, width, height }
    }

    pub open spec fn zero_spec() -> Rect {
        Rect { x: 0, y: 0, width: 0, height: 0 }
    }

    /// The rectangle of no cells at the origin.
    pub fn zero() -> (r: Rect)
        ensures
            r == Rect::zero_spec(),
    {
        Rect { x: 0, y: 0, width: 0, height: 0 }
    }

    /// Whether the cell `(x, y)` lies inside (right and bottom edges
    /// saturate at `u16::MAX`).
    pub open spec fn contains_spec(self, x: u16, y: u16) -> bool {
        x >= self.x && x < sat_add(self.x, self.width) && y >= self.y && y < sat_add(self.y, self.height)
    }

    pub fn contains(&self, x: u16, y: u16) -> (r: bool)
        ensures
            r == self.contains_spec(x, y),
    {
        x >= self.x && x < self.x.saturating_add(self.width) && y >= self.y && y < self.y.saturating_add(
            self.height,
        )
    }
}

/// The inside of a box with a one-cell border (edges saturate at
/// `u16::MAX`).
pub fn bordered_inner(area: Rect) -> (r: Rect)
    ensures
        r.x == sat_add(area.x, 1),
        r.y == sat_add(area.y, 1),
        r.width == sat_sub(area.width as int, 2),
        r.height == sat_sub(area.height as int, 2),
{
    Rect {
        x: area.x.saturating_add(1),
        y: area.y.saturating_add(1),
        width: area.width.saturating_sub(2),
        height: area.height.saturating_sub(2),
    }
}

/// The first row of a list of `total` rows shown `height` at a time, keeping
/// row `selected` near the middle of the window.
pub open spec fn window_start_spec(total: int, selected: int, height: int) -> int {
    if total == 0 || height == 0 || total <= height {
        0
    } else {
        let start = sat_sub(selected, height / 2);
        if start + height > total {
            total - height
        } else {
            start
        }
    }
}

/// The window's end can be computed in a `usize` (it always can when the
/// whole list fits in the window).
pub open spec fn window_fits(total: int, selected: int, height: int) -> bool {
    total > height && height > 0 ==> sat_sub(selected, height / 2) + height <= usize::MAX
}

/// The first visible row of a list (see `window_start_spec`).
pub fn window_start(total: usize, selected: usize, height: usize) -> (r: usize)
    requires
        window_fits(total as int, selected as int, height as int),
    ensures
        r == window_start_spec(total as int, selected as int, height as int),
{
    if total == 0 || height == 0 {
        return 0;
    }
    if total <= height {
        return 0;
    }
    let mut start = selected.saturating_sub(height / 2);
    if start + height > total {
        start = total - height;
    }
    start
}

/// The window always shows the selected row when there is one, and is
/// filled when the list is longer than the window.
pub proof fn law_window_shows_selected(total: int, selected: int, height: int)
    requires
        0 <= selected < total,
        height > 0,
    ensures
        ({
            let start = window_start_spec(total, selected, height);
            &&& 0 <= start <= selected
            &&& selected < start + height
            &&& (total > height ==> start + height <= total)
        }),
{
}

/// The letter shown for a change: the index letter when staged, the
/// work-tree letter otherwise.
pub fn status_char(fc: &FileChange) -> (r: char)
    ensures
        r == (if fc.area == Area::Staged { fc.index_status } else { fc.worktree_status }),
{
    match fc.area {
        Area::Staged => fc.index_status,
        _ => fc.worktree_status,
    }
}

/// `s` cut or padded with spaces to exactly `w` characters.
pub open spec fn pad_spec(s: Seq<char>, w: nat) -> Seq<char> {
    if s.len() >= w {
        s.take(w as int)
    } else {
        s + Seq::new((w - s.len()) as nat, |i: int| ' ')
    }
}

pub fn pad(s: &str, w: usize) -> (r: String)
    ensures
        r@ == pad_spec(s@, w as nat),
        r@.len() == w,
{
    let v = chars_of(s);
    if v.len() >= w {
        return string_from(&v, 0, w);
    }
    let mut out = string_of(&v);
    let mut k: usize = v.len();
    while k < w
        invariant
            v.len() <= k <= w,
            v@ == s@,
            out@ == s@ + Seq::new((k - v.len()) as nat, |i: int| ' '),
        decreases w - k,
    {
        out.push(' ');
        assert(out@ =~= s@ + Seq::new((k + 1 - v.len()) as nat, |i: int| ' '));
        k = k + 1;
    }
    out
}

/// The column the editor cursor is drawn at: `col`, taken no further than
/// the end of the line.
pub open spec fn cursor_cut(b: Seq<u8>, col: int) -> int {
    if col <= b.len() {
        col
    } else {
        b.len() as int
    }
}

/// The line of the editor cursor cut in three: what is before the cursor,
/// the character under it (empty at the end of the line) and what follows.
pub fn split_at_cursor(s: &str, col: usize) -> (r: (String, String, String))
    requires
        is_char_boundary(bytes_of(s@), cursor_cut(bytes_of(s@), col as int)),
    ensures
        bytes_of(r.0@) == bytes_of(s@).take(cursor_cut(bytes_of(s@), col as int)),
        r.0@ + r.1@ + r.2@ == s@,
        r.1@.len() <= 1,
        r.1@.len() == 0 ==> r.2@.len() == 0,
{
    let n = byte_len(s);
    let c = if col < n {
        col
    } else {
        n
    };
    let (before, after) = split_line(s, c);
    let v = chars_of(after.as_str());
    if v.len() == 0 {
        let at = String::new();
        let rest = String::new();
        assert(before@ + at@ + rest@ =~= s@);
        (before, at, rest)
    } else {
        let at = string_from(&v, 0, 1);
        let rest = string_from(&v, 1, v.len());
        assert(at@ + rest@ =~= after@);
        assert(before@ + at@ + rest@ =~= s@);
        (before, at, rest)
    }
}

/// The first eight bytes of a commit hash when they end on a character
/// boundary, the whole hash otherwise.
pub fn short_hash(hash: &str) -> (r: String)
    ensures
        ({
            let b = bytes_of(hash@);
            if b.len() >= 8 && is_char_boundary(b, 8) {
                bytes_of(r@) == b.take(8)
            } else {
                r@ == hash@
            }
        }),
{
    let n = byte_len(hash);
    if n >= 8 && hash.is_char_boundary(8) {
        let (a, _) = split_line(hash, 8);
        a
    } else {
        hash.to_string()
    }
}

/// How a line or a status letter is coloured.
#[derive(Debug, Clone, Copy, PartialEq, Eq, Structural)]
pub enum Tone {
    Plain,
    Dim,
    Accent,
    Green,
    Red,
    Amber,
    /// No colour of its own (blank cells).
    Bare,
}

/// The tone of a status letter.
pub open spec fn status_tone_spec(c: char) -> Tone {
    if c == 'A' {
        Tone::Green
    } else if c == 'D' || c == 'U' {
        Tone::Red
    } else if c == 'M' || c == 'R' || c == 'C' {
        Tone::Amber
    } else if c == '?' {
        Tone::Dim
    } else {
        Tone::Plain
    }
}

pub fn status_tone(c: char) -> (r: Tone)
    ensures
        r == status_tone_spec(c),
{
    if c == 'A' {
        Tone::Green
    } else if c == 'D' || c == 'U' {
        Tone::Red
    } else if c == 'M' || c == 'R' || c == 'C' {
        Tone::Amber
    } else if c == '?' {
        Tone::Dim
    } else {
        Tone::Plain
    }
}

/// The tone of a line of a unified diff or patch: file headers dim, hunk
/// headers accented, added lines green, removed lines red.
pub open spec fn line_tone_spec(s: Seq<char>) -> Tone {
    if s.len() >= 3 && ((s[0] == '+' && s[1] == '+' && s[2] == '+') || (s[0] == '-' && s[1] == '-' && s[2] == '-')) {
        Tone::Dim
    } else if s.len() >= 2 && s[0] == '@' && s[1] == '@' {
        Tone::Accent
    } else if s.len() >= 1 && s[0] == '+' {
        Tone::Green
    } else if s.len() >= 1 && s[0] == '-' {
        Tone::Red
    } else {
        Tone::Plain
    }
}

pub fn line_tone(s: &str) -> (r: Tone)
    ensures
        r == line_tone_spec(s@),
{
    let v = chars_of(s);
    let n = v.len();
    if n >= 3 && ((v[0] == '+' && v[1] == '+' && v[2] == '+') || (v[0] == '-' && v[1] == '-' && v[2] == '-')) {
        Tone::Dim
    } else if n >= 2 && v[0] == '@' && v[1] == '@' {
        Tone::Accent
    } else if n >= 1 && v[0] == '+' {
        Tone::Green
    } else if n >= 1 && v[0] == '-' {
        Tone::Red
    } else {
        Tone::Plain
    }
}

/// The first line shown by the editor: the remembered scroll, moved just
/// enough to keep the cursor line inside a window of `height` lines.
pub open spec fn editor_top_spec(scroll: int, cursor_line: int, height: int) -> int {
    let s = if cursor_line < scroll {
        cursor_line
    } else {
        scroll
    };
    if height > 0 && cursor_line >= s + height {
        cursor_line + 1 - height
    } else {
        s
    }
}

pub fn editor_top(scroll: usize, cursor_line: usize, height: usize) -> (r: usize)
    requires
        scroll + height <= usize::MAX,
    ensures
        r == editor_top_spec(scroll as int, cursor_line as int, height as int),
{
    let mut s = scroll;
    if cursor_line < s {
        s = cursor_line;
    }
    if height > 0 && cursor_line >= s + height {
        s = cursor_line - height + 1;
    }
    s
}

/// A scroll offset kept within the last full window.
pub fn clamp_scroll(scroll: usize, total: usize, height: usize) -> (r: usize)
    ensures
        r == (if scroll <= sat_sub(total as int, height as int) { scroll as int } else { sat_sub(total as int, height as int) }),
{
    let limit = total.saturating_sub(height);
    if scroll <= limit {
        scroll
    } else {
        limit
    }
}

/// The text of an optional side, empty when absent.
pub open spec fn side_text(o: Option<Seq<char>>) -> Seq<char> {
    match o {
        Some(t) => t,
        None => seq![],
    }
}

/// The two cells of a side-by-side row, each padded to `w` characters: equal
/// lines plain on both sides, a removed line red with `-` on the left, an
/// added line green with `+` on the right, a blank cell where a side has no
/// line.
pub open spec fn row_cells_spec(
    row: (DiffTag, Option<Seq<char>>, Option<Seq<char>>),
    w: nat,
) -> ((Seq<char>, Tone), (Seq<char>, Tone)) {
    let l = side_text(row.1);
    let r = side_text(row.2);
    let blank = (pad_spec(seq![], w), Tone::Bare);
    match row.0 {
        DiffTag::Equal => ((pad_spec(l, w), Tone::Plain), (pad_spec(l, w), Tone::Plain)),
        DiffTag::Mod => ((pad_spec(seq!['-'] + l, w), Tone::Red), (pad_spec(seq!['+'] + r, w), Tone::Green)),
        DiffTag::Del => ((pad_spec(seq!['-'] + l, w), Tone::Red), blank),
        DiffTag::Add => (blank, (pad_spec(seq!['+'] + r, w), Tone::Green)),
    }
}

fn side_string(o: &Option<String>) -> (r: String)
    ensures
        r@ == side_text(crate::diff::opt_chars(*o)),
{
    match o {
        Some(t) => t.clone(),
        None => String::new(),
    }
}

fn marked(mark: char, t: &String) -> (r: String)
    ensures
        r@ == seq![mark] + t@,
{
    let mut m = String::new();
    m.push(mark);
    let r = concat(m.as_str(), t.as_str());
    assert(m@ =~= seq![mark]);
    r
}

/// See `row_cells_spec`.
pub fn row_cells(row: &DiffRow, w: usize) -> (r: ((String, Tone), (String, Tone)))
    ensures
        ((r.0.0@, r.0.1), (r.1.0@, r.1.1)) == row_cells_spec(row@, w as nat),
{
    let l = side_string(&row.left);
    let r = side_string(&row.right);
    proof {
        reveal_strlit("");
    }
    match row.tag {
        DiffTag::Equal => ((pad(l.as_str(), w), Tone::Plain), (pad(l.as_str(), w), Tone::Plain)),
        DiffTag::Mod => (
            (pad(marked('-', &l).as_str(), w), Tone::Red),
            (pad(marked('+', &r).as_str(), w), Tone::Green),
        ),
        DiffTag::Del => ((pad(marked('-', &l).as_str(), w), Tone::Red), (pad("", w), Tone::Bare)),
        DiffTag::Add => ((pad("", w), Tone::Bare), (pad(marked('+', &r).as_str(), w), Tone::Green)),
    }
}

/// The title of the diff panel: the path and which change it shows.
pub open spec fn diff_title_spec(path: Seq<char>, staged: bool, untracked: bool) -> Seq<char> {
    " 差异 "@ + path + if untracked {
        " [未跟踪] "@
    } else if staged {
        " [暂存] "@
    } else {
        " [工作区] "@
    }
}

pub fn diff_title(path: &str, staged: bool, untracked: bool) -> (r: String)
    ensures
        r@ == diff_title_spec(path@, staged, untracked),
{
    let head = concat(" 差异 ", path);
    if untracked {
        concat(head.as_str(), " [未跟踪] ")
    } else if staged {
        concat(head.as_str(), " [暂存] ")
    } else {
        concat(head.as_str(), " [工作区] ")
    }
}

/// Whether row `i` of the side-by-side view is the difference under the
/// cursor (and is drawn highlighted).
pub fn highlighted(i: usize, active: Option<usize>) -> (r: bool)
    ensures
        r == (active == Some(i)),
{
    match active {
        Some(a) => a == i,
        None => false,
    }
}

} // verus!
