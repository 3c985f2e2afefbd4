//! Side-by-side alignment of two texts. The line diff itself comes from the
//! `similar` crate; this module pairs its deletions and insertions into rows.
use vstd::prelude::*;

use crate::text::{
    chars_of, lemma_scan_lines_concat, lemma_scan_no_newline, lines_of, scan_lines, string_from, strip_cr, trim_bounds,
    trim_end, CharClass,
};

verus! {

/// What a row of the side-by-side view shows.
#[derive(Debug, Clone, Copy, PartialEq, Eq, Structural)]
pub enum DiffTag {
    Equal,
    Add,
    Del,
    Mod,
}

/// One row of the side-by-side view: the left text, the right text, or both.
#[derive(Debug, Clone)]
pub struct DiffRow {
    pub tag: DiffTag,
    pub left: Option<String>,
    pub right: Option<String>,
}

pub open spec fn opt_chars(o: Option<String>) -> Option<Seq<char>> {
    match o {
        Some(s) => Some(s@),
        None => None,
    }
}

impl View for DiffRow {
    type V = (DiffTag, Option<Seq<char>>, Option<Seq<char>>);

    open spec fn view(&self) -> Self::V {
        (self.tag, opt_chars(self.left), opt_chars(self.right))
    }
}

/// The kind of one change of a line diff.
#[derive(Debug, Clone, Copy, PartialEq, Eq, Structural)]
pub enum ChangeKind {
    Equal,
    Delete,
    Insert,
}

/// One change of a line diff: a line (with its line ending) and whether it is
/// on both sides, only on the old side or only on the new side.
#[derive(Debug, Clone)]
pub struct LineChange {
    pub kind: ChangeKind,
    pub value: String,
}

impl View for LineChange {
    type V = (ChangeKind, Seq<char>);

    open spec fn view(&self) -> Self::V {
        (self.kind, self.value@)
    }
}

pub open spec fn change_seq(v: Seq<LineChange>) -> Seq<(ChangeKind, Seq<char>)> {
    v.map_values(|c: LineChange| c@)
}

pub open spec fn row_seq(v: Seq<DiffRow>) -> Seq<(DiffTag, Option<Seq<char>>, Option<Seq<char>>)> {
    v.map_values(|r: DiffRow| r@)
}

// ---------------------------------------------------------------------------
// The line diff of `similar`
// ---------------------------------------------------------------------------

/// The position just past the first line ending of `s` at or after `i`
/// (`\n`, `\r\n` or a lone `\r`), or the end of `s`.
pub open spec fn token_end(s: Seq<char>, i: int) -> int
    decreases s.len() - i,
{
    if i >= s.len() {
        s.len() as int
    } else if s[i] == '\n' {
        i + 1
    } else if s[i] == '\r' {
        if i + 1 < s.len() && s[i + 1] == '\n' {
            i + 2
        } else {
            i + 1
        }
    } else {
        token_end(s, i + 1)
    }
}

/// The lines of `s` as `similar` splits them for a line diff: each keeps its
/// line ending; the last one may have none.
pub open spec fn line_tokens(s: Seq<char>) -> Seq<Seq<char>>
    decreases s.len(),
{
    if s.len() == 0 {
        seq![]
    } else {
        let k = token_end(s, 0);
        if 0 < k <= s.len() {
            seq![s.take(k)] + line_tokens(s.skip(k))
        } else {
            seq![]
        }
    }
}

/// The values of the changes that belong to the old text, in order.
pub open spec fn old_side(cs: Seq<(ChangeKind, Seq<char>)>) -> Seq<Seq<char>>
    decreases cs.len(),
{
    if cs.len() == 0 {
        seq![]
    } else {
        old_side(cs.drop_last()) + if cs.last().0 != ChangeKind::Insert {
            seq![cs.last().1]
        } else {
            seq![]
        }
    }
}

/// The values of the changes that belong to the new text, in order.
pub open spec fn new_side(cs: Seq<(ChangeKind, Seq<char>)>) -> Seq<Seq<char>>
    decreases cs.len(),
{
    if cs.len() == 0 {
        seq![]
    } else {
        new_side(cs.drop_last()) + if cs.last().0 != ChangeKind::Delete {
            seq![cs.last().1]
        } else {
            seq![]
        }
    }
}

/// The changes that `similar::TextDiff::from_lines(old, new)` reports, in the
/// order of `iter_all_changes`.
pub uninterp spec fn line_diff(old: Seq<char>, new: Seq<char>) -> Seq<(ChangeKind, Seq<char>)>;

/// Calls `similar::TextDiff::from_lines(old, new)` and hands out
/// `iter_all_changes()` as (kind, line) pairs. The contract claims that the
/// result is a function of the two texts (the default configuration has no
/// deadline), and that the lines on the old side, in order, are the old text
/// split by `tokenize_lines`, and those on the new side the new text: the
/// diff operations cover both sequences, equal segments being on both sides.
/// Which lines are reported equal is left unsaid.
#[verifier::external_body]
fn line_changes(old: &str, new: &str) -> (r: Vec<LineChange>)
    ensures
        change_seq(r@) == line_diff(old@, new@),
        old_side(change_seq(r@)) == line_tokens(old@),
        new_side(change_seq(r@)) == line_tokens(new@),
{
    let diff = similar::TextDiff::from_lines(old, new);
    diff.iter_all_changes().map(|c| LineChange {
        kind: match c.tag() {
            similar::ChangeTag::Equal => ChangeKind::Equal,
            similar::ChangeTag::Delete => ChangeKind::Delete,
            similar::ChangeTag::Insert => ChangeKind::Insert,
        },
        value: c.value().to_string(),
    }).collect()
}

// ---------------------------------------------------------------------------
// Alignment
// ---------------------------------------------------------------------------

/// A line without its trailing `\n`s and then its trailing `\r`s.
pub open spec fn clean_spec(s: Seq<char>) -> Seq<char> {
    trim_end(trim_end(s, CharClass::Newline), CharClass::CarriageReturn)
}

/// The rows that pair the pending deletions with the pending insertions:
/// row `i` holds the `i`-th of each, a modification when both exist.
pub open spec fn pair_rows(dels: Seq<Seq<char>>, ins: Seq<Seq<char>>) -> Seq<(DiffTag, Option<Seq<char>>, Option<Seq<char>>)> {
    let n = if dels.len() >= ins.len() {
        dels.len()
    } else {
        ins.len()
    };
    Seq::new(
        n,
        |i: int|
            if i < dels.len() && i < ins.len() {
                (DiffTag::Mod, Some(dels[i]), Some(ins[i]))
            } else if i < dels.len() {
                (DiffTag::Del, Some(dels[i]), None)
            } else {
                (DiffTag::Add, None, Some(ins[i]))
            },
    )
}

/// The rows for the changes `cs`, given deletions and insertions still
/// pending: an equal line first pairs what is pending, then stands on both
/// sides; deletions and insertions wait until the next equal line or the end.
pub open spec fn align_from(
    cs: Seq<(ChangeKind, Seq<char>)>,
    dels: Seq<Seq<char>>,
    ins: Seq<Seq<char>>,
) -> Seq<(DiffTag, Option<Seq<char>>, Option<Seq<char>>)>
    decreases cs.len(),
{
    if cs.len() == 0 {
        pair_rows(dels, ins)
    } else {
        let v = clean_spec(cs[0].1);
        match cs[0].0 {
            ChangeKind::Equal => pair_rows(dels, ins) + seq![(DiffTag::Equal, Some(v), Some(v))]
                + align_from(cs.drop_first(), seq![], seq![]),
            ChangeKind::Delete => align_from(cs.drop_first(), dels.push(v), ins),
            ChangeKind::Insert => align_from(cs.drop_first(), dels, ins.push(v)),
        }
    }
}

/// The rows for the changes `cs`.
pub open spec fn align(cs: Seq<(ChangeKind, Seq<char>)>) -> Seq<(DiffTag, Option<Seq<char>>, Option<Seq<char>>)> {
    align_from(cs, seq![], seq![])
}

/// At most `max` rows: the first ones.
pub open spec fn cap_rows<T>(rows: Seq<T>, max: nat) -> Seq<T> {
    if rows.len() > max {
        rows.take(max as int)
    } else {
        rows
    }
}

pub open spec fn string_seq(v: Seq<String>) -> Seq<Seq<char>> {
    v.map_values(|s: String| s@)
}

/// A line without its trailing `\n`s and then its trailing `\r`s.
fn clean(s: &str) -> (r: String)
    ensures
        r@ == clean_spec(s@),
{
    let v = chars_of(s);
    let (a, b) = trim_bounds(&v, 0, v.len(), CharClass::Newline, false, true);
    assert(v@.subrange(0, v@.len() as int) =~= v@);
    let (c, d) = trim_bounds(&v, a, b, CharClass::CarriageReturn, false, true);
    string_from(&v, c, d)
}

fn take_string(v: &Vec<String>, i: usize) -> (r: Option<String>)
    ensures
        i < v.len() ==> r is Some && r->0@ == v@[i as int]@,
        i >= v.len() ==> r is None,
{
    if i < v.len() {
        Some(v[i].clone())
    } else {
        None
    }
}

/// Appends the rows pairing `dels` with `ins` and empties both.
fn flush(dels: &mut Vec<String>, ins: &mut Vec<String>, rows: &mut Vec<DiffRow>)
    ensures
        row_seq(final(rows)@) == row_seq(old(rows)@) + pair_rows(string_seq(old(dels)@), string_seq(old(ins)@)),
        final(dels)@.len() == 0,
        final(ins)@.len() == 0,
{
    let ghost d = string_seq(dels@);
    let ghost s = string_seq(ins@);
    let ghost start = row_seq(rows@);
    let n = if dels.len() >= ins.len() {
        dels.len()
    } else {
        ins.len()
    };
    let mut i: usize = 0;
    while i < n
        invariant
            0 <= i <= n,
            n == pair_rows(d, s).len(),
            d == string_seq(dels@),
            s == string_seq(ins@),
            row_seq(rows@) == start + pair_rows(d, s).take(i as int),
        decreases n - i,
    {
        let l = take_string(dels, i);
        let r = take_string(ins, i);
        let tag = if l.is_some() && r.is_some() {
            DiffTag::Mod
        } else if l.is_some() {
            DiffTag::Del
        } else {
            DiffTag::Add
        };
        proof {
            if i < dels.len() {
                assert(d[i as int] == dels@[i as int]@);
            }
            if i < ins.len() {
                assert(s[i as int] == ins@[i as int]@);
            }
            assert(pair_rows(d, s)[i as int] == (tag, opt_chars(l), opt_chars(r)));
        }
        let ghost row_view = (tag, opt_chars(l), opt_chars(r));
        let ghost prev = row_seq(rows@);
        rows.push(DiffRow { tag, left: l, right: r });
        assert(rows@.last()@ == row_view);
        assert(row_seq(rows@) =~= prev.push(row_view));
        assert(pair_rows(d, s).take(i + 1) =~= pair_rows(d, s).take(i as int).push(row_view));
        assert(row_seq(rows@) =~= start + pair_rows(d, s).take(i + 1));
        i = i + 1;
    }
    assert(pair_rows(d, s).take(n as int) =~= pair_rows(d, s));
    dels.clear();
    ins.clear();
}

/// Pairs the changes of a line diff into side-by-side rows: an equal line is
/// one row on both sides; each run of deletions and insertions between equal
/// lines becomes rows pairing its `i`-th deletion with its `i`-th insertion
/// (a modification), the rest being pure deletions or insertions. Line
/// endings are dropped; at most `max_lines` rows are kept.
pub fn align_changes(changes: &Vec<LineChange>, max_lines: usize) -> (rows: Vec<DiffRow>)
    ensures
        row_seq(rows@) == cap_rows(align(change_seq(changes@)), max_lines as nat),
{
    let ghost cs = change_seq(changes@);
    let mut rows: Vec<DiffRow> = Vec::new();
    let mut dels: Vec<String> = Vec::new();
    let mut ins: Vec<String> = Vec::new();
    let mut i: usize = 0;
    assert(cs.skip(0) =~= cs);
    assert(row_seq(rows@) =~= Seq::<(DiffTag, Option<Seq<char>>, Option<Seq<char>>)>::empty());
    assert(string_seq(dels@) =~= Seq::<Seq<char>>::empty());
    assert(string_seq(ins@) =~= Seq::<Seq<char>>::empty());
    assert(row_seq(rows@) + align(cs) =~= align(cs));
    while i < changes.len()
        invariant
            0 <= i <= changes.len(),
            cs == change_seq(changes@),
            row_seq(rows@) + align_from(cs.skip(i as int), string_seq(dels@), string_seq(ins@)) == align(cs),
        decreases changes.len() - i,
    {
        let ghost before = row_seq(rows@);
        let ghost d0 = string_seq(dels@);
        let ghost i0 = string_seq(ins@);
        assert(cs.skip(i as int).drop_first() =~= cs.skip(i + 1));
        assert(cs.skip(i as int)[0] == changes@[i as int]@);
        let value = clean(changes[i].value.as_str());
        match changes[i].kind {
            ChangeKind::Equal => {
                flush(&mut dels, &mut ins, &mut rows);
                rows.push(DiffRow { tag: DiffTag::Equal, left: Some(value.clone()), right: Some(value) });
                assert(string_seq(dels@) =~= Seq::<Seq<char>>::empty());
                assert(string_seq(ins@) =~= Seq::<Seq<char>>::empty());
                assert(row_seq(rows@) =~= before + pair_rows(d0, i0) + seq![(DiffTag::Equal, Some(clean_spec(cs[i as int].1)), Some(clean_spec(cs[i as int].1)))]);
            },
            ChangeKind::Delete => {
                dels.push(value);
                assert(string_seq(dels@) =~= d0.push(clean_spec(cs[i as int].1)));
            },
            ChangeKind::Insert => {
                ins.push(value);
                assert(string_seq(ins@) =~= i0.push(clean_spec(cs[i as int].1)));
            },
        }
        i = i + 1;
    }
    assert(cs.skip(i as int) =~= Seq::<(ChangeKind, Seq<char>)>::empty());
    flush(&mut dels, &mut ins, &mut rows);
    if rows.len() > max_lines {
        rows.truncate(max_lines);
        assert(row_seq(rows@) =~= align(cs).take(max_lines as int));
    }
    rows
}

// ---------------------------------------------------------------------------
// What the alignment keeps of both texts
// ---------------------------------------------------------------------------

/// The texts of the left column, top to bottom, skipping empty cells.
pub open spec fn left_cells(rows: Seq<(DiffTag, Option<Seq<char>>, Option<Seq<char>>)>) -> Seq<Seq<char>>
    decreases rows.len(),
{
    if rows.len() == 0 {
        seq![]
    } else {
        left_cells(rows.drop_last()) + match rows.last().1 {
            Some(v) => seq![v],
            None => seq![],
        }
    }
}

/// The texts of the right column, top to bottom, skipping empty cells.
pub open spec fn right_cells(rows: Seq<(DiffTag, Option<Seq<char>>, Option<Seq<char>>)>) -> Seq<Seq<char>>
    decreases rows.len(),
{
    if rows.len() == 0 {
        seq![]
    } else {
        right_cells(rows.drop_last()) + match rows.last().2 {
            Some(v) => seq![v],
            None => seq![],
        }
    }
}

/// Each line without its line ending.
pub open spec fn cleaned(xs: Seq<Seq<char>>) -> Seq<Seq<char>> {
    xs.map_values(|x: Seq<char>| clean_spec(x))
}

proof fn lemma_cells_concat(
    a: Seq<(DiffTag, Option<Seq<char>>, Option<Seq<char>>)>,
    b: Seq<(DiffTag, Option<Seq<char>>, Option<Seq<char>>)>,
)
    ensures
        left_cells(a + b) == left_cells(a) + left_cells(b),
        right_cells(a + b) == right_cells(a) + right_cells(b),
    decreases b.len(),
{
    if b.len() == 0 {
        assert(a + b =~= a);
    } else {
        assert((a + b).drop_last() =~= a + b.drop_last());
        lemma_cells_concat(a, b.drop_last());
    }
}

proof fn lemma_cells_pair(d: Seq<Seq<char>>, s: Seq<Seq<char>>, k: int)
    requires
        0 <= k <= pair_rows(d, s).len(),
    ensures
        left_cells(pair_rows(d, s).take(k)) == d.take(if k <= d.len() { k } else { d.len() as int }),
        right_cells(pair_rows(d, s).take(k)) == s.take(if k <= s.len() { k } else { s.len() as int }),
    decreases k,
{
    if k > 0 {
        lemma_cells_pair(d, s, k - 1);
        assert(pair_rows(d, s).take(k).drop_last() =~= pair_rows(d, s).take(k - 1));
        if k <= d.len() {
            assert(d.take(k) =~= d.take(k - 1).push(d[k - 1]));
        }
        if k <= s.len() {
            assert(s.take(k) =~= s.take(k - 1).push(s[k - 1]));
        }
    }
}

proof fn lemma_cells_pair_all(d: Seq<Seq<char>>, s: Seq<Seq<char>>)
    ensures
        left_cells(pair_rows(d, s)) == d,
        right_cells(pair_rows(d, s)) == s,
{
    let n = pair_rows(d, s).len() as int;
    lemma_cells_pair(d, s, n);
    assert(pair_rows(d, s).take(n) =~= pair_rows(d, s));
    assert(d.take(d.len() as int) =~= d);
    assert(s.take(s.len() as int) =~= s);
}

proof fn lemma_sides_first(cs: Seq<(ChangeKind, Seq<char>)>)
    requires
        cs.len() > 0,
    ensures
        old_side(cs) == (if cs[0].0 != ChangeKind::Insert { seq![cs[0].1] } else { seq![] }) + old_side(cs.drop_first()),
        new_side(cs) == (if cs[0].0 != ChangeKind::Delete { seq![cs[0].1] } else { seq![] }) + new_side(cs.drop_first()),
    decreases cs.len(),
{
    if cs.len() == 1 {
        assert(cs.drop_first() =~= Seq::<(ChangeKind, Seq<char>)>::empty());
        assert(cs.drop_last() =~= Seq::<(ChangeKind, Seq<char>)>::empty());
    } else {
        lemma_sides_first(cs.drop_last());
        assert(cs.drop_last().drop_first() =~= cs.drop_first().drop_last());
        assert(cs.drop_first().last() == cs.last());
        assert(cs.drop_last()[0] == cs[0]);
    }
}

proof fn lemma_align_cells(cs: Seq<(ChangeKind, Seq<char>)>, d: Seq<Seq<char>>, s: Seq<Seq<char>>)
    ensures
        left_cells(align_from(cs, d, s)) == d + cleaned(old_side(cs)),
        right_cells(align_from(cs, d, s)) == s + cleaned(new_side(cs)),
    decreases cs.len(),
{
    if cs.len() == 0 {
        lemma_cells_pair_all(d, s);
        assert(d + cleaned(old_side(cs)) =~= d);
        assert(s + cleaned(new_side(cs)) =~= s);
    } else {
        let rest = cs.drop_first();
        let v = clean_spec(cs[0].1);
        lemma_sides_first(cs);
        match cs[0].0 {
            ChangeKind::Equal => {
                let e: Seq<Seq<char>> = seq![];
                lemma_align_cells(rest, e, e);
                let row = seq![(DiffTag::Equal, Some(v), Some(v))];
                lemma_cells_concat(pair_rows(d, s) + row, align_from(rest, e, e));
                lemma_cells_concat(pair_rows(d, s), row);
                lemma_cells_pair_all(d, s);
                assert(row.drop_last() =~= Seq::<(DiffTag, Option<Seq<char>>, Option<Seq<char>>)>::empty());
                assert(left_cells(row.drop_last()) == Seq::<Seq<char>>::empty());
                assert(right_cells(row.drop_last()) == Seq::<Seq<char>>::empty());
                assert(row.last() == (DiffTag::Equal, Some(v), Some(v)));
                assert(left_cells(row) =~= seq![v]);
                assert(right_cells(row) =~= seq![v]);
                assert(cleaned(old_side(cs)) =~= seq![v] + cleaned(old_side(rest)));
                assert(cleaned(new_side(cs)) =~= seq![v] + cleaned(new_side(rest)));
                assert(d + cleaned(old_side(cs)) =~= d + seq![v] + (e + cleaned(old_side(rest))));
                assert(s + cleaned(new_side(cs)) =~= s + seq![v] + (e + cleaned(new_side(rest))));
            },
            ChangeKind::Delete => {
                lemma_align_cells(rest, d.push(v), s);
                assert(cleaned(old_side(cs)) =~= seq![v] + cleaned(old_side(rest)));
                assert(d + cleaned(old_side(cs)) =~= d.push(v) + cleaned(old_side(rest)));
                assert(cleaned(new_side(cs)) =~= cleaned(new_side(rest)));
            },
            ChangeKind::Insert => {
                lemma_align_cells(rest, d, s.push(v));
                assert(cleaned(new_side(cs)) =~= seq![v] + cleaned(new_side(rest)));
                assert(s + cleaned(new_side(cs)) =~= s.push(v) + cleaned(new_side(rest)));
                assert(cleaned(old_side(cs)) =~= cleaned(old_side(rest)));
            },
        }
    }
}

/// The alignment loses and invents nothing: read top to bottom, the left
/// column is the old side of the changes and the right column their new side,
/// each line without its line ending.
pub proof fn law_align_keeps_both_sides(cs: Seq<(ChangeKind, Seq<char>)>)
    ensures
        left_cells(align(cs)) == cleaned(old_side(cs)),
        right_cells(align(cs)) == cleaned(new_side(cs)),
{
    let e: Seq<Seq<char>> = seq![];
    lemma_align_cells(cs, e, e);
    assert(e + cleaned(old_side(cs)) =~= cleaned(old_side(cs)));
    assert(e + cleaned(new_side(cs)) =~= cleaned(new_side(cs)));
}

/// Aligns two texts line by line for the side-by-side view (see
/// `align_changes`), at most `max_lines` rows. When no row was cut off, the
/// left column read top to bottom is the left text line by line and the right
/// column the right text, without line endings.
pub fn side_by_side(left: &str, right: &str, max_lines: usize) -> (rows: Vec<DiffRow>)
    ensures
        row_seq(rows@) == cap_rows(align(line_diff(left@, right@)), max_lines as nat),
        align(line_diff(left@, right@)).len() <= max_lines ==> left_cells(row_seq(rows@)) == cleaned(line_tokens(left@))
            && right_cells(row_seq(rows@)) == cleaned(line_tokens(right@)),
        well_paired(row_seq(rows@)),
        align(line_diff(left@, right@)).len() <= max_lines && (forall|j: int| 0 <= j < left@.len() ==> left@[j] != '\r')
            ==> left_cells(row_seq(rows@)) == lines_of(left@),
        align(line_diff(left@, right@)).len() <= max_lines && (forall|j: int| 0 <= j < right@.len() ==> right@[j] != '\r')
            ==> right_cells(row_seq(rows@)) == lines_of(right@),
{
    let changes = line_changes(left, right);
    proof {
        law_align_keeps_both_sides(change_seq(changes@));
        law_changed_runs_shape(change_seq(changes@), max_lines as nat);
        if forall|j: int| 0 <= j < left@.len() ==> left@[j] != '\r' {
            law_cells_are_lines(left@);
        }
        if forall|j: int| 0 <= j < right@.len() ==> right@[j] != '\r' {
            law_cells_are_lines(right@);
        }
    }
    align_changes(&changes, max_lines)
}

// ---------------------------------------------------------------------------
// The shape of the changed runs
// ---------------------------------------------------------------------------

/// Two neighbouring tags fit a run of modifications followed only by
/// deletions or only by additions: no modification after a pure row, no
/// switch between deletions and additions.
pub open spec fn fits_after(a: DiffTag, b: DiffTag) -> bool {
    &&& !((a == DiffTag::Del || a == DiffTag::Add) && b == DiffTag::Mod)
    &&& !(a == DiffTag::Del && b == DiffTag::Add)
    &&& !(a == DiffTag::Add && b == DiffTag::Del)
}

/// Every maximal run of changed rows is some modifications followed only by
/// deletions or only by additions.
pub open spec fn well_paired(rows: Seq<(DiffTag, Option<Seq<char>>, Option<Seq<char>>)>) -> bool {
    forall|k: int| 0 <= k < rows.len() - 1 ==> fits_after(#[trigger] rows[k].0, rows[k + 1].0)
}

proof fn lemma_pair_rows_shape(d: Seq<Seq<char>>, s: Seq<Seq<char>>)
    ensures
        well_paired(pair_rows(d, s)),
{
}

proof fn lemma_join_at_equal(
    x: Seq<(DiffTag, Option<Seq<char>>, Option<Seq<char>>)>,
    e: (DiffTag, Option<Seq<char>>, Option<Seq<char>>),
    y: Seq<(DiffTag, Option<Seq<char>>, Option<Seq<char>>)>,
)
    requires
        well_paired(x),
        well_paired(y),
        e.0 == DiffTag::Equal,
    ensures
        well_paired(x + seq![e] + y),
{
    let r = x + seq![e] + y;
    assert forall|k: int| 0 <= k < r.len() - 1 implies fits_after(#[trigger] r[k].0, r[k + 1].0) by {
        if k < x.len() - 1 {
            assert(r[k] == x[k] && r[k + 1] == x[k + 1]);
        } else if k == x.len() - 1 {
            assert(r[k + 1] == e);
        } else if k == x.len() {
            assert(r[k] == e);
        } else {
            assert(r[k] == y[k - x.len() - 1] && r[k + 1] == y[k - x.len()]);
        }
    }
}

proof fn lemma_align_from_shape(cs: Seq<(ChangeKind, Seq<char>)>, d: Seq<Seq<char>>, s: Seq<Seq<char>>)
    ensures
        well_paired(align_from(cs, d, s)),
    decreases cs.len(),
{
    if cs.len() == 0 {
        lemma_pair_rows_shape(d, s);
    } else {
        let v = clean_spec(cs[0].1);
        match cs[0].0 {
            ChangeKind::Equal => {
                lemma_pair_rows_shape(d, s);
                lemma_align_from_shape(cs.drop_first(), seq![], seq![]);
                lemma_join_at_equal(
                    pair_rows(d, s),
                    (DiffTag::Equal, Some(v), Some(v)),
                    align_from(cs.drop_first(), seq![], seq![]),
                );
            },
            ChangeKind::Delete => lemma_align_from_shape(cs.drop_first(), d.push(v), s),
            ChangeKind::Insert => lemma_align_from_shape(cs.drop_first(), d, s.push(v)),
        }
    }
}

/// Adjacent deleted and inserted lines are paired as modifications and the
/// surplus stays pure: in the rows of the side-by-side view (cut to any
/// number of rows), every run of changed rows is some modifications
/// followed only by deletions or only by additions.
pub proof fn law_changed_runs_shape(cs: Seq<(ChangeKind, Seq<char>)>, max: nat)
    ensures
        well_paired(align(cs)),
        well_paired(cap_rows(align(cs), max)),
{
    lemma_align_from_shape(cs, seq![], seq![]);
    let r = align(cs);
    if r.len() > max {
        let t = r.take(max as int);
        assert forall|k: int| 0 <= k < t.len() - 1 implies fits_after(#[trigger] t[k].0, t[k + 1].0) by {
            assert(t[k] == r[k] && t[k + 1] == r[k + 1]);
        }
    }
}

// ---------------------------------------------------------------------------
// Cells are the lines of the texts
// ---------------------------------------------------------------------------

/// Without carriage returns, `token_end` from `i` stops just past the first
/// line feed at or after `i`, or at the end.
proof fn lemma_token_end_props(s: Seq<char>, i: int)
    requires
        0 <= i < s.len(),
        forall|j: int| 0 <= j < s.len() ==> s[j] != '\r',
    ensures
        i < token_end(s, i) <= s.len(),
        forall|j: int| i <= j < token_end(s, i) - 1 ==> s[j] != '\n',
        s[token_end(s, i) - 1] == '\n' || token_end(s, i) == s.len(),
    decreases s.len() - i,
{
    assert(s[i] != '\r');
    if s[i] == '\n' {
        assert(token_end(s, i) == i + 1);
    } else {
        assert(token_end(s, i) == token_end(s, i + 1));
        if i + 1 < s.len() {
            lemma_token_end_props(s, i + 1);
        } else {
            assert(token_end(s, i + 1) == s.len());
        }
    }
}

/// Without carriage returns, the diff's line cells of a text are its lines
/// as `str::lines` gives them: each line keeps everything but its line feed
/// (leading and other white space included), and a last line without a line
/// feed is kept whole.
pub proof fn law_cells_are_lines(s: Seq<char>)
    requires
        forall|j: int| 0 <= j < s.len() ==> s[j] != '\r',
    ensures
        cleaned(line_tokens(s)) == lines_of(s),
    decreases s.len(),
{
    if s.len() > 0 {
        lemma_token_end_props(s, 0);
        let r = token_end(s, 0);
        let rest = s.skip(r);
        assert forall|j: int| 0 <= j < rest.len() implies rest[j] != '\r' by {
            assert(rest[j] == s[j + r]);
        }
        law_cells_are_lines(rest);
        assert(line_tokens(s) == seq![s.take(r)] + line_tokens(rest));
        assert(cleaned(seq![s.take(r)] + line_tokens(rest)) =~= seq![clean_spec(s.take(r))] + cleaned(line_tokens(rest)));
        if s[r - 1] == '\n' {
            let body = s.take(r - 1);
            assert forall|j: int| 0 <= j < body.len() implies body[j] != '\n' by {}
            assert(s.take(r).drop_last() =~= body);
            assert(trim_end(s.take(r), CharClass::Newline) == trim_end(body, CharClass::Newline));
            assert(trim_end(body, CharClass::Newline) == body);
            assert(trim_end(body, CharClass::CarriageReturn) == body);
            assert(clean_spec(s.take(r)) == body);
            lemma_scan_no_newline(body);
            assert(body.push('\n') =~= s.take(r));
            assert(strip_cr(body) == body);
            assert(scan_lines(s.take(r)) == (seq![body], Seq::<char>::empty()));
            lemma_scan_lines_concat(s.take(r), rest);
            assert(s.take(r) + rest =~= s);
            let (d, c) = scan_lines(rest);
            if c.len() > 0 {
                assert((seq![body] + d).push(c) =~= seq![body] + d.push(c));
            }
            assert(lines_of(s) =~= seq![body] + lines_of(rest));
        } else {
            assert(r == s.len());
            assert forall|j: int| 0 <= j < s.len() implies s[j] != '\n' by {}
            assert(s.take(r) =~= s);
            assert(rest =~= Seq::<char>::empty());
            assert(trim_end(s, CharClass::Newline) == s);
            assert(trim_end(s, CharClass::CarriageReturn) == s);
            lemma_scan_no_newline(s);
            assert(lines_of(s) =~= seq![s]);
            assert(line_tokens(rest) =~= Seq::<Seq<char>>::empty());
        }
    }
}

} // verus!
