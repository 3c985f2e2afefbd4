//! Parsers for the text that `git` prints: porcelain status, log lines,
//! branch lists and name-status lists.
use vstd::prelude::*;
use vstd::utf8::*;
use vstd::string::StringSliceAdditionalSpecFns;

use crate::git::types::{
    opt_view, clone_opt_string, Area, BranchInfo, CommitFile, CommitInfo, FileChange,
};
use crate::text::{
    chars_of, find, lemma_scan_lines_concat, scan_lines, find_chars, lines_of, split_chars, split_lines, string_from, string_of,
    sub_vec, trim, trim_bounds, trim_end, trim_start, views_of, split_on, starts_with,
    starts_with_chars, is_ascii_alpha, is_ascii_alpha_char, CharClass,
};

verus! {

broadcast use vstd::utf8::group_utf8_lib;

// ---------------------------------------------------------------------------
// git status --porcelain=v1
// ---------------------------------------------------------------------------

pub open spec fn arrow() -> Seq<char> {
    seq![' ', '-', '>', ' ']
}

/// The new path and, for a rename, the old path of a status line's tail.
pub open spec fn path_spec(rest: Seq<char>) -> (Seq<char>, Option<Seq<char>>) {
    match find(rest, arrow()) {
        Some(pos) => (
            trim(trim(rest.subrange(pos + 4, rest.len() as int), CharClass::Whitespace), CharClass::Quote),
            Some(trim(trim(rest.subrange(0, pos), CharClass::Whitespace), CharClass::Quote)),
        ),
        None => (trim(rest, CharClass::Quote), None),
    }
}

/// A status line that `parse_status` can take apart: when it holds at least
/// four bytes, its fourth byte starts a character.
pub open spec fn status_line_ok(line: Seq<char>) -> bool {
    encode_utf8(line).len() >= 4 ==> is_char_boundary(encode_utf8(line), 3)
}

/// Every line of `s` is a status line that `parse_status` can take apart.
pub open spec fn status_text_ok(s: Seq<char>) -> bool {
    forall|i: int| 0 <= i < lines_of(s).len() ==> status_line_ok(#[trigger] lines_of(s)[i])
}

/// The changes that one status line yields: `XY path` (bytes 0 and 1 are the
/// index and work-tree letters, the path starts at byte 3). Lines of fewer
/// than four bytes yield nothing; `??` is untracked; otherwise a staged entry
/// when X is not a space and an unstaged one when Y is not a space.
pub open spec fn status_line(line: Seq<char>) -> Seq<(Seq<char>, Option<Seq<char>>, char, char, Area)> {
    let b = encode_utf8(line);
    if b.len() < 4 {
        seq![]
    } else {
        let x = b[0] as char;
        let y = b[1] as char;
        let rest = trim_end(decode_utf8(b.subrange(3, b.len() as int)), CharClass::Whitespace);
        let (path, old) = path_spec(rest);
        if x == '?' && y == '?' {
            seq![(path, None, '?', '?', Area::Untracked)]
        } else {
            (if x != ' ' {
                seq![(path, old, x, y, Area::Staged)]
            } else {
                seq![]
            }) + (if y != ' ' {
                seq![(path, old, x, y, Area::Unstaged)]
            } else {
                seq![]
            })
        }
    }
}

pub open spec fn status_entries(ls: Seq<Seq<char>>) -> Seq<(Seq<char>, Option<Seq<char>>, char, char, Area)>
    decreases ls.len(),
{
    if ls.len() == 0 {
        seq![]
    } else {
        status_entries(ls.drop_last()) + status_line(ls.last())
    }
}

pub open spec fn change_views(v: Seq<FileChange>) -> Seq<(Seq<char>, Option<Seq<char>>, char, char, Area)> {
    v.map_values(|f: FileChange| f@)
}

fn parse_path(rest: &Vec<char>) -> (r: (String, Option<String>))
    ensures
        (r.0@, opt_view(r.1)) == path_spec(rest@),
{
    let pat: Vec<char> = vec![' ', '-', '>', ' '];
    assert(pat@ =~= arrow());
    match find_chars(rest, &pat) {
        Some(pos) => {
            let (a, b) = trim_bounds(rest, 0, pos, CharClass::Whitespace, true, true);
            let (a2, b2) = trim_bounds(rest, a, b, CharClass::Quote, true, true);
            let old = string_from(rest, a2, b2);
            let (c, d) = trim_bounds(rest, pos + 4, rest.len(), CharClass::Whitespace, true, true);
            let (c2, d2) = trim_bounds(rest, c, d, CharClass::Quote, true, true);
            let new = string_from(rest, c2, d2);
            (new, Some(old))
        },
        None => {
            let (a, b) = trim_bounds(rest, 0, rest.len(), CharClass::Quote, true, true);
            assert(rest@.subrange(0, rest@.len() as int) =~= rest@);
            (string_from(rest, a, b), None)
        },
    }
}

/// Whether every line of `s` can be taken apart by `parse_status`.
pub fn status_text_parsable(s: &str) -> (r: bool)
    ensures
        r == status_text_ok(s@),
{
    let lines = split_lines(s);
    let ghost ls = lines_of(s@);
    let mut i: usize = 0;
    while i < lines.len()
        invariant
            0 <= i <= lines.len(),
            views_of(lines@) == ls,
            ls == lines_of(s@),
            forall|j: int| 0 <= j < i ==> status_line_ok(#[trigger] ls[j]),
        decreases lines.len() - i,
    {
        let line = string_of(&lines[i]);
        assert(ls[i as int] == lines@[i as int]@);
        let l: &str = line.as_str();
        assert(l@ == ls[i as int]);
        assert(l.spec_bytes() == encode_utf8(ls[i as int]));
        if l.as_bytes().len() >= 4 {
            if !l.is_char_boundary(3) {
                return false;
            }
        }
        assert(status_line_ok(ls[i as int]));
        i = i + 1;
    }
    true
}

/// Parses `git status --porcelain=v1 -uall` output.
pub fn parse_status(s: &str) -> (out: Vec<FileChange>)
    requires
        status_text_ok(s@),
    ensures
        change_views(out@) == status_entries(lines_of(s@)),
        forall|k: int|
            0 <= k < out@.len() ==> exists|j: int|
                0 <= j < lines_of(s@).len() && encode_utf8(#[trigger] lines_of(s@)[j]).len() >= 4
                    && (#[trigger] out@[k]).index_status == encode_utf8(lines_of(s@)[j])[0] as char
                    && out@[k].worktree_status == encode_utf8(lines_of(s@)[j])[1] as char,
{
    let lines = split_lines(s);
    let ghost ls = lines_of(s@);
    let mut out: Vec<FileChange> = Vec::new();
    let mut i: usize = 0;
    while i < lines.len()
        invariant
            0 <= i <= lines.len(),
            views_of(lines@) == ls,
            ls == lines_of(s@),
            status_text_ok(s@),
            change_views(out@) == status_entries(ls.take(i as int)),
        decreases lines.len() - i,
    {
        assert(ls.take(i + 1).drop_last() =~= ls.take(i as int));
        assert(ls[i as int] == lines@[i as int]@);
        let ghost old_out = change_views(out@);
        let line = string_of(&lines[i]);
        let l: &str = line.as_str();
        let ghost b = encode_utf8(line@);
        assert(l@ == ls[i as int]);
        assert(l.spec_bytes() == b);
        assert(status_line_ok(ls[i as int]));
        let bytes = l.as_bytes();
        if bytes.len() >= 4 {
            let x = bytes[0] as char;
            let y = bytes[1] as char;
            let (_, tail) = l.split_at(3);
            proof {
                assert(encode_utf8(tail@) == b.subrange(3, b.len() as int));
                assert(decode_utf8(encode_utf8(tail@)) == tail@);
            }
            let rest0 = chars_of(tail);
            let (lo, hi) = trim_bounds(&rest0, 0, rest0.len(), CharClass::Whitespace, false, true);
            let rest = sub_vec(&rest0, lo, hi);
            assert(rest0@.subrange(0, rest0@.len() as int) =~= rest0@);
            let (path, old_path) = parse_path(&rest);
            assert(x == b[0] as char);
            assert(y == b[1] as char);
            assert(rest@ == trim_end(decode_utf8(b.subrange(3, b.len() as int)), CharClass::Whitespace));
            if x == '?' && y == '?' {
                out.push(
                    FileChange {
                        path,
                        old_path: None,
                        index_status: '?',
                        worktree_status: '?',
                        area: Area::Untracked,
                    },
                );
            } else {
                if x != ' ' {
                    out.push(
                        FileChange {
                            path: path.clone(),
                            old_path: clone_opt_string(&old_path),
                            index_status: x,
                            worktree_status: y,
                            area: Area::Staged,
                        },
                    );
                }
                if y != ' ' {
                    out.push(
                        FileChange {
                            path,
                            old_path,
                            index_status: x,
                            worktree_status: y,
                            area: Area::Unstaged,
                        },
                    );
                }
            }
        }
        assert(change_views(out@) =~= old_out + status_line(ls[i as int]));
        i = i + 1;
    }
    assert(ls.take(ls.len() as int) =~= ls);
    proof {
        let lines = lines_of(s@);
        law_status_letters(lines);
        assert forall|k: int| 0 <= k < out@.len() implies exists|j: int|
            0 <= j < lines.len() && encode_utf8(#[trigger] lines[j]).len() >= 4 && (#[trigger] out@[k]).index_status
                == encode_utf8(lines[j])[0] as char && out@[k].worktree_status == encode_utf8(lines[j])[1] as char by {
            assert(change_views(out@)[k] == out@[k]@);
            assert(status_entries(lines)[k] == out@[k]@);
        }
    }
    out
}


// ---------------------------------------------------------------------------
// git log --pretty=format:%H%x1f%s%x1f%an%x1f%ad
// ---------------------------------------------------------------------------

/// The commit that one log line yields: its first four fields separated by
/// U+001F, or nothing when it has fewer than four.
pub open spec fn log_line(l: Seq<char>) -> Seq<(Seq<char>, Seq<char>, Seq<char>, Seq<char>)> {
    let p = split_on(l, '\u{1f}');
    if p.len() < 4 {
        seq![]
    } else {
        seq![(p[0], p[1], p[2], p[3])]
    }
}

pub open spec fn log_entries(ls: Seq<Seq<char>>) -> Seq<(Seq<char>, Seq<char>, Seq<char>, Seq<char>)>
    decreases ls.len(),
{
    if ls.len() == 0 {
        seq![]
    } else {
        log_entries(ls.drop_last()) + log_line(ls.last())
    }
}

pub open spec fn commit_views(v: Seq<CommitInfo>) -> Seq<(Seq<char>, Seq<char>, Seq<char>, Seq<char>)> {
    v.map_values(|c: CommitInfo| c@)
}

/// Parses `git log --pretty=format:%H%x1f%s%x1f%an%x1f%ad` output.
pub fn parse_log(s: &str) -> (out: Vec<CommitInfo>)
    ensures
        commit_views(out@) == log_entries(lines_of(s@)),
{
    let lines = split_lines(s);
    let ghost ls = lines_of(s@);
    let mut out: Vec<CommitInfo> = Vec::new();
    let mut i: usize = 0;
    while i < lines.len()
        invariant
            0 <= i <= lines.len(),
            views_of(lines@) == ls,
            commit_views(out@) == log_entries(ls.take(i as int)),
        decreases lines.len() - i,
    {
        assert(ls.take(i + 1).drop_last() =~= ls.take(i as int));
        assert(ls[i as int] == lines@[i as int]@);
        let ghost old_out = commit_views(out@);
        let parts = split_chars(&lines[i], '\u{1f}');
        if parts.len() >= 4 {
            assert(views_of(parts@)[0] == parts@[0]@);
            assert(views_of(parts@)[1] == parts@[1]@);
            assert(views_of(parts@)[2] == parts@[2]@);
            assert(views_of(parts@)[3] == parts@[3]@);
            out.push(
                CommitInfo {
                    hash: string_of(&parts[0]),
                    subject: string_of(&parts[1]),
                    author: string_of(&parts[2]),
                    date: string_of(&parts[3]),
                },
            );
        }
        assert(commit_views(out@) =~= old_out + log_line(ls[i as int]));
        i = i + 1;
    }
    assert(ls.take(ls.len() as int) =~= ls);
    out
}

// ---------------------------------------------------------------------------
// git branch --list
// ---------------------------------------------------------------------------

pub open spec fn star_prefix() -> Seq<char> {
    seq!['*', ' ']
}

/// The branch that one line of `git branch --list` yields: the trimmed line,
/// current when it starts with `* ` (which is then dropped); blank lines yield
/// nothing.
pub open spec fn branch_line(l: Seq<char>) -> Seq<(Seq<char>, bool)> {
    let t = trim(l, CharClass::Whitespace);
    if t.len() == 0 {
        seq![]
    } else if starts_with(t, star_prefix()) {
        seq![(t.skip(2), true)]
    } else {
        seq![(t, false)]
    }
}

pub open spec fn branch_entries(ls: Seq<Seq<char>>) -> Seq<(Seq<char>, bool)>
    decreases ls.len(),
{
    if ls.len() == 0 {
        seq![]
    } else {
        branch_entries(ls.drop_last()) + branch_line(ls.last())
    }
}

pub open spec fn branch_views(v: Seq<BranchInfo>) -> Seq<(Seq<char>, bool)> {
    v.map_values(|b: BranchInfo| b@)
}

/// Parses `git branch --list` output.
pub fn parse_branches(s: &str) -> (out: Vec<BranchInfo>)
    ensures
        branch_views(out@) == branch_entries(lines_of(s@)),
{
    let lines = split_lines(s);
    let ghost ls = lines_of(s@);
    let star: Vec<char> = vec!['*', ' '];
    assert(star@ =~= star_prefix());
    let mut out: Vec<BranchInfo> = Vec::new();
    let mut i: usize = 0;
    while i < lines.len()
        invariant
            0 <= i <= lines.len(),
            views_of(lines@) == ls,
            star@ == star_prefix(),
            branch_views(out@) == branch_entries(ls.take(i as int)),
        decreases lines.len() - i,
    {
        assert(ls.take(i + 1).drop_last() =~= ls.take(i as int));
        assert(ls[i as int] == lines@[i as int]@);
        let ghost old_out = branch_views(out@);
        let line = &lines[i];
        let (lo, hi) = trim_bounds(line, 0, line.len(), CharClass::Whitespace, true, true);
        assert(line@.subrange(0, line@.len() as int) =~= line@);
        if lo < hi {
            let t = sub_vec(line, lo, hi);
            if starts_with_chars(&t, &star) {
                let name = string_from(&t, 2, t.len());
                assert(t@.subrange(2, t@.len() as int) =~= t@.skip(2));
                out.push(BranchInfo { name, is_current: true });
            } else {
                let name = string_of(&t);
                out.push(BranchInfo { name, is_current: false });
            }
        }
        assert(branch_views(out@) =~= old_out + branch_line(ls[i as int]));
        i = i + 1;
    }
    assert(ls.take(ls.len() as int) =~= ls);
    out
}

// ---------------------------------------------------------------------------
// git show --name-status --pretty=format:
// ---------------------------------------------------------------------------

/// The file that one name-status line yields. The line is trimmed at its end;
/// it must start with an ASCII letter; its first tab-separated field gives the
/// status (its first character), its last field the path, which must not be
/// empty (a line with one field has no path).
pub open spec fn name_status_line(l: Seq<char>) -> Seq<(Seq<char>, Seq<char>)> {
    let t = trim_end(l, CharClass::Whitespace);
    if t.len() == 0 {
        seq![]
    } else if !is_ascii_alpha(t[0]) {
        seq![]
    } else {
        let p = split_on(t, '\t');
        let status = if p[0].len() > 0 {
            seq![p[0][0]]
        } else {
            seq![' ']
        };
        let path = if p.len() >= 2 {
            p.last()
        } else {
            Seq::<char>::empty()
        };
        if path.len() == 0 {
            seq![]
        } else {
            seq![(path, status)]
        }
    }
}

pub open spec fn name_status_entries(ls: Seq<Seq<char>>) -> Seq<(Seq<char>, Seq<char>)>
    decreases ls.len(),
{
    if ls.len() == 0 {
        seq![]
    } else {
        name_status_entries(ls.drop_last()) + name_status_line(ls.last())
    }
}

pub open spec fn commit_file_views(v: Seq<CommitFile>) -> Seq<(Seq<char>, Seq<char>)> {
    v.map_values(|c: CommitFile| c@)
}

/// Parses `git show --name-status --pretty=format:` output.
pub fn parse_name_status(s: &str) -> (out: Vec<CommitFile>)
    ensures
        commit_file_views(out@) == name_status_entries(lines_of(s@)),
{
    let lines = split_lines(s);
    let ghost ls = lines_of(s@);
    let mut out: Vec<CommitFile> = Vec::new();
    let mut i: usize = 0;
    while i < lines.len()
        invariant
            0 <= i <= lines.len(),
            views_of(lines@) == ls,
            commit_file_views(out@) == name_status_entries(ls.take(i as int)),
        decreases lines.len() - i,
    {
        assert(ls.take(i + 1).drop_last() =~= ls.take(i as int));
        assert(ls[i as int] == lines@[i as int]@);
        let ghost old_out = commit_file_views(out@);
        let line = &lines[i];
        let (lo, hi) = trim_bounds(line, 0, line.len(), CharClass::Whitespace, false, true);
        assert(line@.subrange(0, line@.len() as int) =~= line@);
        if lo < hi && is_ascii_alpha_char(line[lo]) {
            let t = sub_vec(line, lo, hi);
            let parts = split_chars(&t, '\t');
            assert(views_of(parts@)[0] == parts@[0]@);
            let mut status: Vec<char> = Vec::new();
            if parts[0].len() > 0 {
                status.push(parts[0][0]);
            } else {
                status.push(' ');
            }
            let np = parts.len();
            if np >= 2 && parts[np - 1].len() > 0 {
                assert(views_of(parts@)[np - 1] == parts@[np - 1]@);
                let path = string_of(&parts[np - 1]);
                let st = string_of(&status);
                out.push(CommitFile { path, status: st });
            }
            proof {
                if np >= 2 {
                    assert(views_of(parts@)[np - 1] == parts@[np - 1]@);
                }
            }
        }
        assert(commit_file_views(out@) =~= old_out + name_status_line(ls[i as int]));
        i = i + 1;
    }
    assert(ls.take(ls.len() as int) =~= ls);
    out
}

proof fn lemma_status_entries_concat(x: Seq<Seq<char>>, y: Seq<Seq<char>>)
    ensures
        status_entries(x + y) == status_entries(x) + status_entries(y),
    decreases y.len(),
{
    if y.len() == 0 {
        assert(x + y =~= x);
        assert(status_entries(x) + status_entries(y) =~= status_entries(x));
    } else {
        assert((x + y).drop_last() =~= x + y.drop_last());
        assert((x + y).last() == y.last());
        lemma_status_entries_concat(x, y.drop_last());
        assert(status_entries(x) + status_entries(y.drop_last()) + status_line(y.last()) =~= status_entries(x)
            + (status_entries(y.drop_last()) + status_line(y.last())));
    }
}

/// Status lines are read one by one and in order: the status of a text made
/// of whole lines followed by more text is the status of the lines followed
/// by the status of the rest, and the text can be taken apart exactly when
/// both parts can.
pub proof fn law_status_concat(a: Seq<char>, b: Seq<char>)
    requires
        a.len() == 0 || a.last() == '\n',
    ensures
        lines_of(a + b) == lines_of(a) + lines_of(b),
        status_entries(lines_of(a + b)) == status_entries(lines_of(a)) + status_entries(lines_of(b)),
        status_text_ok(a + b) == (status_text_ok(a) && status_text_ok(b)),
{
    if a.len() > 0 {
        assert(scan_lines(a).1 == Seq::<char>::empty());
    }
    lemma_scan_lines_concat(a, b);
    let la = lines_of(a);
    let lb = lines_of(b);
    assert(la == scan_lines(a).0);
    let (db, cb) = scan_lines(b);
    if cb.len() > 0 {
        assert((la + db).push(cb) =~= la + db.push(cb));
    }
    assert(lines_of(a + b) =~= la + lb);
    lemma_status_entries_concat(la, lb);
    let l = la + lb;
    if status_text_ok(a) && status_text_ok(b) {
        assert forall|i: int| 0 <= i < l.len() implies status_line_ok(#[trigger] l[i]) by {
            if i < la.len() {
                assert(l[i] == la[i]);
            } else {
                assert(l[i] == lb[i - la.len()]);
            }
        }
    }
    if status_text_ok(a + b) {
        assert forall|i: int| 0 <= i < la.len() implies status_line_ok(#[trigger] la[i]) by {
            assert(l[i] == la[i]);
        }
        assert forall|i: int| 0 <= i < lb.len() implies status_line_ok(#[trigger] lb[i]) by {
            assert(l[i + la.len()] == lb[i]);
        }
    }
}

/// Every change read from a status line carries the line's first byte as
/// its index letter and its second byte as its work-tree letter, whatever
/// its area, and all of them name the same path; a line of fewer than four
/// bytes gives none, `??` gives one untracked change, any other line a
/// staged change when its index letter is not a space and an unstaged one
/// when its work-tree letter is not a space, in that order.
pub proof fn law_status_line_letters(line: Seq<char>)
    ensures
        ({
            let b = encode_utf8(line);
            let es = status_line(line);
            &&& b.len() < 4 ==> es.len() == 0
            &&& b.len() >= 4 ==> {
                &&& forall|k: int| 0 <= k < es.len() ==> (#[trigger] es[k]).2 == b[0] as char && es[k].3 == b[1] as char
                &&& forall|k: int| 0 <= k < es.len() ==> (#[trigger] es[k]).0 == es[0].0
                &&& if b[0] as char == '?' && b[1] as char == '?' {
                    es.len() == 1 && es[0].4 == Area::Untracked
                } else {
                    let staged = b[0] as char != ' ';
                    let unstaged = b[1] as char != ' ';
                    &&& es.len() == (if staged { 1int } else { 0 }) + (if unstaged { 1int } else { 0 })
                    &&& staged ==> es[0].4 == Area::Staged
                    &&& unstaged ==> es[es.len() - 1].4 == Area::Unstaged
                }
            }
        }),
{
}

/// Every change that a whole status text gives carries the first two bytes
/// of one of its lines (of four bytes or more) as its index and work-tree
/// letters.
pub proof fn law_status_letters(ls: Seq<Seq<char>>)
    ensures
        forall|k: int|
            0 <= k < status_entries(ls).len() ==> exists|j: int|
                0 <= j < ls.len() && encode_utf8(#[trigger] ls[j]).len() >= 4 && (#[trigger] status_entries(ls)[k]).2
                    == encode_utf8(ls[j])[0] as char && status_entries(ls)[k].3 == encode_utf8(ls[j])[1] as char,
    decreases ls.len(),
{
    if ls.len() > 0 {
        let init = ls.drop_last();
        law_status_letters(init);
        law_status_line_letters(ls.last());
        let a = status_entries(init);
        let l = status_line(ls.last());
        assert(status_entries(ls) == a + l);
        assert forall|k: int| 0 <= k < status_entries(ls).len() implies exists|j: int|
            0 <= j < ls.len() && encode_utf8(#[trigger] ls[j]).len() >= 4 && (#[trigger] status_entries(ls)[k]).2
                == encode_utf8(ls[j])[0] as char && status_entries(ls)[k].3 == encode_utf8(ls[j])[1] as char by {
            if k < a.len() {
                assert(status_entries(ls)[k] == a[k]);
                let j = choose|j: int|
                    0 <= j < init.len() && encode_utf8(#[trigger] init[j]).len() >= 4 && (#[trigger] a[k]).2
                        == encode_utf8(init[j])[0] as char && a[k].3 == encode_utf8(init[j])[1] as char;
                assert(init[j] == ls[j]);
            } else {
                assert(status_entries(ls)[k] == l[k - a.len()]);
                assert(ls[ls.len() - 1] == ls.last());
            }
        }
    }
}

} // verus!
