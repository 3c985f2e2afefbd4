//! The list of recently opened repositories: at most 20, the most recently
//! opened first. Reading and writing the list's file is left to the caller.
use vstd::prelude::*;

use crate::git::listing::same_text;
use crate::git::types::RecentProject;
use crate::text::concat;

verus! {

/// Where the list is kept.
pub struct Recent {
    pub path: String,
}

/// Calls `dirs::data_dir()` and hands out the path as text. The result
/// depends on the environment, so nothing is promised of it.
#[verifier::external_body]
fn data_dir() -> (r: Option<String>) {
    dirs::data_dir().map(|p| p.to_string_lossy().into_owned())
}

/// `part` inside the directory `base`.
pub open spec fn join_path(base: Seq<char>, part: Seq<char>) -> Seq<char> {
    if base.len() == 0 {
        part
    } else if base.last() == '/' {
        base + part
    } else {
        base + seq!['/'] + part
    }
}

pub fn join(base: &str, part: &str) -> (r: String)
    ensures
        r@ == join_path(base@, part@),
{
    if base.is_empty() {
        return part.to_string();
    }
    let v = crate::text::chars_of(base);
    if v[v.len() - 1] == '/' {
        concat(base, part)
    } else {
        let s = concat(base, "/");
        proof {
            reveal_strlit("/");
        }
        let r = concat(s.as_str(), part);
        assert(r@ =~= base@ + seq!['/'] + part@);
        r
    }
}

/// The most entries the list keeps.
pub const MAX_RECENT: usize = 20;

/// `list` without the entries for `path`, in order.
pub open spec fn without_path(list: Seq<(Seq<char>, Seq<char>, i64)>, path: Seq<char>) -> Seq<(Seq<char>, Seq<char>, i64)>
    decreases list.len(),
{
    if list.len() == 0 {
        seq![]
    } else {
        let rest = without_path(list.drop_last(), path);
        if list.last().0 == path {
            rest
        } else {
            rest.push(list.last())
        }
    }
}

/// The list after opening `path`: its new entry first, then the others
/// without `path`, cut to 20 entries.
pub open spec fn added(list: Seq<(Seq<char>, Seq<char>, i64)>, path: Seq<char>, name: Seq<char>, now: i64) -> Seq<(Seq<char>, Seq<char>, i64)> {
    let l = seq![(path, name, now)] + without_path(list, path);
    if l.len() > 20 {
        l.take(20)
    } else {
        l
    }
}

pub open spec fn recent_views(v: Seq<RecentProject>) -> Seq<(Seq<char>, Seq<char>, i64)> {
    v.map_values(|p: RecentProject| p@)
}

/// No path stands twice in the list.
pub open spec fn paths_unique(list: Seq<(Seq<char>, Seq<char>, i64)>) -> bool {
    forall|i: int, j: int| 0 <= i < j < list.len() ==> list[i].0 != list[j].0
}

fn retain_other(list: Vec<RecentProject>, path: &str) -> (r: Vec<RecentProject>)
    ensures
        recent_views(r@) == without_path(recent_views(list@), path@),
{
    let ghost lv = recent_views(list@);
    let mut out: Vec<RecentProject> = Vec::new();
    let mut i: usize = 0;
    while i < list.len()
        invariant
            0 <= i <= list.len(),
            lv == recent_views(list@),
            recent_views(out@) == without_path(lv.take(i as int), path@),
        decreases list.len() - i,
    {
        assert(lv.take(i + 1).drop_last() =~= lv.take(i as int));
        assert(lv.take(i + 1).last() == list@[i as int]@);
        let ghost prev = recent_views(out@);
        if !same_text(list[i].path.as_str(), path) {
            out.push(list[i].duplicate());
            assert(recent_views(out@) =~= prev.push(list@[i as int]@));
        }
        i = i + 1;
    }
    assert(lv.take(list.len() as int) =~= lv);
    out
}

impl Recent {
    /// The list's file under the user's data directory (see
    /// `in_data_dir`). Where the data directory is depends on the
    /// environment, so only the file's place inside it is promised.
    pub fn new() -> (r: Recent)
        ensures
            exists|d: Option<String>| r.path@ == Self::store_path(d),
    {
        Self::in_data_dir(data_dir())
    }

    /// `recent-projects.json` in the `gitdiff-tui` folder of the data
    /// directory `data` (of the current directory when there is none).
    pub open spec fn store_path(data: Option<String>) -> Seq<char> {
        let base = match data {
            Some(d) => d@,
            None => "."@,
        };
        join_path(join_path(base, "gitdiff-tui"@), "recent-projects.json"@)
    }

    /// The store for the data directory `data`.
    pub fn in_data_dir(data: Option<String>) -> (r: Recent)
        ensures
            r.path@ == Self::store_path(data),
    {
        let base = match &data {
            Some(d) => d.clone(),
            None => ".".to_string(),
        };
        let dir = join(base.as_str(), "gitdiff-tui");
        Recent { path: join(dir.as_str(), "recent-projects.json") }
    }

    /// The list after opening `path` (named `name`) at time `now`
    /// (milliseconds): the new entry first, older entries for the same path
    /// dropped, at most 20 entries.
    pub fn add(&self, list: Vec<RecentProject>, path: String, name: String, now: i64) -> (r: Vec<RecentProject>)
        ensures
            recent_views(r@) == added(recent_views(list@), path@, name@, now),
    {
        let mut kept = retain_other(list, path.as_str());
        let ghost k = recent_views(kept@);
        kept.insert(0, RecentProject { path, name, last_opened_at: now });
        assert(recent_views(kept@) =~= seq![(path@, name@, now)] + k);
        if kept.len() > MAX_RECENT {
            kept.truncate(MAX_RECENT);
            assert(recent_views(kept@) =~= (seq![(path@, name@, now)] + k).take(20));
        }
        kept
    }

    /// The list without the entries for `path`.
    pub fn remove(&self, list: Vec<RecentProject>, path: &str) -> (r: Vec<RecentProject>)
        ensures
            recent_views(r@) == without_path(recent_views(list@), path@),
    {
        retain_other(list, path)
    }
}

// ---------------------------------------------------------------------------
// Laws
// ---------------------------------------------------------------------------

proof fn lemma_without_path_facts(list: Seq<(Seq<char>, Seq<char>, i64)>, path: Seq<char>)
    ensures
        without_path(list, path).len() <= list.len(),
        forall|i: int| 0 <= i < without_path(list, path).len() ==> (#[trigger] without_path(list, path)[i]).0 != path,
        forall|i: int| 0 <= i < without_path(list, path).len() ==> list.contains(#[trigger] without_path(list, path)[i]),
        paths_unique(list) ==> paths_unique(without_path(list, path)),
        (forall|i: int| 0 <= i < list.len() ==> (#[trigger] list[i]).0 != path) ==> without_path(list, path) == list,
    decreases list.len(),
{
    if list.len() > 0 {
        let rest = list.drop_last();
        lemma_without_path_facts(rest, path);
        let w = without_path(rest, path);
        assert forall|i: int| 0 <= i < w.len() implies list.contains(#[trigger] w[i]) by {
            let k = choose|k: int| 0 <= k < rest.len() && rest[k] == w[i];
            assert(list[k] == w[i]);
        }
        assert(list[list.len() - 1] == list.last());
        if paths_unique(list) {
            assert(paths_unique(rest));
            assert forall|i: int| 0 <= i < w.len() implies (#[trigger] w[i]).0 != list.last().0 by {
                let k = choose|k: int| 0 <= k < rest.len() && rest[k] == w[i];
                assert(list[k] == w[i]);
            }
        }
        if forall|i: int| 0 <= i < list.len() ==> (#[trigger] list[i]).0 != path {
            assert forall|i: int| 0 <= i < rest.len() implies (#[trigger] rest[i]).0 != path by {
                assert(list[i] == rest[i]);
            }
            assert(list.last().0 != path);
            assert(rest.push(list.last()) =~= list);
        }
    }
}

/// Opening a repository puts it first, keeps at most 20 entries, and never
/// lists one path twice.
pub proof fn law_add_puts_first(list: Seq<(Seq<char>, Seq<char>, i64)>, path: Seq<char>, name: Seq<char>, now: i64)
    ensures
        added(list, path, name, now).len() <= 20,
        added(list, path, name, now)[0] == (path, name, now),
        forall|i: int| 1 <= i < added(list, path, name, now).len() ==> (#[trigger] added(list, path, name, now)[i]).0 != path,
        paths_unique(list) ==> paths_unique(added(list, path, name, now)),
{
    lemma_without_path_facts(list, path);
    let w = without_path(list, path);
    let l = seq![(path, name, now)] + w;
    assert forall|i: int| 1 <= i < l.len() implies (#[trigger] l[i]).0 != path by {
        assert(l[i] == w[i - 1]);
    }
    if paths_unique(list) {
        assert forall|i: int, j: int| 0 <= i < j < l.len() implies l[i].0 != l[j].0 by {
            if i > 0 {
                assert(l[i] == w[i - 1]);
                assert(l[j] == w[j - 1]);
            } else {
                assert(l[j] == w[j - 1]);
            }
        }
    }
}

/// Removing a repository right after opening it leaves the older entries for
/// other paths, in order (the first 19 of them when the list was full).
pub proof fn law_remove_undoes_add(list: Seq<(Seq<char>, Seq<char>, i64)>, path: Seq<char>, name: Seq<char>, now: i64)
    ensures
        without_path(added(list, path, name, now), path) == {
            let w = without_path(list, path);
            if w.len() > 19 { w.take(19) } else { w }
        },
{
    lemma_without_path_facts(list, path);
    let w = without_path(list, path);
    let l = seq![(path, name, now)] + w;
    let a = added(list, path, name, now);
    let expect = if w.len() > 19 { w.take(19) } else { w };
    assert(a =~= seq![(path, name, now)] + expect);
    lemma_without_path_prepend(expect, path, name, now);
    assert forall|i: int| 0 <= i < expect.len() implies (#[trigger] expect[i]).0 != path by {
        assert(expect[i] == w[i]);
    }
    lemma_without_path_facts(expect, path);
}

proof fn lemma_without_path_prepend(s: Seq<(Seq<char>, Seq<char>, i64)>, path: Seq<char>, name: Seq<char>, now: i64)
    ensures
        without_path(seq![(path, name, now)] + s, path) == without_path(s, path),
    decreases s.len(),
{
    let l = seq![(path, name, now)] + s;
    if s.len() == 0 {
        assert(l.drop_last() =~= Seq::<(Seq<char>, Seq<char>, i64)>::empty());
        assert(without_path(l.drop_last(), path) =~= Seq::<(Seq<char>, Seq<char>, i64)>::empty());
        assert(l.last().0 == path);
    } else {
        assert(l.drop_last() =~= seq![(path, name, now)] + s.drop_last());
        assert(l.last() == s.last());
        lemma_without_path_prepend(s.drop_last(), path, name, now);
    }
}

/// Removing a path a second time changes nothing: the list keeps its other
/// entries in order.
pub proof fn law_remove_twice(list: Seq<(Seq<char>, Seq<char>, i64)>, path: Seq<char>)
    ensures
        without_path(without_path(list, path), path) == without_path(list, path),
        without_path(list, path).len() <= list.len(),
    decreases list.len(),
{
    if list.len() > 0 {
        law_remove_twice(list.drop_last(), path);
        let rest = without_path(list.drop_last(), path);
        if list.last().0 != path {
            let r = rest.push(list.last());
            assert(r.drop_last() =~= rest);
            assert(r.last() == list.last());
        }
    }
}

} // verus!
