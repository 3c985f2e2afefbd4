//! The decisions of the repository watcher: which file-system events count,
//! and the trailing-edge debounce that turns a burst of them into one
//! refresh. The watching itself and the clock run outside.
use vstd::prelude::*;

use crate::git::listing::same_text;

verus! {

/// The quiet time after the last counted event before a refresh, in
/// milliseconds.
pub const DEBOUNCE_MS: u64 = 900;

/// What happened to a file, as far as the watcher cares.
#[derive(Debug, Clone, Copy, PartialEq, Eq, Structural)]
pub enum WatchKind {
    /// A file was only read or opened.
    Access,
    /// An event the platform could not classify.
    Other,
    /// A file was created, changed or removed (or the kind is unknown).
    Changed,
}

/// A directory name that is never watched for changes.
pub open spec fn noise_name(s: Seq<char>) -> bool {
    s == ".git"@ || s == "node_modules"@ || s == "target"@ || s == "dist"@ || s == "build"@
}

/// A path (given by its named components) inside such a directory.
pub open spec fn noisy_path(p: Seq<Seq<char>>) -> bool {
    exists|j: int| 0 <= j < p.len() && noise_name(#[trigger] p[j])
}

pub open spec fn texts_of(p: Vec<String>) -> Seq<Seq<char>> {
    p@.map_values(|s: String| s@)
}

pub open spec fn path_views(paths: Seq<Vec<String>>) -> Seq<Seq<Seq<char>>> {
    paths.map_values(|p: Vec<String>| texts_of(p))
}

/// `root` is where `p` starts.
pub open spec fn starts_at(root: Seq<Seq<char>>, p: Seq<Seq<char>>) -> bool {
    root.len() <= p.len() && p.take(root.len() as int) == root
}

/// The part of the path `p` inside the repository `root` (the whole path
/// when it does not lie inside it).
pub open spec fn inside(root: Seq<Seq<char>>, p: Seq<Seq<char>>) -> Seq<Seq<char>> {
    if starts_at(root, p) {
        p.skip(root.len() as int)
    } else {
        p
    }
}

/// An event is ignored when it is an access or unclassified, or when one of
/// its paths lies inside an ignored directory of the repository `root`
/// (the directories above the repository do not count).
pub open spec fn ignored(kind: WatchKind, root: Seq<Seq<char>>, paths: Seq<Seq<Seq<char>>>) -> bool {
    kind == WatchKind::Access || kind == WatchKind::Other || exists|i: int|
        0 <= i < paths.len() && noisy_path(inside(root, #[trigger] paths[i]))
}

fn is_noise_name(s: &String) -> (r: bool)
    ensures
        r == noise_name(s@),
{
    same_text(s.as_str(), ".git") || same_text(s.as_str(), "node_modules") || same_text(s.as_str(), "target")
        || same_text(s.as_str(), "dist") || same_text(s.as_str(), "build")
}

/// How many leading components of `p` belong to `root`: all of `root` when
/// `p` starts there, none otherwise.
fn root_len(root: &Vec<String>, p: &Vec<String>) -> (r: usize)
    ensures
        r == (if starts_at(texts_of(*root), texts_of(*p)) { root.len() } else { 0 }),
{
    let ghost rv = texts_of(*root);
    let ghost pv = texts_of(*p);
    if root.len() > p.len() {
        return 0;
    }
    let mut j: usize = 0;
    while j < root.len()
        invariant
            0 <= j <= root.len() <= p.len(),
            rv == texts_of(*root),
            pv == texts_of(*p),
            forall|k: int| 0 <= k < j ==> rv[k] == pv[k],
        decreases root.len() - j,
    {
        if !same_text(root[j].as_str(), p[j].as_str()) {
            assert(pv.take(rv.len() as int)[j as int] != rv[j as int]);
            return 0;
        }
        j = j + 1;
    }
    assert(pv.take(rv.len() as int) =~= rv);
    root.len()
}

fn is_noisy_path(root: &Vec<String>, p: &Vec<String>) -> (r: bool)
    ensures
        r == noisy_path(inside(texts_of(*root), texts_of(*p))),
{
    let ghost v = texts_of(*p);
    let ghost w = inside(texts_of(*root), v);
    let start = root_len(root, p);
    assert(w =~= v.skip(start as int));
    let mut j: usize = start;
    while j < p.len()
        invariant
            start <= j <= p.len(),
            v == texts_of(*p),
            w == v.skip(start as int),
            w == inside(texts_of(*root), texts_of(*p)),
            forall|k: int| 0 <= k < j - start ==> !noise_name(#[trigger] w[k]),
        decreases p.len() - j,
    {
        if is_noise_name(&p[j]) {
            assert(w[j - start] == v[j as int]);
            assert(noise_name(w[j - start]));
            assert(v.len() == p@.len());
            assert(noisy_path(w)) by {
                let k = j - start;
                assert(0 <= k < w.len() && noise_name(w[k]));
            }
            return true;
        }
        assert(w[j - start] == v[j as int]);
        j = j + 1;
    }
    false
}

/// Whether the event is ignored (see `ignored`); the repository root and
/// each path are given by their named components, in order.
pub fn should_ignore(kind: WatchKind, root: &Vec<String>, paths: &Vec<Vec<String>>) -> (r: bool)
    ensures
        r == ignored(kind, texts_of(*root), path_views(paths@)),
{
    if kind == WatchKind::Access || kind == WatchKind::Other {
        return true;
    }
    let ghost v = path_views(paths@);
    let ghost rv = texts_of(*root);
    let mut i: usize = 0;
    while i < paths.len()
        invariant
            0 <= i <= paths.len(),
            v == path_views(paths@),
            rv == texts_of(*root),
            forall|k: int| 0 <= k < i ==> !noisy_path(inside(rv, #[trigger] v[k])),
        decreases paths.len() - i,
    {
        if is_noisy_path(root, &paths[i]) {
            assert(v[i as int] == texts_of(paths@[i as int]));
            assert(noisy_path(inside(rv, v[i as int])));
            return true;
        }
        assert(v[i as int] == texts_of(paths@[i as int]));
        i = i + 1;
    }
    false
}

/// The pending flag after an event that is ignored or not.
pub open spec fn event_step(pending: bool, ignore: bool) -> bool {
    pending || !ignore
}

/// What a quiet period answers (a refresh is due) and the pending flag after
/// it.
pub open spec fn quiet_step(pending: bool) -> (bool, bool) {
    (pending, false)
}

/// The pending flag after events with the given `ignore` flags, from `start`.
pub open spec fn pending_after(start: bool, ignores: Seq<bool>) -> bool
    decreases ignores.len(),
{
    if ignores.len() == 0 {
        start
    } else {
        event_step(pending_after(start, ignores.drop_last()), ignores.last())
    }
}

/// The trailing-edge debounce: counted events mark a refresh as pending; a
/// quiet period (`DEBOUNCE_MS` without events) sends it.
#[derive(Debug, Clone, Copy, PartialEq, Eq, Structural)]
pub struct Debounce {
    pub pending: bool,
}

impl Debounce {
    pub fn new() -> (r: Debounce)
        ensures
            !r.pending,
    {
        Debounce { pending: false }
    }

    /// An event arrived: unless it is ignored, a refresh becomes pending.
    pub fn on_event(&mut self, ignore: bool)
        ensures
            final(self).pending == event_step(old(self).pending, ignore),
    {
        if !ignore {
            self.pending = true;
        }
    }

    /// The quiet period passed: a pending refresh is due now (`true`) and
    /// is no longer pending.
    pub fn on_quiet(&mut self) -> (r: bool)
        ensures
            (r, final(self).pending) == quiet_step(old(self).pending),
    {
        let due = self.pending;
        self.pending = false;
        due
    }
}

/// A burst of events of which at least one counts is answered by exactly one
/// refresh: the first quiet period after it sends one, the next sends none.
pub proof fn law_one_refresh_per_burst(start: bool, ignores: Seq<bool>)
    requires
        exists|i: int| 0 <= i < ignores.len() && !ignores[i],
    ensures
        quiet_step(pending_after(start, ignores)).0,
        !quiet_step(quiet_step(pending_after(start, ignores)).1).0,
    decreases ignores.len(),
{
    if ignores.last() {
        let i = choose|i: int| 0 <= i < ignores.len() && !ignores[i];
        assert(i < ignores.len() - 1);
        assert(ignores.drop_last()[i] == ignores[i]);
        law_one_refresh_per_burst(start, ignores.drop_last());
    }
}

/// Events that are all ignored bring no refresh when none was pending.
pub proof fn law_ignored_burst_is_quiet(ignores: Seq<bool>)
    requires
        forall|i: int| 0 <= i < ignores.len() ==> ignores[i],
    ensures
        !quiet_step(pending_after(false, ignores)).0,
    decreases ignores.len(),
{
    if ignores.len() > 0 {
        law_ignored_burst_is_quiet(ignores.drop_last());
    }
}

} // verus!
