//! The file tree of the left panel: loaded directory listings, the set of
//! open directories and the flattened rows that are shown.
use vstd::prelude::*;
use vstd::hash_map::StringHashMap;
use vstd::hash_set::StringHashSet;

use crate::git::listing::entry_views;
use crate::git::types::DirEntry;

verus! {

/// One shown row of the tree.
#[derive(Debug, Clone)]
pub struct FlatRow {
    pub depth: usize,
    pub path: String,
    pub name: String,
    pub is_dir: bool,
}

impl View for FlatRow {
    type V = (int, Seq<char>, Seq<char>, bool);

    open spec fn view(&self) -> Self::V {
        (self.depth as int, self.path@, self.name@, self.is_dir)
    }
}

pub open spec fn flat_views(v: Seq<FlatRow>) -> Seq<(int, Seq<char>, Seq<char>, bool)> {
    v.map_values(|r: FlatRow| r@)
}

pub struct FileTreeState {
    /// The listing of the repository root.
    pub root: Vec<DirEntry>,
    /// Listings loaded so far, by the path they were asked for.
    pub children: StringHashMap<Vec<DirEntry>>,
    /// Paths of the open directories.
    pub open: StringHashSet,
    pub selected: usize,
}

/// The rows for the entries `es` at `depth`: each entry (its path is
/// relative to the repository root), followed by the rows of its loaded
/// listing when it is an open directory, at most `fuel` levels down.
pub open spec fn walk_spec(
    children: Map<Seq<char>, Vec<DirEntry>>,
    open: Set<Seq<char>>,
    es: Seq<(Seq<char>, Seq<char>, bool)>,
    depth: int,
    fuel: nat,
) -> Seq<(int, Seq<char>, Seq<char>, bool)>
    decreases fuel, es.len(),
{
    if es.len() == 0 {
        seq![]
    } else {
        let before = walk_spec(children, open, es.drop_last(), depth, fuel);
        let e = es.last();
        let rel = e.1;
        let below = if e.2 && open.contains(rel) && children.contains_key(rel) && fuel > 0 {
            walk_spec(children, open, entry_views(children[rel]@), depth + 1, (fuel - 1) as nat)
        } else {
            seq![]
        };
        before + seq![(depth, rel, e.0, e.2)] + below
    }
}

impl FileTreeState {
    /// The shown rows (see `walk_spec`), from the root listing down;
    /// `usize::MAX` levels bound the walk (directory listings never form a
    /// cycle, so real trees end far sooner).
    pub open spec fn flat_spec(&self) -> Seq<(int, Seq<char>, Seq<char>, bool)> {
        walk_spec(self.children@, self.open@, entry_views(self.root@), 0, usize::MAX as nat)
    }

    /// An empty tree: nothing loaded, nothing open.
    pub fn new() -> (r: FileTreeState)
        ensures
            r.root@.len() == 0,
            r.children@ == Map::<Seq<char>, Vec<DirEntry>>::empty(),
            r.open@ == Set::<Seq<char>>::empty(),
            r.selected == 0,
    {
        FileTreeState { root: Vec::new(), children: StringHashMap::new(), open: StringHashSet::new(), selected: 0 }
    }

    /// The rows shown, top to bottom.
    pub fn flat(&self) -> (rows: Vec<FlatRow>)
        ensures
            flat_views(rows@) == self.flat_spec(),
    {
        let mut rows: Vec<FlatRow> = Vec::new();
        self.walk(&self.root, 0, usize::MAX, &mut rows);
        assert(flat_views(rows@) =~= self.flat_spec());
        rows
    }

    fn walk(&self, entries: &Vec<DirEntry>, depth: usize, fuel: usize, rows: &mut Vec<FlatRow>)
        requires
            depth + fuel <= usize::MAX,
        ensures
            flat_views(final(rows)@) == flat_views(old(rows)@) + walk_spec(
                self.children@,
                self.open@,
                entry_views(entries@),
                depth as int,
                fuel as nat,
            ),
        decreases fuel,
    {
        let ghost es = entry_views(entries@);
        let ghost start = flat_views(rows@);
        let mut i: usize = 0;
        while i < entries.len()
            invariant
                0 <= i <= entries.len(),
                es == entry_views(entries@),
                depth + fuel <= usize::MAX,
                flat_views(rows@) == start + walk_spec(self.children@, self.open@, es.take(i as int), depth as int, fuel as nat),
            decreases entries.len() - i,
        {
            let e = &entries[i];
            assert(es.take(i + 1).drop_last() =~= es.take(i as int));
            assert(es.take(i + 1).last() == e@);
            let ghost before = flat_views(rows@);
            rows.push(FlatRow { depth, path: e.path.clone(), name: e.name.clone(), is_dir: e.is_dir });
            assert(flat_views(rows@) =~= before.push((depth as int, e.path@, e.name@, e.is_dir)));
            if e.is_dir && self.open.contains(e.path.as_str()) && fuel > 0 {
                match self.children.get(e.path.as_str()) {
                    Some(kids) => {
                        self.walk(kids, depth + 1, fuel - 1, rows);
                    },
                    None => {},
                }
            }
            assert(flat_views(rows@) =~= start + walk_spec(self.children@, self.open@, es.take(i + 1), depth as int, fuel as nat));
            i = i + 1;
        }
        assert(es.take(entries.len() as int) =~= es);
    }

    /// Records a directory listing that arrived: the root's when `path` is
    /// empty, otherwise that of the directory `path`.
    pub fn set_listing(&mut self, path: String, entries: Vec<DirEntry>)
        ensures
            path@.len() == 0 ==> final(self).root == entries && final(self).children == old(self).children,
            path@.len() > 0 ==> final(self).children@ == old(self).children@.insert(path@, entries)
                && final(self).root == old(self).root,
            final(self).open == old(self).open,
            final(self).selected == old(self).selected,
    {
        if path.as_str().is_empty() {
            self.root = entries;
        } else {
            self.children.insert(path, entries);
        }
    }
}

} // verus!
