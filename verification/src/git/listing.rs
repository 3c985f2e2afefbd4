//! Directory listings for the file tree and the text of files opened for
//! editing.
use vstd::prelude::*;
use vstd::utf8::{decode_utf8, encode_utf8, valid_utf8};
use vstd::string::StringSliceAdditionalSpecFns;

use crate::git::types::DirEntry;
use crate::text::chars_of;

verus! {

// ---------------------------------------------------------------------------
// Binary detection
// ---------------------------------------------------------------------------

/// A zero byte among the first 8192 bytes.
pub open spec fn binary_bytes(b: Seq<u8>) -> bool {
    exists|i: int| 0 <= i < b.len() && i < 8192 && b[i] == 0
}

/// Whether the first 8192 bytes hold a zero byte.
pub fn is_binary_bytes(b: &[u8]) -> (r: bool)
    ensures
        r == binary_bytes(b@),
{
    let n = if b.len() < 8192 {
        b.len()
    } else {
        8192
    };
    let mut i: usize = 0;
    while i < n
        invariant
            0 <= i <= n,
            n <= b@.len(),
            n == b@.len() || n == 8192,
            n <= 8192,
            forall|j: int| 0 <= j < i ==> b@[j] != 0,
        decreases n - i,
    {
        if b[i] == 0 {
            assert(0 <= i < b@.len() && i < 8192 && b@[i as int] == 0);
            return true;
        }
        i = i + 1;
    }
    false
}

/// Whether the UTF-8 encoding of `s` starts (within 8192 bytes) with a zero.
pub fn is_binary(s: &str) -> (r: bool)
    ensures
        r == binary_bytes(encode_utf8(s@)),
{
    is_binary_bytes(s.as_bytes())
}

// ---------------------------------------------------------------------------
// Text of a file
// ---------------------------------------------------------------------------

/// What `String::from_utf8_lossy` makes of `bytes`.
pub uninterp spec fn lossy_text(bytes: Seq<u8>) -> Seq<char>;

/// Calls `String::from_utf8_lossy(bytes).into_owned()`. The contract claims
/// that the result depends on the bytes alone and that valid UTF-8 is decoded
/// as it is; how invalid sequences are replaced is left unsaid.
#[verifier::external_body]
pub(crate) fn utf8_lossy(bytes: &[u8]) -> (r: String)
    ensures
        r@ == lossy_text(bytes@),
        valid_utf8(bytes@) ==> r@ == decode_utf8(bytes@),
{
    String::from_utf8_lossy(bytes).into_owned()
}

/// Text that `git`, a file or a command printed: its bytes decoded as UTF-8,
/// invalid sequences replaced.
pub fn decode_output(bytes: &[u8]) -> (r: String)
    ensures
        r@ == lossy_text(bytes@),
        valid_utf8(bytes@) ==> r@ == decode_utf8(bytes@),
{
    utf8_lossy(bytes)
}

pub open spec fn binary_refusal() -> Seq<char> {
    "二进制文件，拒绝编辑"@
}

/// The text of a file opened for editing: refused when it looks binary,
/// otherwise its bytes decoded as UTF-8 (invalid sequences replaced).
pub fn file_text(bytes: &[u8]) -> (r: Result<String, String>)
    ensures
        binary_bytes(bytes@) ==> r is Err && r->Err_0@ == binary_refusal(),
        !binary_bytes(bytes@) ==> r is Ok && r->Ok_0@ == lossy_text(bytes@),
{
    if is_binary_bytes(bytes) {
        return Err("二进制文件，拒绝编辑".to_string());
    }
    Ok(utf8_lossy(bytes))
}

// ---------------------------------------------------------------------------
// Directory listings
// ---------------------------------------------------------------------------

/// `a == b`, character by character.
pub fn same_text(a: &str, b: &str) -> (r: bool)
    ensures
        r == (a@ == b@),
{
    let x = chars_of(a);
    let y = chars_of(b);
    if x.len() != y.len() {
        return false;
    }
    let mut i: usize = 0;
    while i < x.len()
        invariant
            0 <= i <= x.len(),
            x.len() == y.len(),
            x@ == a@,
            y@ == b@,
            forall|j: int| 0 <= j < i ==> x@[j] == y@[j],
        decreases x.len() - i,
    {
        if x[i] != y[i] {
            assert(x@[i as int] != y@[i as int]);
            return false;
        }
        i = i + 1;
    }
    assert(x@ =~= y@);
    true
}

/// Directory names the file tree never shows.
pub open spec fn noise_dir(name: Seq<char>) -> bool {
    name == ".git"@ || name == "node_modules"@ || name == "target"@ || name == "dist"@ || name
        == "build"@
}

pub fn is_noise_dir(name: &str) -> (r: bool)
    ensures
        r == noise_dir(name@),
{
    same_text(name, ".git") || same_text(name, "node_modules") || same_text(name, "target")
        || same_text(name, "dist") || same_text(name, "build")
}

/// What `str::to_lowercase` makes of `s`.
pub uninterp spec fn lowercase_text(s: Seq<char>) -> Seq<char>;

/// Calls `str::to_lowercase`. The contract claims only that the result is a
/// function of `s`; the Unicode case mapping itself is left unsaid.
#[verifier::external_body]
fn lowercase(s: &str) -> (r: String)
    ensures
        r@ == lowercase_text(s@),
{
    s.to_lowercase()
}

/// `a < b` in the order of `str`: lexicographic by code point.
pub open spec fn text_lt(a: Seq<char>, b: Seq<char>) -> bool
    decreases a.len(),
{
    if a.len() == 0 {
        b.len() > 0
    } else if b.len() == 0 {
        false
    } else if (a[0] as u32) < (b[0] as u32) {
        true
    } else if (a[0] as u32) > (b[0] as u32) {
        false
    } else {
        text_lt(a.drop_first(), b.drop_first())
    }
}

fn chars_lt(a: &Vec<char>, b: &Vec<char>) -> (r: bool)
    ensures
        r == text_lt(a@, b@),
{
    let mut i: usize = 0;
    assert(a@.skip(0) =~= a@);
    assert(b@.skip(0) =~= b@);
    while i < a.len() && i < b.len()
        invariant
            0 <= i <= a.len(),
            i <= b.len(),
            text_lt(a@, b@) == text_lt(a@.skip(i as int), b@.skip(i as int)),
        decreases a.len() - i,
    {
        let x = a[i];
        let y = b[i];
        assert(a@.skip(i as int)[0] == x);
        assert(b@.skip(i as int)[0] == y);
        if (x as u32) < (y as u32) {
            return true;
        }
        if (x as u32) > (y as u32) {
            return false;
        }
        assert(a@.skip(i as int).drop_first() =~= a@.skip(i + 1));
        assert(b@.skip(i as int).drop_first() =~= b@.skip(i + 1));
        i = i + 1;
    }
    b.len() > i && a.len() == i
}

/// The place of an entry in the listing: directories first, then by the
/// lowercase name.
pub open spec fn entry_lt(a: (Seq<char>, Seq<char>, bool), b: (Seq<char>, Seq<char>, bool)) -> bool {
    (a.2 && !b.2) || (a.2 == b.2 && text_lt(lowercase_text(a.0), lowercase_text(b.0)))
}

/// The first position in `s` whose entry comes strictly after `x`.
pub open spec fn insert_pos(s: Seq<(Seq<char>, Seq<char>, bool)>, x: (Seq<char>, Seq<char>, bool), j: int) -> int
    decreases s.len() - j,
{
    if j >= s.len() || j < 0 {
        s.len() as int
    } else if entry_lt(x, s[j]) {
        j
    } else {
        insert_pos(s, x, j + 1)
    }
}

/// `s` sorted the way the stable `sort_by` of the listing sorts it: entries
/// that compare equal keep their order.
pub open spec fn stable_sorted(s: Seq<(Seq<char>, Seq<char>, bool)>) -> Seq<(Seq<char>, Seq<char>, bool)>
    decreases s.len(),
{
    if s.len() == 0 {
        seq![]
    } else {
        let t = stable_sorted(s.drop_last());
        let p = insert_pos(t, s.last(), 0);
        t.take(p).push(s.last()) + t.skip(p)
    }
}

/// The path of `name` inside the directory `rel` (the repository root when
/// `rel` is empty).
pub open spec fn child_path(rel: Seq<char>, name: Seq<char>) -> Seq<char> {
    if rel.len() == 0 {
        name
    } else {
        rel + seq!['/'] + name
    }
}

/// The entries kept from a raw listing of `rel`, in the order read: noise
/// directories dropped, each given its path.
pub open spec fn kept_entries(rel: Seq<char>, raw: Seq<(Seq<char>, bool)>) -> Seq<(Seq<char>, Seq<char>, bool)>
    decreases raw.len(),
{
    if raw.len() == 0 {
        seq![]
    } else {
        let rest = kept_entries(rel, raw.drop_last());
        let (name, is_dir) = raw.last();
        if noise_dir(name) {
            rest
        } else {
            rest.push((name, child_path(rel, name), is_dir))
        }
    }
}

/// Where `entry` (whose lowercase name is `key`) goes in the sorted `out`.
fn find_insert_pos(out: &Vec<DirEntry>, keys: &Vec<Vec<char>>, entry: &DirEntry, key: &Vec<char>) -> (p: usize)
    requires
        out.len() == keys.len(),
        key@ == lowercase_text(entry.name@),
        forall|j: int| 0 <= j < keys.len() ==> #[trigger] keys@[j]@ == lowercase_text(out@[j].name@),
    ensures
        p as int == insert_pos(entry_views(out@), entry@, 0),
        p <= out.len(),
{
    let ghost t = entry_views(out@);
    let ghost x = entry@;
    let mut p: usize = 0;
    while p < out.len()
        invariant
            0 <= p <= out.len(),
            out.len() == keys.len(),
            t == entry_views(out@),
            x == entry@,
            key@ == lowercase_text(entry.name@),
            forall|j: int| 0 <= j < keys.len() ==> #[trigger] keys@[j]@ == lowercase_text(out@[j].name@),
            insert_pos(t, x, 0) == insert_pos(t, x, p as int),
        decreases out.len() - p,
    {
        assert(t[p as int] == out@[p as int]@);
        assert(keys@[p as int]@ == lowercase_text(out@[p as int].name@));
        let lt = (entry.is_dir && !out[p].is_dir) || (entry.is_dir == out[p].is_dir && chars_lt(key, &keys[p]));
        if lt {
            assert(entry_lt(x, t[p as int]));
            return p;
        }
        p = p + 1;
    }
    p
}

pub open spec fn raw_views(raw: Seq<(String, bool)>) -> Seq<(Seq<char>, bool)> {
    raw.map_values(|e: (String, bool)| (e.0@, e.1))
}

pub open spec fn entry_views(v: Seq<DirEntry>) -> Seq<(Seq<char>, Seq<char>, bool)> {
    v.map_values(|e: DirEntry| e@)
}

fn child_path_of(rel: &str, name: &str) -> (r: String)
    ensures
        r@ == child_path(rel@, name@),
{
    if rel.is_empty() {
        name.to_string()
    } else {
        let mut s = crate::text::concat(rel, "/");
        proof {
            reveal_strlit("/");
        }
        let t = crate::text::concat(s.as_str(), name);
        assert(t@ =~= rel@ + seq!['/'] + name@);
        t
    }
}

/// Builds the listing of directory `rel` from what reading it gave (file
/// names and whether each is a directory): noise directories are dropped,
/// each entry gets its path relative to the repository, and the entries are
/// sorted with directories first, then by lowercase name, keeping the order
/// read among equals.
pub fn list_dir_entries(rel: &str, raw: &Vec<(String, bool)>) -> (r: Vec<DirEntry>)
    ensures
        entry_views(r@) == stable_sorted(kept_entries(rel@, raw_views(raw@))),
{
    let ghost rv = raw_views(raw@);
    let mut out: Vec<DirEntry> = Vec::new();
    let mut keys: Vec<Vec<char>> = Vec::new();
    let mut i: usize = 0;
    while i < raw.len()
        invariant
            0 <= i <= raw.len(),
            rv == raw_views(raw@),
            out.len() == keys.len(),
            entry_views(out@) == stable_sorted(kept_entries(rel@, rv.take(i as int))),
            forall|j: int| 0 <= j < keys.len() ==> #[trigger] keys@[j]@ == lowercase_text(out@[j].name@),
        decreases raw.len() - i,
    {
        assert(rv.take(i + 1).drop_last() =~= rv.take(i as int));
        assert(rv.take(i + 1).last() == (raw@[i as int].0@, raw@[i as int].1));
        let name = &raw[i].0;
        let is_dir = raw[i].1;
        if !is_noise_dir(name.as_str()) {
            let path = child_path_of(rel, name.as_str());
            let entry = DirEntry { name: name.clone(), path, is_dir };
            let key = chars_of(lowercase(name.as_str()).as_str());
            let ghost t = entry_views(out@);
            let ghost x = entry@;
            let ghost k = kept_entries(rel@, rv.take(i as int));
            assert(kept_entries(rel@, rv.take(i + 1)) == k.push(x));
            assert(k.push(x).drop_last() =~= k);
            let p = find_insert_pos(&out, &keys, &entry, &key);
            let ghost old_keys = keys@;
            let ghost old_out = out@;
            out.insert(p, entry);
            keys.insert(p, key);
            assert(entry_views(out@) =~= t.take(p as int).push(x) + t.skip(p as int));
            assert forall|j: int| 0 <= j < keys.len() implies #[trigger] keys@[j]@ == lowercase_text(out@[j].name@) by {
                if j < p {
                    assert(keys@[j] == old_keys[j]);
                    assert(out@[j] == old_out[j]);
                } else if j == p {
                } else {
                    assert(keys@[j] == old_keys[j - 1]);
                    assert(out@[j] == old_out[j - 1]);
                }
            }
        }
        i = i + 1;
    }
    assert(rv.take(raw.len() as int) =~= rv);
    out
}

} // verus!
