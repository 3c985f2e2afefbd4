//! Editing a line of text at a byte column, the way the editor does it.
//! Columns count bytes of the UTF-8 encoding; characters are never split.
use vstd::prelude::*;
use vstd::utf8::{
    decode_utf8, encode_scalar, encode_utf8, has_width_1_encoding, has_width_2_encoding, has_width_3_encoding,
    has_width_4_encoding, is_char_boundary, is_continuation_byte, is_scalar, leading_byte_width_1,
    leading_byte_width_2, leading_byte_width_3, leading_byte_width_4, last_continuation_byte,
    second_last_continuation_byte, third_last_continuation_byte, valid_utf8,
};
use vstd::string::StringSliceAdditionalSpecFns;

use crate::text::{chars_of, concat};

verus! {

broadcast use vstd::utf8::group_utf8_lib;

/// The UTF-8 bytes of a text.
pub open spec fn bytes_of(s: Seq<char>) -> Seq<u8> {
    encode_utf8(s)
}

// ---------------------------------------------------------------------------
// Facts about UTF-8
// ---------------------------------------------------------------------------

/// The encoding of a concatenation is the concatenation of the encodings.
pub proof fn lemma_encode_concat(a: Seq<char>, b: Seq<char>)
    ensures
        encode_utf8(a + b) == encode_utf8(a) + encode_utf8(b),
    decreases a.len(),
{
    if a.len() == 0 {
        assert(a + b =~= b);
        assert(encode_utf8(a) =~= Seq::<u8>::empty());
        assert(Seq::<u8>::empty() + encode_utf8(b) =~= encode_utf8(b));
    } else {
        assert((a + b).drop_first() =~= a.drop_first() + b);
        assert((a + b)[0] == a[0]);
        lemma_encode_concat(a.drop_first(), b);
        assert(encode_utf8(a + b) =~= encode_scalar(a[0] as u32) + (encode_utf8(a.drop_first()) + encode_utf8(b)));
    }
}

/// The encoding of one character: one to four bytes, a leading byte followed
/// by continuation bytes.
pub proof fn lemma_scalar_bytes(c: char)
    ensures
        1 <= encode_scalar(c as u32).len() <= 4,
        !is_continuation_byte(encode_scalar(c as u32)[0]),
        forall|k: int| 1 <= k < encode_scalar(c as u32).len() ==> is_continuation_byte(#[trigger] encode_scalar(c as u32)[k]),
{
    let s = c as u32;
    assert(is_scalar(s));
    if has_width_1_encoding(s) {
        assert(leading_byte_width_1(s) <= 0x7f) by (bit_vector)
            requires s <= 0x7F;
    } else if has_width_2_encoding(s) {
        assert(0xc0 <= (0xC0 | ((s >> 6) & 0x1F) as u8) <= 0xdf) by (bit_vector)
            requires 0x80 <= s <= 0x7FF;
        assert(0x80 <= (0x80 | (s & 0x3F) as u8) <= 0xbf) by (bit_vector);
    } else if has_width_3_encoding(s) {
        assert(0xe0 <= (0xE0 | ((s >> 12) & 0x0F) as u8) <= 0xef) by (bit_vector)
            requires 0x800 <= s <= 0xFFFF;
        assert(0x80 <= (0x80 | ((s >> 6) & 0x3F) as u8) <= 0xbf) by (bit_vector);
        assert(0x80 <= (0x80 | (s & 0x3F) as u8) <= 0xbf) by (bit_vector);
    } else {
        assert(0xf0 <= (0xF0 | ((s >> 18) & 0x7) as u8) <= 0xf7) by (bit_vector)
            requires 0x10000 <= s <= 0x10FFFF;
        assert(0x80 <= (0x80 | ((s >> 12) & 0x3F) as u8) <= 0xbf) by (bit_vector);
        assert(0x80 <= (0x80 | ((s >> 6) & 0x3F) as u8) <= 0xbf) by (bit_vector);
        assert(0x80 <= (0x80 | (s & 0x3F) as u8) <= 0xbf) by (bit_vector);
    }
}

// ---------------------------------------------------------------------------
// Character boundaries
// ---------------------------------------------------------------------------

/// The first byte position at or after `k` that starts a character (or the
/// end).
pub open spec fn scan_fwd(b: Seq<u8>, k: int) -> int
    decreases b.len() - k,
{
    if k >= b.len() {
        b.len() as int
    } else if !is_continuation_byte(b[k]) {
        k
    } else {
        scan_fwd(b, k + 1)
    }
}

/// The last byte position at or before `k` that starts a character (or 0).
pub open spec fn scan_back(b: Seq<u8>, k: int) -> int
    decreases k,
{
    if k <= 0 {
        0
    } else if !is_continuation_byte(b[k]) {
        k
    } else {
        scan_back(b, k - 1)
    }
}

/// The column after the character at (or around) column `i`; the end when
/// `i` is at or past it.
pub open spec fn next_boundary_spec(b: Seq<u8>, i: int) -> int {
    if i >= b.len() {
        b.len() as int
    } else {
        scan_fwd(b, i + 1)
    }
}

/// The column of the character before column `i` (taken no further than the
/// end); 0 at the start.
pub open spec fn prev_boundary_spec(b: Seq<u8>, i: int) -> int {
    if i == 0 {
        0
    } else {
        let idx = if i <= b.len() {
            i
        } else {
            b.len() as int
        };
        scan_back(b, idx - 1)
    }
}

/// `prev_boundary` needs the column, taken no further than the end, to start
/// a character.
pub open spec fn prev_boundary_ok(b: Seq<u8>, i: int) -> bool {
    i > 0 ==> is_char_boundary(b, if i <= b.len() { i } else { b.len() as int })
}

fn is_cont(x: u8) -> (r: bool)
    ensures
        r == is_continuation_byte(x),
{
    0x80 <= x && x <= 0xbf
}

/// The column after the character at column `i`.
pub fn next_boundary(s: &str, i: usize) -> (r: usize)
    ensures
        r == next_boundary_spec(bytes_of(s@), i as int),
{
    let b = s.as_bytes();
    if i >= b.len() {
        return b.len();
    }
    let mut k = i + 1;
    while k < b.len() && is_cont(b[k])
        invariant
            i < k <= b.len(),
            b@ == bytes_of(s@),
            scan_fwd(b@, i + 1) == scan_fwd(b@, k as int),
        decreases b.len() - k,
    {
        k = k + 1;
    }
    k
}

/// The column of the character before column `i`.
pub fn prev_boundary(s: &str, i: usize) -> (r: usize)
    requires
        prev_boundary_ok(bytes_of(s@), i as int),
    ensures
        r == prev_boundary_spec(bytes_of(s@), i as int),
{
    if i == 0 {
        return 0;
    }
    let b = s.as_bytes();
    let idx = if i <= b.len() {
        i
    } else {
        b.len()
    };
    if idx == 0 {
        return 0;
    }
    let mut k = idx - 1;
    while k > 0 && is_cont(b[k])
        invariant
            0 <= k < idx <= b.len(),
            b@ == bytes_of(s@),
            scan_back(b@, idx - 1) == scan_back(b@, k as int),
        decreases k,
    {
        k = k - 1;
    }
    k
}

proof fn lemma_scan_fwd_stop(b: Seq<u8>, k: int, m: int)
    requires
        0 <= k <= m <= b.len(),
        forall|j: int| k <= j < m ==> is_continuation_byte(#[trigger] b[j]),
        m == b.len() || !is_continuation_byte(b[m]),
    ensures
        scan_fwd(b, k) == m,
    decreases m - k,
{
    if k < m {
        lemma_scan_fwd_stop(b, k + 1, m);
    }
}

/// In `encode(a + b)` with `b` not empty, the character after column
/// `encode(a).len()` ends where the encoding of `b`'s first character ends.
proof fn lemma_next_after_prefix(a: Seq<char>, b: Seq<char>)
    requires
        b.len() > 0,
    ensures
        next_boundary_spec(encode_utf8(a + b), encode_utf8(a).len() as int) == encode_utf8(a).len() + encode_scalar(b[0] as u32).len(),
{
    let ea = encode_utf8(a);
    let e0 = encode_scalar(b[0] as u32);
    let et = encode_utf8(b.drop_first());
    lemma_encode_concat(a, b);
    assert(encode_utf8(b) == e0 + et);
    let full = ea + (e0 + et);
    assert(encode_utf8(a + b) == full);
    lemma_scalar_bytes(b[0]);
    let start = ea.len() as int;
    let m = start + e0.len();
    assert forall|j: int| start + 1 <= j < m implies is_continuation_byte(#[trigger] full[j]) by {
        assert(full[j] == e0[j - start]);
    }
    if m < full.len() {
        let t = b.drop_first();
        assert(t.len() > 0);
        lemma_scalar_bytes(t[0]);
        assert(et == encode_scalar(t[0] as u32) + encode_utf8(t.drop_first()));
        assert(full[m] == et[0]);
        assert(et[0] == encode_scalar(t[0] as u32)[0]);
    }
    if e0.len() > 1 {
        lemma_scan_fwd_stop(full, start + 1, m);
    } else {
        lemma_scan_fwd_stop(full, start + 1, m);
    }
}

// ---------------------------------------------------------------------------
// Edits
// ---------------------------------------------------------------------------

/// `line` with `c` inserted at column `col` (`String::insert`).
pub fn insert_char(line: &str, col: usize, c: char) -> (r: String)
    requires
        is_char_boundary(bytes_of(line@), col as int),
    ensures
        bytes_of(r@) == bytes_of(line@).take(col as int) + bytes_of(seq![c]) + bytes_of(line@).skip(col as int),
        r@.len() == line@.len() + 1,
{
    let (a, b) = line.split_at(col);
    let mut t = a.to_string();
    t.push(c);
    let r = concat(t.as_str(), b);
    proof {
        assert(r@ == a@ + seq![c] + b@);
        lemma_encode_concat(a@ + seq![c], b@);
        lemma_encode_concat(a@, seq![c]);
        assert(bytes_of(line@).take(col as int) =~= bytes_of(line@).subrange(0, col as int));
        assert(bytes_of(line@).skip(col as int) =~= bytes_of(line@).subrange(col as int, bytes_of(line@).len() as int));
        lemma_encode_concat(a@, b@);
        assert(bytes_of(line@) =~= encode_utf8(a@) + encode_utf8(b@));
        vstd::utf8::encode_utf8_decode_utf8(a@ + b@);
        vstd::utf8::encode_utf8_decode_utf8(line@);
        assert(a@ + b@ == line@);
    }
    r
}

/// `line` without the character at column `idx` (`String::remove`).
pub fn remove_char(line: &str, idx: usize) -> (r: String)
    requires
        is_char_boundary(bytes_of(line@), idx as int),
        idx < bytes_of(line@).len(),
    ensures
        bytes_of(r@) == bytes_of(line@).take(idx as int) + bytes_of(line@).skip(next_boundary_spec(bytes_of(line@), idx as int)),
        r@.len() + 1 == line@.len(),
{
    let (a, b) = line.split_at(idx);
    let bv = chars_of(b);
    proof {
        assert(b.spec_bytes().len() > 0);
        if b@.len() == 0 {
            assert(encode_utf8(b@) =~= Seq::<u8>::empty());
        }
    }
    let tail = crate::text::string_from(&bv, 1, bv.len());
    let r = concat(a, tail.as_str());
    proof {
        let full = bytes_of(line@);
        assert(a.spec_bytes() == full.subrange(0, idx as int));
        assert(b.spec_bytes() == full.subrange(idx as int, full.len() as int));
        lemma_encode_concat(a@, b@);
        assert(full =~= encode_utf8(a@) + encode_utf8(b@));
        assert(encode_utf8(a@ + b@) == full);
        vstd::utf8::encode_utf8_decode_utf8(a@ + b@);
        vstd::utf8::encode_utf8_decode_utf8(line@);
        assert(a@ + b@ == line@);
        lemma_next_after_prefix(a@, b@);
        assert(tail@ =~= b@.drop_first());
        lemma_encode_concat(a@, b@.drop_first());
        let w = encode_scalar(b@[0] as u32).len();
        assert(encode_utf8(b@) == encode_scalar(b@[0] as u32) + encode_utf8(b@.drop_first()));
        assert(full.skip(idx + w) =~= encode_utf8(b@.drop_first()));
        assert(full.take(idx as int) =~= encode_utf8(a@));
    }
    r
}

/// `line` cut at column `col` (`str::split_at`).
pub fn split_line(line: &str, col: usize) -> (r: (String, String))
    requires
        is_char_boundary(bytes_of(line@), col as int),
    ensures
        bytes_of(r.0@) == bytes_of(line@).take(col as int),
        bytes_of(r.1@) == bytes_of(line@).skip(col as int),
        r.0@ + r.1@ == line@,
{
    let (a, b) = line.split_at(col);
    proof {
        let full = bytes_of(line@);
        assert(full.take(col as int) =~= full.subrange(0, col as int));
        assert(full.skip(col as int) =~= full.subrange(col as int, full.len() as int));
        lemma_encode_concat(a@, b@);
        assert(full =~= encode_utf8(a@) + encode_utf8(b@));
        vstd::utf8::encode_utf8_decode_utf8(a@ + b@);
        vstd::utf8::encode_utf8_decode_utf8(line@);
    }
    (a.to_string(), b.to_string())
}

/// The byte length of `s`.
pub fn byte_len(s: &str) -> (r: usize)
    ensures
        r == bytes_of(s@).len(),
{
    s.as_bytes().len()
}

/// The column `prev_boundary` finds starts a character, and lies before the
/// end.
pub proof fn lemma_prev_boundary_is_boundary(s: Seq<char>, i: int)
    requires
        i > 0,
        bytes_of(s).len() > 0,
    ensures
        is_char_boundary(bytes_of(s), prev_boundary_spec(bytes_of(s), i)),
        0 <= prev_boundary_spec(bytes_of(s), i) < bytes_of(s).len(),
{
    let b = bytes_of(s);
    let idx = if i <= b.len() { i } else { b.len() as int };
    lemma_scan_back_boundary(b, idx - 1);
}

proof fn lemma_scan_back_boundary(b: Seq<u8>, k: int)
    requires
        valid_utf8(b),
        0 <= k < b.len(),
    ensures
        is_char_boundary(b, scan_back(b, k)),
        0 <= scan_back(b, k) <= k,
    decreases k,
{
    if k <= 0 {
    } else if !is_continuation_byte(b[k]) {
        vstd::utf8::is_char_boundary_iff_not_is_continuation_byte(b, k);
    } else {
        lemma_scan_back_boundary(b, k - 1);
    }
}

proof fn lemma_scan_back_stop(b: Seq<u8>, k: int, m: int)
    requires
        0 <= m <= k < b.len(),
        forall|j: int| m < j <= k ==> is_continuation_byte(#[trigger] b[j]),
        m == 0 || !is_continuation_byte(b[m]),
    ensures
        scan_back(b, k) == m,
    decreases k - m,
{
    if k > m {
        lemma_scan_back_stop(b, k - 1, m);
    }
}

/// Inserting a character at a boundary and deleting the character before
/// the column after it gives back the bytes: the next boundary after the
/// insertion point is the end of the inserted character, the previous
/// boundary before that end is the insertion point.
pub proof fn lemma_insert_then_remove(b: Seq<u8>, col: int, c: char)
    requires
        valid_utf8(b),
        is_char_boundary(b, col),
    ensures
        ({
            let w = bytes_of(seq![c]).len() as int;
            let nb = b.take(col) + bytes_of(seq![c]) + b.skip(col);
            &&& 1 <= w <= 4
            &&& valid_utf8(nb)
            &&& next_boundary_spec(nb, col) == col + w
            &&& prev_boundary_spec(nb, col + w) == col
            &&& nb.take(col) + nb.skip(col + w) == b
        }),
{
    let e = bytes_of(seq![c]);
    assert(seq![c].drop_first() =~= Seq::<char>::empty());
    assert(seq![c][0] == c);
    assert(encode_utf8(Seq::<char>::empty()) =~= Seq::<u8>::empty());
    assert(e == encode_scalar(c as u32) + encode_utf8(seq![c].drop_first()));
    assert(e =~= encode_scalar(c as u32));
    lemma_scalar_bytes(c);
    let w = e.len() as int;
    let nb = b.take(col) + e + b.skip(col);
    assert(0 <= col <= b.len()) by {
        if col < 0 || col > b.len() {
            assert(!is_char_boundary(b, col));
        }
    }
    assert(b.take(col) =~= b.subrange(0, col));
    assert(b.skip(col) =~= b.subrange(col, b.len() as int));
    vstd::utf8::valid_utf8_split(b, col);
    vstd::utf8::encode_utf8_valid_utf8(seq![c]);
    vstd::utf8::valid_utf8_concat(b.take(col), e);
    vstd::utf8::valid_utf8_concat(b.take(col) + e, b.skip(col));
    assert(nb.len() == b.len() + w);
    assert forall|j: int| col + 1 <= j < col + w implies is_continuation_byte(#[trigger] nb[j]) by {
        assert(nb[j] == e[j - col]);
    }
    if col + w < nb.len() {
        assert(nb[col + w] == b[col]);
        vstd::utf8::is_char_boundary_iff_not_is_continuation_byte(b, col);
    }
    lemma_scan_fwd_stop(nb, col + 1, col + w);
    assert(nb[col] == e[0]);
    assert forall|j: int| col < j <= col + w - 1 implies is_continuation_byte(#[trigger] nb[j]) by {
        assert(nb[j] == e[j - col]);
    }
    lemma_scan_back_stop(nb, col + w - 1, col);
    assert(nb.take(col) =~= b.take(col));
    assert(nb.skip(col + w) =~= b.skip(col));
    assert(b.take(col) + b.skip(col) =~= b);
}

proof fn lemma_scan_fwd_props(b: Seq<u8>, k: int)
    requires
        0 <= k,
    ensures
        k <= scan_fwd(b, k) || (k > b.len() && scan_fwd(b, k) == b.len()),
        scan_fwd(b, k) <= b.len() || k > b.len(),
        forall|j: int| k <= j < scan_fwd(b, k) ==> is_continuation_byte(#[trigger] b[j]),
    decreases b.len() - k,
{
    if k < b.len() && is_continuation_byte(b[k]) {
        lemma_scan_fwd_props(b, k + 1);
    }
}

proof fn lemma_scan_back_props(b: Seq<u8>, k: int)
    requires
        0 <= k < b.len(),
    ensures
        0 <= scan_back(b, k) <= k,
        forall|j: int| scan_back(b, k) < j <= k ==> is_continuation_byte(#[trigger] b[j]),
    decreases k,
{
    if k > 0 && is_continuation_byte(b[k]) {
        lemma_scan_back_props(b, k - 1);
    }
}

/// Stepping over the character at a boundary and then back lands on that
/// boundary again.
pub proof fn law_prev_undoes_next(s: Seq<char>, i: int)
    requires
        0 <= i < bytes_of(s).len(),
        is_char_boundary(bytes_of(s), i),
    ensures
        i < next_boundary_spec(bytes_of(s), i) <= bytes_of(s).len(),
        prev_boundary_spec(bytes_of(s), next_boundary_spec(bytes_of(s), i)) == i,
{
    let b = bytes_of(s);
    lemma_scan_fwd_props(b, i + 1);
    let n = next_boundary_spec(b, i);
    vstd::utf8::is_char_boundary_iff_not_is_continuation_byte(b, i);
    lemma_scan_back_stop(b, n - 1, i);
}

/// Stepping back from a boundary (not the start) lands on an earlier
/// boundary, and stepping over the character there comes back.
pub proof fn law_next_undoes_prev(s: Seq<char>, j: int)
    requires
        0 < j <= bytes_of(s).len(),
        is_char_boundary(bytes_of(s), j),
    ensures
        prev_boundary_spec(bytes_of(s), j) < j,
        is_char_boundary(bytes_of(s), prev_boundary_spec(bytes_of(s), j)),
        next_boundary_spec(bytes_of(s), prev_boundary_spec(bytes_of(s), j)) == j,
{
    let b = bytes_of(s);
    lemma_scan_back_props(b, j - 1);
    lemma_prev_boundary_is_boundary(s, j);
    let p = prev_boundary_spec(b, j);
    if j < b.len() {
        vstd::utf8::is_char_boundary_iff_not_is_continuation_byte(b, j);
    }
    lemma_scan_fwd_stop(b, p + 1, j);
}

/// Cutting a text's bytes at a boundary cuts the text: the two decoded parts
/// make up the text, and the first one has exactly the bytes before the cut.
pub proof fn lemma_split_at_boundary(s: Seq<char>, col: int)
    requires
        is_char_boundary(bytes_of(s), col),
    ensures
        0 <= col <= bytes_of(s).len(),
        decode_utf8(bytes_of(s).take(col)) + decode_utf8(bytes_of(s).skip(col)) == s,
        bytes_of(decode_utf8(bytes_of(s).take(col))) == bytes_of(s).take(col),
        bytes_of(decode_utf8(bytes_of(s).skip(col))) == bytes_of(s).skip(col),
{
    let b = bytes_of(s);
    assert(0 <= col <= b.len()) by {
        if col > b.len() || col < 0 {
            assert(!is_char_boundary(b, col));
        }
    }
    assert(b.take(col) =~= b.subrange(0, col));
    assert(b.skip(col) =~= b.subrange(col, b.len() as int));
    vstd::utf8::valid_utf8_split(b, col);
    let x = decode_utf8(b.take(col));
    let y = decode_utf8(b.skip(col));
    lemma_encode_concat(x, y);
    assert(b.take(col) + b.skip(col) =~= b);
    vstd::utf8::encode_utf8_decode_utf8(x + y);
    vstd::utf8::encode_utf8_decode_utf8(s);
}

} // verus!
