//! Text helpers shared by the parsers: conversions between `str`, `String`
//! and character vectors, line splitting, trimming and searching.
use vstd::prelude::*;

verus! {

/// `String::push` appends one character at the end of the string.
pub assume_specification[ String::push ](s: &mut String, ch: char)
    ensures
        final(s)@ == old(s)@.push(ch),
;

// ---------------------------------------------------------------------------
// Character classes
// ---------------------------------------------------------------------------

/// Unicode `White_Space`, the set that `char::is_whitespace` tests.
pub open spec fn is_whitespace(c: char) -> bool {
    ||| c == '\t'
    ||| c == '\n'
    ||| c == '\u{0B}'
    ||| c == '\u{0C}'
    ||| c == '\r'
    ||| c == ' '
    ||| c == '\u{85}'
    ||| c == '\u{A0}'
    ||| c == '\u{1680}'
    ||| ('\u{2000}' <= c && c <= '\u{200A}')
    ||| c == '\u{2028}'
    ||| c == '\u{2029}'
    ||| c == '\u{202F}'
    ||| c == '\u{205F}'
    ||| c == '\u{3000}'
}

/// The classes of characters that the parsers strip from the ends of text.
#[derive(Clone, Copy, PartialEq, Eq, Debug)]
pub enum CharClass {
    Whitespace,
    Quote,
    Newline,
    CarriageReturn,
}

pub open spec fn in_class(cls: CharClass, c: char) -> bool {
    match cls {
        CharClass::Whitespace => is_whitespace(c),
        CharClass::Quote => c == '"',
        CharClass::Newline => c == '\n',
        CharClass::CarriageReturn => c == '\r',
    }
}

pub fn is_whitespace_char(c: char) -> (r: bool)
    ensures
        r == is_whitespace(c),
{
    c == '\t' || c == '\n' || c == '\u{0B}' || c == '\u{0C}' || c == '\r' || c == ' '
        || c == '\u{85}' || c == '\u{A0}' || c == '\u{1680}' || ('\u{2000}' <= c && c
        <= '\u{200A}') || c == '\u{2028}' || c == '\u{2029}' || c == '\u{202F}' || c
        == '\u{205F}' || c == '\u{3000}'
}

pub fn char_in_class(cls: CharClass, c: char) -> (r: bool)
    ensures
        r == in_class(cls, c),
{
    match cls {
        CharClass::Whitespace => is_whitespace_char(c),
        CharClass::Quote => c == '"',
        CharClass::Newline => c == '\n',
        CharClass::CarriageReturn => c == '\r',
    }
}

/// `c.is_ascii_alphabetic()`.
pub open spec fn is_ascii_alpha(c: char) -> bool {
    ('a' <= c && c <= 'z') || ('A' <= c && c <= 'Z')
}

pub fn is_ascii_alpha_char(c: char) -> (r: bool)
    ensures
        r == is_ascii_alpha(c),
{
    ('a' <= c && c <= 'z') || ('A' <= c && c <= 'Z')
}

// ---------------------------------------------------------------------------
// Trimming
// ---------------------------------------------------------------------------

/// `s` without its leading characters of class `cls`.
pub open spec fn trim_start(s: Seq<char>, cls: CharClass) -> Seq<char>
    decreases s.len(),
{
    if s.len() > 0 && in_class(cls, s[0]) {
        trim_start(s.drop_first(), cls)
    } else {
        s
    }
}

/// `s` without its trailing characters of class `cls`.
pub open spec fn trim_end(s: Seq<char>, cls: CharClass) -> Seq<char>
    decreases s.len(),
{
    if s.len() > 0 && in_class(cls, s.last()) {
        trim_end(s.drop_last(), cls)
    } else {
        s
    }
}

/// `s` without the characters of class `cls` at either end.
pub open spec fn trim(s: Seq<char>, cls: CharClass) -> Seq<char> {
    trim_start(trim_end(s, cls), cls)
}

proof fn lemma_trim_start_skip(s: Seq<char>, cls: CharClass, i: int)
    requires
        0 <= i <= s.len(),
        forall|j: int| 0 <= j < i ==> in_class(cls, #[trigger] s[j]),
    ensures
        trim_start(s, cls) == trim_start(s.skip(i), cls),
    decreases i,
{
    if i > 0 {
        assert(s.drop_first().skip(i - 1) =~= s.skip(i));
        assert forall|j: int| 0 <= j < i - 1 implies in_class(cls, #[trigger] s.drop_first()[j]) by {
            assert(s.drop_first()[j] == s[j + 1]);
        }
        lemma_trim_start_skip(s.drop_first(), cls, i - 1);
    } else {
        assert(s.skip(0) =~= s);
    }
}

proof fn lemma_trim_end_take(s: Seq<char>, cls: CharClass, i: int)
    requires
        0 <= i <= s.len(),
        forall|j: int| i <= j < s.len() ==> in_class(cls, #[trigger] s[j]),
    ensures
        trim_end(s, cls) == trim_end(s.take(i), cls),
    decreases s.len() - i,
{
    if i < s.len() {
        assert(s.drop_last().take(i) =~= s.take(i));
        lemma_trim_end_take(s.drop_last(), cls, i);
    } else {
        assert(s.take(i) =~= s);
    }
}

/// `v[start..end]` without its leading and trailing characters of class `cls`,
/// as the bounds of what is left.
pub fn trim_bounds(v: &Vec<char>, start: usize, end: usize, cls: CharClass, front: bool, back: bool) -> (r: (usize, usize))
    requires
        start <= end <= v.len(),
    ensures
        start <= r.0 <= r.1 <= end,
        v@.subrange(r.0 as int, r.1 as int) == {
            let s = v@.subrange(start as int, end as int);
            let e = if back { trim_end(s, cls) } else { s };
            if front { trim_start(e, cls) } else { e }
        },
{
    let ghost s = v@.subrange(start as int, end as int);
    let mut hi = end;
    if back {
        while hi > start && char_in_class(cls, v[hi - 1])
            invariant
                start <= hi <= end <= v.len(),
                trim_end(s, cls) == trim_end(v@.subrange(start as int, hi as int), cls),
            decreases hi,
        {
            proof {
                let t = v@.subrange(start as int, hi as int);
                assert(t.drop_last() =~= v@.subrange(start as int, hi - 1));
            }
            hi = hi - 1;
        }
        proof {
            let t = v@.subrange(start as int, hi as int);
            if t.len() > 0 {
                assert(t.last() == v@[hi - 1]);
            }
        }
    } else {
        assert(v@.subrange(start as int, hi as int) =~= s);
    }
    let ghost e = v@.subrange(start as int, hi as int);
    let mut lo = start;
    if front {
        while lo < hi && char_in_class(cls, v[lo])
            invariant
                start <= lo <= hi <= end <= v.len(),
                e == v@.subrange(start as int, hi as int),
                trim_start(e, cls) == trim_start(v@.subrange(lo as int, hi as int), cls),
            decreases hi - lo,
        {
            proof {
                let t = v@.subrange(lo as int, hi as int);
                assert(t.drop_first() =~= v@.subrange(lo + 1, hi as int));
                assert(t[0] == v@[lo as int]);
            }
            lo = lo + 1;
        }
        proof {
            let t = v@.subrange(lo as int, hi as int);
            if t.len() > 0 {
                assert(t[0] == v@[lo as int]);
            }
        }
    }
    (lo, hi)
}

// ---------------------------------------------------------------------------
// Conversions
// ---------------------------------------------------------------------------

/// The characters of `s`, in order.
pub fn chars_of(s: &str) -> (r: Vec<char>)
    ensures
        r@ == s@,
{
    let mut r: Vec<char> = Vec::new();
    for c in it: s.chars()
        invariant
            r@ == it.seq().take(it.index() as int),
            it.seq() == s@,
    {
        r.push(c);
    }
    r
}

/// A `String` holding `v[start..end]`.
pub fn string_from(v: &Vec<char>, start: usize, end: usize) -> (r: String)
    requires
        start <= end <= v.len(),
    ensures
        r@ == v@.subrange(start as int, end as int),
{
    let mut r = String::new();
    let mut i = start;
    while i < end
        invariant
            start <= i <= end <= v.len(),
            r@ == v@.subrange(start as int, i as int),
        decreases end - i,
    {
        r.push(v[i]);
        i = i + 1;
    }
    r
}

/// A `String` holding all of `v`.
pub fn string_of(v: &Vec<char>) -> (r: String)
    ensures
        r@ == v@,
{
    let r = string_from(v, 0, v.len());
    assert(v@.subrange(0, v@.len() as int) =~= v@);
    r
}

/// A copy of `v[start..end]`.
pub fn sub_vec(v: &Vec<char>, start: usize, end: usize) -> (r: Vec<char>)
    requires
        start <= end <= v.len(),
    ensures
        r@ == v@.subrange(start as int, end as int),
{
    let mut r: Vec<char> = Vec::new();
    let mut i = start;
    while i < end
        invariant
            start <= i <= end <= v.len(),
            r@ == v@.subrange(start as int, i as int),
        decreases end - i,
    {
        r.push(v[i]);
        i = i + 1;
    }
    r
}

/// A `String` holding `a` followed by `b`.
pub fn concat(a: &str, b: &str) -> (r: String)
    ensures
        r@ == a@ + b@,
{
    let mut r = String::new();
    for c in it: a.chars()
        invariant
            r@ == it.seq().take(it.index() as int),
            it.seq() == a@,
    {
        r.push(c);
    }
    assert(a@.take(a@.len() as int) =~= a@);
    for c in it: b.chars()
        invariant
            r@ == a@ + it.seq().take(it.index() as int),
            it.seq() == b@,
    {
        r.push(c);
        assert(a@ + it.seq().take(it.index() + 1) =~= (a@ + it.seq().take(it.index() as int)).push(c));
    }
    assert(b@.take(b@.len() as int) =~= b@);
    r
}

// ---------------------------------------------------------------------------
// Lines
// ---------------------------------------------------------------------------

/// `l` without one trailing carriage return.
pub open spec fn strip_cr(l: Seq<char>) -> Seq<char> {
    if l.len() > 0 && l.last() == '\r' {
        l.drop_last()
    } else {
        l
    }
}

/// Reading `s` from the start: the lines finished by a `\n` so far, and the
/// characters of the line not yet finished.
pub open spec fn scan_lines(s: Seq<char>) -> (Seq<Seq<char>>, Seq<char>)
    decreases s.len(),
{
    if s.len() == 0 {
        (seq![], seq![])
    } else {
        let (done, cur) = scan_lines(s.drop_last());
        if s.last() == '\n' {
            (done.push(strip_cr(cur)), seq![])
        } else {
            (done, cur.push(s.last()))
        }
    }
}

/// What `str::lines` yields: pieces ended by `\n` (with one `\r` before it
/// dropped), and a last piece without `\n` when it is not empty.
pub open spec fn lines_of(s: Seq<char>) -> Seq<Seq<char>> {
    let (done, cur) = scan_lines(s);
    if cur.len() > 0 {
        done.push(cur)
    } else {
        done
    }
}

pub open spec fn views_of(v: Seq<Vec<char>>) -> Seq<Seq<char>> {
    v.map_values(|x: Vec<char>| x@)
}

/// `s.lines()`, each line as its characters.
pub fn split_lines(s: &str) -> (r: Vec<Vec<char>>)
    ensures
        views_of(r@) == lines_of(s@),
{
    let v = chars_of(s);
    let mut done: Vec<Vec<char>> = Vec::new();
    let mut cur: Vec<char> = Vec::new();
    let mut i: usize = 0;
    while i < v.len()
        invariant
            0 <= i <= v.len(),
            v@ == s@,
            (views_of(done@), cur@) == scan_lines(v@.take(i as int)),
        decreases v.len() - i,
    {
        assert(v@.take(i + 1).drop_last() =~= v@.take(i as int));
        let c = v[i];
        if c == '\n' {
            let n = cur.len();
            if n > 0 && cur[n - 1] == '\r' {
                cur.pop();
            }
            let line = cur;
            cur = Vec::new();
            done.push(line);
            assert(views_of(done@) =~= views_of(done@.drop_last()).push(done@.last()@));
        } else {
            cur.push(c);
        }
        i = i + 1;
    }
    assert(v@.take(v@.len() as int) =~= v@);
    if cur.len() > 0 {
        done.push(cur);
        assert(views_of(done@) =~= views_of(done@.drop_last()).push(done@.last()@));
    }
    done
}

// ---------------------------------------------------------------------------
// Splitting on a separator
// ---------------------------------------------------------------------------

/// Reading `s` from the start: the pieces ended by `sep` so far, and the
/// piece not yet ended.
pub open spec fn scan_split(s: Seq<char>, sep: char) -> (Seq<Seq<char>>, Seq<char>)
    decreases s.len(),
{
    if s.len() == 0 {
        (seq![], seq![])
    } else {
        let (done, cur) = scan_split(s.drop_last(), sep);
        if s.last() == sep {
            (done.push(cur), seq![])
        } else {
            (done, cur.push(s.last()))
        }
    }
}

/// What `str::split(sep)` yields: always at least one piece.
pub open spec fn split_on(s: Seq<char>, sep: char) -> Seq<Seq<char>> {
    let (done, cur) = scan_split(s, sep);
    done.push(cur)
}

/// `s.split(sep)`, each piece as its characters.
pub fn split_chars(s: &Vec<char>, sep: char) -> (r: Vec<Vec<char>>)
    ensures
        views_of(r@) == split_on(s@, sep),
        r@.len() >= 1,
{
    let mut done: Vec<Vec<char>> = Vec::new();
    let mut cur: Vec<char> = Vec::new();
    let mut i: usize = 0;
    while i < s.len()
        invariant
            0 <= i <= s.len(),
            (views_of(done@), cur@) == scan_split(s@.take(i as int), sep),
        decreases s.len() - i,
    {
        assert(s@.take(i + 1).drop_last() =~= s@.take(i as int));
        let c = s[i];
        if c == sep {
            let piece = cur;
            cur = Vec::new();
            done.push(piece);
            assert(views_of(done@) =~= views_of(done@.drop_last()).push(done@.last()@));
        } else {
            cur.push(c);
        }
        i = i + 1;
    }
    assert(s@.take(s@.len() as int) =~= s@);
    done.push(cur);
    assert(views_of(done@) =~= views_of(done@.drop_last()).push(done@.last()@));
    done
}

// ---------------------------------------------------------------------------
// Searching
// ---------------------------------------------------------------------------

/// Whether `pat` occurs in `s` at index `i`.
pub open spec fn occurs_at(s: Seq<char>, pat: Seq<char>, i: int) -> bool {
    0 <= i && i + pat.len() <= s.len() && s.subrange(i, i + pat.len()) == pat
}

/// The first index at or after `i` where `pat` occurs in `s`.
pub open spec fn find_from(s: Seq<char>, pat: Seq<char>, i: int) -> Option<int>
    decreases s.len() + 1 - i,
{
    if i < 0 || i + pat.len() > s.len() {
        None
    } else if occurs_at(s, pat, i) {
        Some(i)
    } else {
        find_from(s, pat, i + 1)
    }
}

pub proof fn lemma_find_from_occurs(s: Seq<char>, pat: Seq<char>, i: int)
    ensures
        find_from(s, pat, i) matches Some(k) ==> occurs_at(s, pat, k) && i <= k,
    decreases s.len() + 1 - i,
{
    if i < 0 || i + pat.len() > s.len() {
    } else if occurs_at(s, pat, i) {
    } else {
        lemma_find_from_occurs(s, pat, i + 1);
    }
}

/// `str::find` with a string pattern, counted in characters.
pub open spec fn find(s: Seq<char>, pat: Seq<char>) -> Option<int> {
    find_from(s, pat, 0)
}

fn matches_at(s: &Vec<char>, pat: &Vec<char>, i: usize) -> (r: bool)
    requires
        i + pat.len() <= s.len(),
    ensures
        r == occurs_at(s@, pat@, i as int),
{
    let mut k: usize = 0;
    while k < pat.len()
        invariant
            0 <= k <= pat.len(),
            i + pat.len() <= s.len(),
            forall|j: int| 0 <= j < k ==> s@[i + j] == pat@[j],
        decreases pat.len() - k,
    {
        if s[i + k] != pat[k] {
            assert(s@.subrange(i as int, i + pat.len())[k as int] != pat@[k as int]);
            return false;
        }
        k = k + 1;
    }
    assert(s@.subrange(i as int, i + pat.len()) =~= pat@);
    true
}

/// The first index where `pat` occurs in `s`.
pub fn find_chars(s: &Vec<char>, pat: &Vec<char>) -> (r: Option<usize>)
    ensures
        r matches Some(i) ==> find(s@, pat@) == Some(i as int) && i + pat@.len() <= s@.len(),
        r is None ==> find(s@, pat@) is None,
{
    proof {
        lemma_find_from_occurs(s@, pat@, 0);
    }
    if pat.len() > s.len() {
        return None;
    }
    let last = s.len() - pat.len();
    let mut i: usize = 0;
    loop
        invariant
            0 <= i <= last,
            last + pat.len() == s.len(),
            find(s@, pat@) == find_from(s@, pat@, i as int),
        decreases last - i,
    {
        if matches_at(s, pat, i) {
            return Some(i);
        }
        if i == last {
            assert(find_from(s@, pat@, i + 1) is None);
            return None;
        }
        i = i + 1;
    }
}

/// `s` starts with `p`.
pub open spec fn starts_with(s: Seq<char>, p: Seq<char>) -> bool {
    p.len() <= s.len() && s.take(p.len() as int) == p
}

pub fn starts_with_chars(s: &Vec<char>, p: &Vec<char>) -> (r: bool)
    ensures
        r == starts_with(s@, p@),
{
    if p.len() > s.len() {
        return false;
    }
    let r = matches_at(s, p, 0);
    assert(s@.subrange(0, p@.len() as int) =~= s@.take(p@.len() as int));
    r
}

// ---------------------------------------------------------------------------
// Decimal numbers
// ---------------------------------------------------------------------------

/// The character of the decimal digit `d`.
pub open spec fn digit_char(d: nat) -> char {
    ((48 + d) as u8) as char
}

/// The decimal digits of `n`, without leading zeros.
pub open spec fn dec_digits(n: nat) -> Seq<char>
    decreases n,
{
    if n < 10 {
        seq![digit_char(n)]
    } else {
        dec_digits(n / 10).push(digit_char(n % 10))
    }
}

/// How `Display` writes the integer `i`.
pub open spec fn int_text(i: int) -> Seq<char> {
    if i < 0 {
        seq!['-'] + dec_digits((-i) as nat)
    } else {
        dec_digits(i as nat)
    }
}

/// Appends the decimal digits of `n`.
pub fn push_decimal(s: &mut String, n: u64)
    ensures
        final(s)@ == old(s)@ + dec_digits(n as nat),
    decreases n,
{
    if n >= 10 {
        push_decimal(s, n / 10);
    }
    let d: u8 = (n % 10) as u8;
    s.push((48u8 + d) as char);
    assert(s@ =~= old(s)@ + dec_digits(n as nat));
}

/// `i.to_string()`.
pub fn int_to_string(i: i64) -> (r: String)
    ensures
        r@ == int_text(i as int),
{
    let mut s = String::new();
    if i < 0 {
        s.push('-');
        let m: u64 = if i == i64::MIN {
            9223372036854775808u64
        } else {
            (-i) as u64
        };
        push_decimal(&mut s, m);
        assert(s@ =~= seq!['-'] + dec_digits((-(i as int)) as nat));
    } else {
        push_decimal(&mut s, i as u64);
        assert(s@ =~= dec_digits(i as nat));
    }
    s
}

// ---------------------------------------------------------------------------
// Joining lines
// ---------------------------------------------------------------------------

/// The pieces of `ls` separated by `sep`.
pub open spec fn join_with(ls: Seq<Seq<char>>, sep: char) -> Seq<char>
    decreases ls.len(),
{
    if ls.len() == 0 {
        seq![]
    } else if ls.len() == 1 {
        ls[0]
    } else {
        join_with(ls.drop_last(), sep) + seq![sep] + ls.last()
    }
}

/// `v.join(sep)`.
pub fn join_strings(v: &Vec<String>, sep: char) -> (r: String)
    ensures
        r@ == join_with(v@.map_values(|s: String| s@), sep),
{
    let ghost ls = v@.map_values(|s: String| s@);
    let mut out = String::new();
    let mut i: usize = 0;
    while i < v.len()
        invariant
            0 <= i <= v.len(),
            ls == v@.map_values(|s: String| s@),
            out@ == join_with(ls.take(i as int), sep),
        decreases v.len() - i,
    {
        assert(ls.take(i + 1).drop_last() =~= ls.take(i as int));
        if i > 0 {
            out.push(sep);
        }
        let ghost before = out@;
        let piece: &str = v[i].as_str();
        for c in it: piece.chars()
            invariant
                out@ == before + it.seq().take(it.index() as int),
                it.seq() == piece@,
        {
            out.push(c);
            assert(before + it.seq().take(it.index() + 1) =~= before + it.seq().take(it.index() as int) + seq![c]);
        }
        assert(v@[i as int]@.take(v@[i as int]@.len() as int) =~= v@[i as int]@);
        assert(ls[i as int] == v@[i as int]@);
        proof {
            if i == 0 {
                assert(ls.take(1) =~= seq![ls[0]]);
                assert(out@ =~= ls[0]);
            } else {
                assert(out@ =~= join_with(ls.take(i as int), sep) + seq![sep] + ls[i as int]);
            }
        }
        i = i + 1;
    }
    assert(ls.take(v.len() as int) =~= ls);
    out
}

proof fn lemma_join_push(ls: Seq<Seq<char>>, x: Seq<char>, sep: char)
    requires
        ls.len() > 0,
    ensures
        join_with(ls.push(x), sep) == join_with(ls, sep) + seq![sep] + x,
{
    assert(ls.push(x).drop_last() =~= ls);
}

/// Splitting a text on a character and joining the pieces with the same
/// character gives the text back.
pub proof fn law_join_split(s: Seq<char>, sep: char)
    ensures
        join_with(split_on(s, sep), sep) == s,
    decreases s.len(),
{
    lemma_scan_split(s, sep);
}

proof fn lemma_scan_split(s: Seq<char>, sep: char)
    ensures
        join_with(split_on(s, sep), sep) == s,
    decreases s.len(),
{
    if s.len() == 0 {
        let (d, c) = scan_split(s, sep);
        assert(split_on(s, sep) =~= seq![Seq::<char>::empty()]);
    } else {
        let p = s.drop_last();
        lemma_scan_split(p, sep);
        let (d, c) = scan_split(p, sep);
        assert(split_on(p, sep) == d.push(c));
        if s.last() == sep {
            assert(split_on(s, sep) == d.push(c).push(Seq::<char>::empty()));
            lemma_join_push(d.push(c), Seq::<char>::empty(), sep);
            assert(s =~= p + seq![sep] + Seq::<char>::empty());
        } else {
            assert(split_on(s, sep) == d.push(c.push(s.last())));
            if d.len() == 0 {
                assert(d.push(c) =~= seq![c]);
                assert(d.push(c.push(s.last())) =~= seq![c.push(s.last())]);
                assert(s =~= p.push(s.last()));
            } else {
                lemma_join_push(d, c, sep);
                lemma_join_push(d, c.push(s.last()), sep);
                assert(s =~= p.push(s.last()));
                assert(join_with(d, sep) + seq![sep] + c.push(s.last()) =~= (join_with(d, sep) + seq![sep] + c).push(s.last()));
            }
        }
    }
}

/// Joining two non-empty runs of pieces is joining each and putting the
/// separator between them.
pub proof fn lemma_join_concat(p: Seq<Seq<char>>, q: Seq<Seq<char>>, sep: char)
    requires
        p.len() > 0,
        q.len() > 0,
    ensures
        join_with(p + q, sep) == join_with(p, sep) + seq![sep] + join_with(q, sep),
    decreases q.len(),
{
    if q.len() == 1 {
        assert(p + q =~= p.push(q[0]));
        lemma_join_push(p, q[0], sep);
    } else {
        assert((p + q).drop_last() =~= p + q.drop_last());
        assert((p + q).last() == q.last());
        lemma_join_concat(p, q.drop_last(), sep);
        assert(join_with(p, sep) + seq![sep] + join_with(q.drop_last(), sep) + seq![sep] + q.last() =~= join_with(p, sep)
            + seq![sep] + (join_with(q.drop_last(), sep) + seq![sep] + q.last()));
    }
}

/// Splitting piece `l` of `ls` into `x` and `y` (so that `x + y` is that
/// piece) puts one more separator into the joined text, between the pieces
/// up to `x` and those from `y` on.
pub proof fn lemma_join_split_piece(ls: Seq<Seq<char>>, l: int, x: Seq<char>, y: Seq<char>, sep: char)
    requires
        0 <= l < ls.len(),
        x + y == ls[l],
    ensures
        ({
            let p = ls.take(l).push(x);
            let q = seq![y] + ls.skip(l + 1);
            &&& ls.update(l, x).insert(l + 1, y) == p + q
            &&& join_with(p + q, sep) == join_with(p, sep) + seq![sep] + join_with(q, sep)
            &&& join_with(ls, sep) == join_with(p, sep) + join_with(q, sep)
        }),
{
    let a = ls.take(l);
    let bb = ls.skip(l + 1);
    let p = a.push(x);
    let q = seq![y] + bb;
    assert(ls.update(l, x).insert(l + 1, y) =~= p + q);
    lemma_join_concat(p, q, sep);
    let whole = a.push(x + y);
    assert(ls =~= whole + bb);
    if a.len() > 0 {
        lemma_join_push(a, x, sep);
        lemma_join_push(a, x + y, sep);
    } else {
        assert(p =~= seq![x]);
        assert(whole =~= seq![x + y]);
    }
    if bb.len() > 0 {
        lemma_join_concat(seq![y], bb, sep);
        assert(seq![y] + bb == q);
        lemma_join_concat(whole, bb, sep);
        assert(join_with(seq![y], sep) == y);
        assert(join_with(p, sep) + (y + seq![sep] + join_with(bb, sep)) =~= join_with(whole, sep) + seq![sep]
            + join_with(bb, sep));
    } else {
        assert(q =~= seq![y]);
        assert(ls =~= whole);
        assert(join_with(p, sep) + y =~= join_with(whole, sep));
    }
}

/// Reading whole lines and then more text reads the lines of each part.
pub proof fn lemma_scan_lines_concat(a: Seq<char>, b: Seq<char>)
    requires
        scan_lines(a).1.len() == 0,
    ensures
        scan_lines(a + b) == (scan_lines(a).0 + scan_lines(b).0, scan_lines(b).1),
    decreases b.len(),
{
    if b.len() == 0 {
        assert(a + b =~= a);
        assert(scan_lines(a).0 + Seq::<Seq<char>>::empty() =~= scan_lines(a).0);
    } else {
        assert((a + b).drop_last() =~= a + b.drop_last());
        assert((a + b).last() == b.last());
        lemma_scan_lines_concat(a, b.drop_last());
        let da = scan_lines(a).0;
        let db = scan_lines(b.drop_last()).0;
        if b.last() == '\n' {
            assert((da + db).push(strip_cr(scan_lines(b.drop_last()).1)) =~= da + db.push(
                strip_cr(scan_lines(b.drop_last()).1),
            ));
        }
    }
}

/// A text without a line feed is one unfinished line.
pub proof fn lemma_scan_no_newline(t: Seq<char>)
    requires
        forall|j: int| 0 <= j < t.len() ==> t[j] != '\n',
    ensures
        scan_lines(t) == (Seq::<Seq<char>>::empty(), t),
    decreases t.len(),
{
    if t.len() > 0 {
        lemma_scan_no_newline(t.drop_last());
        assert(t.drop_last().push(t.last()) =~= t);
    }
}

} // verus!
