//! Character-level string operations with their mathematical meaning.
//!
//! Every operation works on the sequence of Unicode scalar values of a string
//! (`String@` / `str@`), which is the level at which std's `str` methods are
//! documented.
use vstd::prelude::*;

verus! {

/// `p` occurs in `s` starting at position `i`.
pub open spec fn occurs_at(s: Seq<char>, p: Seq<char>, i: int) -> bool {
    0 <= i && i + p.len() <= s.len() && s.subrange(i, i + p.len()) == p
}

/// `p` occurs somewhere in `s` (`str::contains`); the empty pattern occurs everywhere.
pub open spec fn contains_seq(s: Seq<char>, p: Seq<char>) -> bool {
    exists|i: int| #[trigger] occurs_at(s, p, i)
}

/// The leftmost position at which `p` occurs in `s` (`str::find`).
pub open spec fn is_first_occurrence(s: Seq<char>, p: Seq<char>, i: int) -> bool {
    occurs_at(s, p, i) && forall|j: int| 0 <= j < i ==> !#[trigger] occurs_at(s, p, j)
}

/// Appends one character to a `String`.
#[verifier::external_body]
pub fn push_char(s: &mut String, c: char)
    ensures
        final(s)@ == old(s)@.push(c),
{
    s.push(c);
}

/// The characters of a string slice, in order.
pub fn chars_of(s: &str) -> (v: Vec<char>)
    ensures
        v@ == s@,
{
    let n = s.unicode_len();
    let mut v: Vec<char> = Vec::new();
    let mut i: usize = 0;
    while i < n
        invariant
            n == s@.len(),
            i <= n,
            v@ == s@.subrange(0, i as int),
        decreases n - i,
    {
        let c = s.get_char(i);
        v.push(c);
        i = i + 1;
        assert(v@ =~= s@.subrange(0, i as int));
    }
    assert(v@ =~= s@);
    v
}

/// A `String` made of the given characters.
pub fn string_of(v: &[char]) -> (s: String)
    ensures
        s@ == v@,
{
    let mut s = String::new();
    let mut i: usize = 0;
    while i < v.len()
        invariant
            i <= v@.len(),
            s@ == v@.subrange(0, i as int),
        decreases v@.len() - i,
    {
        push_char(&mut s, v[i]);
        i = i + 1;
        assert(s@ =~= v@.subrange(0, i as int));
    }
    assert(s@ =~= v@);
    s
}

/// Whether `p` occurs in `s` at position `i`.
pub fn matches_at(s: &[char], p: &[char], i: usize) -> (b: bool)
    ensures
        b == occurs_at(s@, p@, i as int),
{
    if i > s.len() || p.len() > s.len() - i {
        return false;
    }
    let mut k: usize = 0;
    while k < p.len()
        invariant
            i + p@.len() <= s@.len(),
            s@.len() == s.len(),
            k <= p@.len(),
            forall|m: int| 0 <= m < k ==> s@[i + m] == p@[m],
        decreases p@.len() - k,
    {
        if s[i + k] != p[k] {
            assert(s@.subrange(i as int, i + p@.len())[k as int] != p@[k as int]);
            return false;
        }
        k = k + 1;
    }
    assert(s@.subrange(i as int, i + p@.len()) =~= p@);
    true
}

/// The leftmost occurrence of `p` in `s` at or after `from`.
pub fn find_from(s: &[char], p: &[char], from: usize) -> (r: Option<usize>)
    ensures
        match r {
            Some(i) => from <= i && occurs_at(s@, p@, i as int) && forall|j: int|
                from <= j < i ==> !#[trigger] occurs_at(s@, p@, j),
            None => forall|j: int| from <= j ==> !#[trigger] occurs_at(s@, p@, j),
        },
{
    if from > s.len() {
        return None;
    }
    let mut i: usize = from;
    while i < s.len()
        invariant
            from <= i <= s@.len(),
            forall|j: int| from <= j < i ==> !#[trigger] occurs_at(s@, p@, j),
        decreases s@.len() - i,
    {
        if matches_at(s, p, i) {
            return Some(i);
        }
        i = i + 1;
    }
    if matches_at(s, p, i) {
        return Some(i);
    }
    None
}

/// The leftmost occurrence of `p` in `s` (`str::find`).
pub fn find(s: &[char], p: &[char]) -> (r: Option<usize>)
    ensures
        match r {
            Some(i) => is_first_occurrence(s@, p@, i as int),
            None => !contains_seq(s@, p@),
        },
{
    let r = find_from(s, p, 0);
    proof {
        if r.is_none() {
            assert forall|j: int| !#[trigger] occurs_at(s@, p@, j) by {
                if j < 0 {
                }
            }
        }
    }
    r
}

/// Whether `p` occurs in `s` (`str::contains`).
pub fn contains(s: &[char], p: &[char]) -> (b: bool)
    ensures
        b == contains_seq(s@, p@),
{
    find(s, p).is_some()
}

/// Whether the text contains the given literal (`str::contains`).
pub fn str_contains(s: &str, p: &str) -> (b: bool)
    ensures
        b == contains_seq(s@, p@),
{
    let sv = chars_of(s);
    let pv = chars_of(p);
    contains(sv.as_slice(), pv.as_slice())
}


/// Appends the characters of `r` to `out`.
pub fn append_chars(out: &mut Vec<char>, r: &[char])
    ensures
        final(out)@ == old(out)@ + r@,
{
    let mut k: usize = 0;
    while k < r.len()
        invariant
            k <= r@.len(),
            out@ == old(out)@ + r@.subrange(0, k as int),
        decreases r@.len() - k,
    {
        out.push(r[k]);
        k = k + 1;
        assert(out@ =~= old(out)@ + r@.subrange(0, k as int));
    }
    assert(r@.subrange(0, r@.len() as int) =~= r@);
}

/// The characters of `s` from `a` up to (not including) `b`.
pub fn sub_chars(s: &[char], a: usize, b: usize) -> (v: Vec<char>)
    requires
        a <= b <= s@.len(),
    ensures
        v@ == s@.subrange(a as int, b as int),
{
    let mut v: Vec<char> = Vec::new();
    let mut k: usize = a;
    while k < b
        invariant
            a <= k <= b <= s@.len(),
            v@ == s@.subrange(a as int, k as int),
        decreases b - k,
    {
        v.push(s[k]);
        k = k + 1;
        assert(v@ =~= s@.subrange(a as int, k as int));
    }
    v
}

/// `str::replace`: every leftmost, non-overlapping occurrence of `p` replaced by `r`,
/// scanning from the left. The empty pattern matches before every character and at
/// the end.
pub open spec fn replace_all(s: Seq<char>, p: Seq<char>, r: Seq<char>) -> Seq<char>
    decreases s.len(),
{
    if p.len() == 0 {
        if s.len() == 0 {
            r
        } else {
            r + seq![s[0]] + replace_all(s.drop_first(), p, r)
        }
    } else if occurs_at(s, p, 0) {
        r + replace_all(s.subrange(p.len() as int, s.len() as int), p, r)
    } else if s.len() == 0 {
        s
    } else {
        seq![s[0]] + replace_all(s.drop_first(), p, r)
    }
}

proof fn lemma_subrange_tail(s: Seq<char>, i: int, k: int)
    requires
        0 <= i <= i + k <= s.len(),
    ensures
        s.subrange(i, s.len() as int).subrange(k, s.len() - i) == s.subrange(i + k, s.len() as int),
        k == 1 ==> s.subrange(i, s.len() as int).drop_first() == s.subrange(i + 1, s.len() as int),
{
    assert(s.subrange(i, s.len() as int).subrange(k, s.len() - i) =~= s.subrange(i + k, s.len() as int));
    if k == 1 {
        assert(s.subrange(i, s.len() as int).drop_first() =~= s.subrange(i + 1, s.len() as int));
    }
}

proof fn lemma_occurs_shift(s: Seq<char>, p: Seq<char>, i: int)
    requires
        0 <= i <= s.len(),
    ensures
        occurs_at(s, p, i) == occurs_at(s.subrange(i, s.len() as int), p, 0),
{
    if i + p.len() <= s.len() {
        assert(s.subrange(i, s.len() as int).subrange(0, p.len() as int) =~= s.subrange(i, i + p.len()));
    }
}

/// `str::replace` on character sequences.
pub fn replace_all_chars(s: &[char], p: &[char], r: &[char]) -> (out: Vec<char>)
    ensures
        out@ == replace_all(s@, p@, r@),
{
    let mut out: Vec<char> = Vec::new();
    let mut i: usize = 0;
    assert(s@.subrange(0, s@.len() as int) =~= s@);
    while i < s.len()
        invariant
            i <= s@.len(),
            out@ + replace_all(s@.subrange(i as int, s@.len() as int), p@, r@) == replace_all(
                s@,
                p@,
                r@,
            ),
        decreases s@.len() - i,
    {
        let ghost rest = s@.subrange(i as int, s@.len() as int);
        proof {
            lemma_occurs_shift(s@, p@, i as int);
        }
        if p.len() == 0 {
            proof {
                lemma_subrange_tail(s@, i as int, 1);
            }
            append_chars(&mut out, r);
            out.push(s[i]);
            i = i + 1;
            assert(out@ + replace_all(s@.subrange(i as int, s@.len() as int), p@, r@) =~= replace_all(s@, p@, r@));
        } else if matches_at(s, p, i) {
            proof {
                lemma_subrange_tail(s@, i as int, p@.len() as int);
            }
            append_chars(&mut out, r);
            i = i + p.len();
            assert(out@ + replace_all(s@.subrange(i as int, s@.len() as int), p@, r@) =~= replace_all(s@, p@, r@));
        } else {
            proof {
                lemma_subrange_tail(s@, i as int, 1);
            }
            out.push(s[i]);
            i = i + 1;
            assert(out@ + replace_all(s@.subrange(i as int, s@.len() as int), p@, r@) =~= replace_all(s@, p@, r@));
        }
    }
    if p.len() == 0 {
        append_chars(&mut out, r);
    }
    assert(out@ =~= replace_all(s@, p@, r@));
    out
}

/// `s` with its first occurrence of `p` (at position `i`) replaced by `r`.
pub open spec fn splice_at(s: Seq<char>, p: Seq<char>, r: Seq<char>, i: int) -> Seq<char> {
    s.subrange(0, i) + r + s.subrange(i + p.len(), s.len() as int)
}

/// `str::replacen(p, r, 1)`: only the leftmost occurrence is replaced.
pub open spec fn replace_first(s: Seq<char>, p: Seq<char>, r: Seq<char>) -> Seq<char> {
    if contains_seq(s, p) {
        splice_at(s, p, r, choose|i: int| is_first_occurrence(s, p, i))
    } else {
        s
    }
}

/// There is only one leftmost occurrence.
pub proof fn lemma_first_occurrence_unique(s: Seq<char>, p: Seq<char>, i: int, j: int)
    requires
        is_first_occurrence(s, p, i),
        is_first_occurrence(s, p, j),
    ensures
        i == j,
{
}

/// `str::replacen(p, r, 1)` on character sequences.
pub fn replace_first_chars(s: &[char], p: &[char], r: &[char]) -> (out: Vec<char>)
    ensures
        out@ == replace_first(s@, p@, r@),
{
    match find(s, p) {
        Some(i) => {
            proof {
                let j = choose|j: int| is_first_occurrence(s@, p@, j);
                lemma_first_occurrence_unique(s@, p@, i as int, j);
            }
            let n = s.len();
            let pl = p.len();
            assert(i + pl <= n);
            let mut out = sub_chars(s, 0, i);
            append_chars(&mut out, r);
            let tail = sub_chars(s, i + pl, n);
            append_chars(&mut out, tail.as_slice());
            out
        },
        None => sub_chars(s, 0, s.len()),
    }
}

/// The characters that `str::trim` and friends strip: those with the Unicode
/// `White_Space` property (`char::is_whitespace`).
pub open spec fn is_whitespace(c: char) -> bool {
    let u = c as u32;
    (0x09 <= u && u <= 0x0d) || u == 0x20 || u == 0x85 || u == 0xa0 || u == 0x1680 || (0x2000
        <= u && u <= 0x200a) || u == 0x2028 || u == 0x2029 || u == 0x202f || u == 0x205f || u
        == 0x3000
}

/// A set of characters to strip from the ends of a string.
#[derive(Clone, Copy, PartialEq, Eq, Debug)]
pub enum CharClass {
    /// `char::is_whitespace`.
    Whitespace,
    /// One given character.
    Exactly(char),
    /// The Japanese full stop `。` and comma `、`.
    JapanesePunctuation,
}

/// Whether a character belongs to a class.
pub open spec fn in_class(cls: CharClass, c: char) -> bool {
    match cls {
        CharClass::Whitespace => is_whitespace(c),
        CharClass::Exactly(x) => c == x,
        CharClass::JapanesePunctuation => c == '。' || c == '、',
    }
}

/// Whether a character belongs to a class (see `in_class`).
pub fn class_has(cls: CharClass, c: char) -> (b: bool)
    ensures
        b == in_class(cls, c),
{
    match cls {
        CharClass::Whitespace => {
            let u = c as u32;
            (0x09 <= u && u <= 0x0d) || u == 0x20 || u == 0x85 || u == 0xa0 || u == 0x1680 || (
            0x2000 <= u && u <= 0x200a) || u == 0x2028 || u == 0x2029 || u == 0x202f || u
                == 0x205f || u == 0x3000
        },
        CharClass::Exactly(x) => c == x,
        CharClass::JapanesePunctuation => c == '。' || c == '、',
    }
}

/// Drops the leading characters of the class (`str::trim_start_matches`).
pub open spec fn trim_start_class(s: Seq<char>, cls: CharClass) -> Seq<char>
    decreases s.len(),
{
    if s.len() > 0 && in_class(cls, s[0]) {
        trim_start_class(s.drop_first(), cls)
    } else {
        s
    }
}

/// Drops the trailing characters of the class (`str::trim_end_matches`).
pub open spec fn trim_end_class(s: Seq<char>, cls: CharClass) -> Seq<char>
    decreases s.len(),
{
    if s.len() > 0 && in_class(cls, s.last()) {
        trim_end_class(s.drop_last(), cls)
    } else {
        s
    }
}

/// Drops the characters of the class at both ends (`str::trim_matches`).
pub open spec fn trim_class(s: Seq<char>, cls: CharClass) -> Seq<char> {
    trim_end_class(trim_start_class(s, cls), cls)
}

/// `str::trim_start`.
pub open spec fn trim_start(s: Seq<char>) -> Seq<char> {
    trim_start_class(s, CharClass::Whitespace)
}

/// `str::trim`.
pub open spec fn trim(s: Seq<char>) -> Seq<char> {
    trim_class(s, CharClass::Whitespace)
}

/// The number of leading characters of the class.
pub fn leading_in_class(s: &[char], cls: CharClass) -> (k: usize)
    ensures
        k <= s@.len(),
        trim_start_class(s@, cls) == s@.subrange(k as int, s@.len() as int),
        forall|j: int| 0 <= j < k ==> in_class(cls, #[trigger] s@[j]),
{
    let mut i: usize = 0;
    assert(s@.subrange(0, s@.len() as int) =~= s@);
    while i < s.len() && class_has(cls, s[i])
        invariant
            i <= s@.len(),
            trim_start_class(s@, cls) == trim_start_class(s@.subrange(i as int, s@.len() as int), cls),
            forall|j: int| 0 <= j < i ==> in_class(cls, #[trigger] s@[j]),
        decreases s@.len() - i,
    {
        proof {
            lemma_subrange_tail(s@, i as int, 1);
        }
        i = i + 1;
    }
    i
}

/// The length of `s` once trailing characters of the class are dropped.
pub fn end_without_class(s: &[char], cls: CharClass) -> (k: usize)
    ensures
        k <= s@.len(),
        trim_end_class(s@, cls) == s@.subrange(0, k as int),
        forall|j: int| k <= j < s@.len() ==> in_class(cls, #[trigger] s@[j]),
{
    let mut j: usize = s.len();
    assert(s@.subrange(0, s@.len() as int) =~= s@);
    while j > 0 && class_has(cls, s[j - 1])
        invariant
            j <= s@.len(),
            trim_end_class(s@, cls) == trim_end_class(s@.subrange(0, j as int), cls),
            forall|m: int| j <= m < s@.len() ==> in_class(cls, #[trigger] s@[m]),
        decreases j,
    {
        assert(s@.subrange(0, j as int).drop_last() =~= s@.subrange(0, j - 1));
        j = j - 1;
    }
    j
}

/// `str::trim_matches` / `str::trim` for a character class.
pub fn trim_class_chars(s: &[char], cls: CharClass) -> (out: Vec<char>)
    ensures
        out@ == trim_class(s@, cls),
{
    let a = leading_in_class(s, cls);
    let t = sub_chars(s, a, s.len());
    let b = end_without_class(t.as_slice(), cls);
    sub_chars(t.as_slice(), 0, b)
}

/// `str::trim_start_matches` for a character class.
pub fn trim_start_chars(s: &[char], cls: CharClass) -> (out: Vec<char>)
    ensures
        out@ == trim_start_class(s@, cls),
{
    let a = leading_in_class(s, cls);
    sub_chars(s, a, s.len())
}

/// `str::trim_end_matches` for a character class.
pub fn trim_end_chars(s: &[char], cls: CharClass) -> (out: Vec<char>)
    ensures
        out@ == trim_end_class(s@, cls),
{
    let b = end_without_class(s, cls);
    sub_chars(s, 0, b)
}

/// `str::strip_prefix`.
pub open spec fn strip_prefix(s: Seq<char>, p: Seq<char>) -> Option<Seq<char>> {
    if occurs_at(s, p, 0) {
        Some(s.subrange(p.len() as int, s.len() as int))
    } else {
        None
    }
}

/// `str::strip_prefix` on character sequences.
pub fn strip_prefix_chars(s: &[char], p: &[char]) -> (out: Option<Vec<char>>)
    ensures
        match out {
            Some(v) => strip_prefix(s@, p@) == Some(v@),
            None => strip_prefix(s@, p@) is None,
        },
{
    if matches_at(s, p, 0) {
        Some(sub_chars(s, p.len(), s.len()))
    } else {
        None
    }
}


/// `parts` joined with `sep` between neighbours (`[T]::join`).
pub open spec fn join_seq(parts: Seq<Seq<char>>, sep: Seq<char>) -> Seq<char>
    decreases parts.len(),
{
    if parts.len() == 0 {
        Seq::empty()
    } else if parts.len() == 1 {
        parts[0]
    } else {
        join_seq(parts.drop_last(), sep) + sep + parts.last()
    }
}

/// The character sequences of a list of strings.
pub open spec fn strings_view(v: Seq<String>) -> Seq<Seq<char>> {
    v.map_values(|s: String| s@)
}

/// Joins character vectors with a separator.
pub fn join_chars(parts: &[Vec<char>], sep: &[char]) -> (out: Vec<char>)
    ensures
        out@ == join_seq(parts@.map_values(|v: Vec<char>| v@), sep@),
{
    let ghost views = parts@.map_values(|v: Vec<char>| v@);
    let mut out: Vec<char> = Vec::new();
    let mut i: usize = 0;
    while i < parts.len()
        invariant
            i <= parts@.len(),
            views == parts@.map_values(|v: Vec<char>| v@),
            out@ == join_seq(views.subrange(0, i as int), sep@),
        decreases parts@.len() - i,
    {
        assert(views.subrange(0, i + 1).drop_last() =~= views.subrange(0, i as int));
        if i > 0 {
            append_chars(&mut out, sep);
        }
        append_chars(&mut out, parts[i].as_slice());
        i = i + 1;
        if i == 1 {
            assert(out@ =~= join_seq(views.subrange(0, i as int), sep@));
        }
    }
    assert(views.subrange(0, parts@.len() as int) =~= views);
    out
}

/// Joins strings with a separator.
pub fn join_strings(parts: &[String], sep: &str) -> (out: String)
    ensures
        out@ == join_seq(strings_view(parts@), sep@),
{
    let mut vs: Vec<Vec<char>> = Vec::new();
    let mut i: usize = 0;
    while i < parts.len()
        invariant
            i <= parts@.len(),
            vs@.len() == i,
            forall|j: int| 0 <= j < i ==> #[trigger] vs@[j]@ == parts@[j]@,
        decreases parts@.len() - i,
    {
        vs.push(chars_of(parts[i].as_str()));
        i = i + 1;
    }
    assert(vs@.map_values(|v: Vec<char>| v@) =~= strings_view(parts@));
    let sv = chars_of(sep);
    let out = join_chars(vs.as_slice(), sv.as_slice());
    string_of(out.as_slice())
}

/// The first position at or after `from` that holds `c`, or `s.len()` if none does.
pub open spec fn index_of_from(s: Seq<char>, c: char, from: int) -> int
    decreases s.len() - from,
{
    if from >= s.len() {
        s.len() as int
    } else if s[from] == c {
        from
    } else {
        index_of_from(s, c, from + 1)
    }
}

/// `index_of_from` finds the first `c` at or after `from`, or the end.
pub proof fn lemma_index_of_from(s: Seq<char>, c: char, from: int)
    requires
        0 <= from <= s.len(),
    ensures
        from <= index_of_from(s, c, from) <= s.len(),
        index_of_from(s, c, from) < s.len() ==> s[index_of_from(s, c, from)] == c,
        forall|j: int| from <= j < index_of_from(s, c, from) ==> s[j] != c,
    decreases s.len() - from,
{
    if from < s.len() && s[from] != c {
        lemma_index_of_from(s, c, from + 1);
    }
}

/// `str::split(c)`: the pieces between occurrences of `c`, empty pieces included.
pub open spec fn split_char(s: Seq<char>, c: char) -> Seq<Seq<char>>
    decreases s.len(),
{
    let i = index_of_from(s, c, 0);
    if 0 <= i < s.len() {
        seq![s.subrange(0, i)] + split_char(s.subrange(i + 1, s.len() as int), c)
    } else {
        seq![s]
    }
}

/// The first position of `c` in `s` at or after `from`.
pub fn find_char_from(s: &[char], c: char, from: usize) -> (r: Option<usize>)
    requires
        from <= s@.len(),
    ensures
        match r {
            Some(i) => from <= i < s@.len() && s@[i as int] == c && forall|j: int|
                from <= j < i ==> s@[j] != c,
            None => forall|j: int| from <= j < s@.len() ==> s@[j] != c,
        },
{
    let mut i = from;
    while i < s.len()
        invariant
            from <= i <= s@.len(),
            forall|j: int| from <= j < i ==> s@[j] != c,
        decreases s@.len() - i,
    {
        if s[i] == c {
            return Some(i);
        }
        i = i + 1;
    }
    None
}

proof fn lemma_index_of_from_shift(s: Seq<char>, c: char, from: int, k: int)
    requires
        0 <= from <= k <= s.len(),
        forall|j: int| from <= j < k ==> s[j] != c,
    ensures
        index_of_from(s.subrange(from, s.len() as int), c, k - from) + from == index_of_from(s, c, k),
    decreases s.len() - k,
{
    let t = s.subrange(from, s.len() as int);
    if k < s.len() {
        assert(t[k - from] == s[k]);
        if s[k] != c {
            lemma_index_of_from_shift(s, c, from, k + 1);
        }
    }
}

proof fn lemma_split_char_at(s: Seq<char>, c: char, from: int)
    requires
        0 <= from <= s.len(),
    ensures
        ({
            let t = s.subrange(from, s.len() as int);
            let i = index_of_from(s, c, from);
            if i < s.len() {
                split_char(t, c) == seq![s.subrange(from, i)] + split_char(
                    s.subrange(i + 1, s.len() as int),
                    c,
                )
            } else {
                split_char(t, c) == seq![t]
            }
        }),
{
    let t = s.subrange(from, s.len() as int);
    lemma_index_of_from_shift(s, c, from, from);
    lemma_index_of_from(s, c, from);
    let i = index_of_from(s, c, from);
    if i < s.len() {
        assert(t.subrange(0, i - from) =~= s.subrange(from, i));
        assert(t.subrange(i - from + 1, t.len() as int) =~= s.subrange(i + 1, s.len() as int));
    }
}

/// `str::split(c)` on character sequences.
pub fn split_chars(s: &[char], c: char) -> (out: Vec<Vec<char>>)
    ensures
        out@.map_values(|v: Vec<char>| v@) == split_char(s@, c),
{
    let mut out: Vec<Vec<char>> = Vec::new();
    let mut from: usize = 0;
    assert(s@.subrange(0, s@.len() as int) =~= s@);
    loop
        invariant
            from <= s@.len(),
            out@.map_values(|v: Vec<char>| v@) + split_char(
                s@.subrange(from as int, s@.len() as int),
                c,
            ) == split_char(s@, c),
        decreases s@.len() - from,
    {
        proof {
            lemma_split_char_at(s@, c, from as int);
            lemma_index_of_from(s@, c, from as int);
        }
        let ghost before = out@.map_values(|v: Vec<char>| v@);
        match find_char_from(s, c, from) {
            Some(i) => {
                assert(i as int == index_of_from(s@, c, from as int)) by {
                    if (i as int) < index_of_from(s@, c, from as int) {
                    } else if (i as int) > index_of_from(s@, c, from as int) {
                    }
                }
                let ghost piece_v = s@.subrange(from as int, i as int);
                let n = s.len();
                assert(i < n);
                let piece = sub_chars(s, from, i);
                out.push(piece);
                from = i + 1;
                assert(out@.map_values(|v: Vec<char>| v@) =~= before.push(piece_v));
                assert(before.push(piece_v) + split_char(s@.subrange(from as int, s@.len() as int), c)
                    =~= before + (seq![piece_v] + split_char(s@.subrange(from as int, s@.len() as int), c)));
            },
            None => {
                assert(index_of_from(s@, c, from as int) == s@.len()) by {
                    if index_of_from(s@, c, from as int) < s@.len() {
                    }
                }
                let ghost piece_v = s@.subrange(from as int, s@.len() as int);
                let piece = sub_chars(s, from, s.len());
                out.push(piece);
                assert(out@.map_values(|v: Vec<char>| v@) =~= before.push(piece_v));
                assert(before.push(piece_v) =~= before + seq![piece_v]);
                return out;
            },
        }
    }
}

/// A line without the carriage return that preceded its line feed.
pub open spec fn strip_cr(x: Seq<char>) -> Seq<char> {
    if x.len() > 0 && x.last() == '\r' {
        x.drop_last()
    } else {
        x
    }
}

/// `str::lines`: the text split at each `\n` (a `\r` just before it is dropped
/// too); a final line ending adds no empty line, and the empty text has no lines.
pub open spec fn lines(s: Seq<char>) -> Seq<Seq<char>>
    decreases s.len(),
{
    if s.len() == 0 {
        Seq::empty()
    } else {
        let i = index_of_from(s, '\n', 0);
        if 0 <= i < s.len() {
            seq![strip_cr(s.subrange(0, i))] + lines(s.subrange(i + 1, s.len() as int))
        } else {
            seq![s]
        }
    }
}

proof fn lemma_lines_at(s: Seq<char>, from: int)
    requires
        0 <= from < s.len(),
    ensures
        ({
            let t = s.subrange(from, s.len() as int);
            let i = index_of_from(s, '\n', from);
            if i < s.len() {
                lines(t) == seq![strip_cr(s.subrange(from, i))] + lines(
                    s.subrange(i + 1, s.len() as int),
                )
            } else {
                lines(t) == seq![t]
            }
        }),
{
    let t = s.subrange(from, s.len() as int);
    lemma_index_of_from_shift(s, '\n', from, from);
    lemma_index_of_from(s, '\n', from);
    let i = index_of_from(s, '\n', from);
    if i < s.len() {
        assert(t.subrange(0, i - from) =~= s.subrange(from, i));
        assert(t.subrange(i - from + 1, t.len() as int) =~= s.subrange(i + 1, s.len() as int));
    }
}

/// Drops a final `\r`.
pub fn strip_cr_chars(x: Vec<char>) -> (out: Vec<char>)
    ensures
        out@ == strip_cr(x@),
{
    let ghost orig = x@;
    let mut x = x;
    if x.len() > 0 && x[x.len() - 1] == '\r' {
        x.pop();
        assert(x@ =~= strip_cr(orig));
    }
    x
}

/// `str::lines` on character sequences.
pub fn lines_chars(s: &[char]) -> (out: Vec<Vec<char>>)
    ensures
        out@.map_values(|v: Vec<char>| v@) == lines(s@),
{
    let mut out: Vec<Vec<char>> = Vec::new();
    let mut from: usize = 0;
    assert(s@.subrange(0, s@.len() as int) =~= s@);
    while from < s.len()
        invariant
            from <= s@.len(),
            out@.map_values(|v: Vec<char>| v@) + lines(s@.subrange(from as int, s@.len() as int))
                == lines(s@),
        decreases s@.len() - from,
    {
        proof {
            lemma_lines_at(s@, from as int);
            lemma_index_of_from(s@, '\n', from as int);
        }
        let ghost before = out@.map_values(|v: Vec<char>| v@);
        match find_char_from(s, '\n', from) {
            Some(i) => {
                assert(i as int == index_of_from(s@, '\n', from as int)) by {
                    if (i as int) < index_of_from(s@, '\n', from as int) {
                    } else if (i as int) > index_of_from(s@, '\n', from as int) {
                    }
                }
                let ghost piece_v = strip_cr(s@.subrange(from as int, i as int));
                let n = s.len();
                assert(i < n);
                let piece = strip_cr_chars(sub_chars(s, from, i));
                out.push(piece);
                from = i + 1;
                assert(out@.map_values(|v: Vec<char>| v@) =~= before.push(piece_v));
                assert(before.push(piece_v) + lines(s@.subrange(from as int, s@.len() as int))
                    =~= before + (seq![piece_v] + lines(s@.subrange(from as int, s@.len() as int))));
            },
            None => {
                assert(index_of_from(s@, '\n', from as int) == s@.len()) by {
                    if index_of_from(s@, '\n', from as int) < s@.len() {
                    }
                }
                let ghost piece_v = s@.subrange(from as int, s@.len() as int);
                let piece = sub_chars(s, from, s.len());
                out.push(piece);
                assert(out@.map_values(|v: Vec<char>| v@) =~= before.push(piece_v));
                assert(before.push(piece_v) =~= before + seq![piece_v]);
                assert(lines(s@.subrange(s@.len() as int, s@.len() as int)) =~= Seq::<Seq<char>>::empty());
                return out;
            },
        }
    }
    assert(lines(s@.subrange(from as int, s@.len() as int)) =~= Seq::<Seq<char>>::empty());
    assert(out@.map_values(|v: Vec<char>| v@) =~= lines(s@));
    out
}

/// Whether two character sequences are equal.
pub fn chars_eq(a: &[char], b: &[char]) -> (r: bool)
    ensures
        r == (a@ == b@),
{
    if a.len() != b.len() {
        return false;
    }
    let r = matches_at(a, b, 0);
    assert(a@.subrange(0, b@.len() as int) =~= a@);
    r
}

/// Whether two strings are equal.
pub fn str_eq(a: &str, b: &str) -> (r: bool)
    ensures
        r == (a@ == b@),
{
    let av = chars_of(a);
    let bv = chars_of(b);
    chars_eq(av.as_slice(), bv.as_slice())
}

/// No line is longer than the text.
/// A line that can stand in a text as it is: no line feed inside, and no
/// carriage return at its end (which `lines` would drop).
pub open spec fn plain_line(l: Seq<char>) -> bool {
    (forall|j: int| 0 <= j < l.len() ==> l[j] != '\n') && !(l.len() > 0 && l.last() == '\r')
}

/// Joining keeps the first part in front: for two parts or more, the join is
/// the first part, the separator, and the join of the rest.
pub proof fn lemma_join_front(parts: Seq<Seq<char>>, sep: Seq<char>)
    requires
        parts.len() >= 2,
    ensures
        join_seq(parts, sep) == parts[0] + sep + join_seq(parts.drop_first(), sep),
    decreases parts.len(),
{
    let pl = parts.drop_last();
    let pf = parts.drop_first();
    assert(join_seq(parts, sep) == join_seq(pl, sep) + sep + parts.last());
    if parts.len() == 2 {
        assert(pl.len() == 1 && pl[0] == parts[0]);
        assert(join_seq(pl, sep) == parts[0]);
        assert(pf.len() == 1 && pf[0] == parts[1]);
        assert(join_seq(pf, sep) == parts[1]);
        assert(join_seq(parts, sep) =~= parts[0] + sep + join_seq(pf, sep));
    } else {
        lemma_join_front(pl, sep);
        assert(pl.drop_first() =~= pf.drop_last());
        assert(pf.last() == parts.last());
        assert(join_seq(pf, sep) == join_seq(pf.drop_last(), sep) + sep + pf.last());
        assert(join_seq(parts, sep) =~= parts[0] + sep + join_seq(pf, sep));
    }
}

/// A plain line followed by a line feed is read back as that line, then the
/// lines of what follows.
pub proof fn lemma_lines_cons(a: Seq<char>, b: Seq<char>)
    requires
        plain_line(a),
    ensures
        lines(a + seq!['\n'] + b) == seq![a] + lines(b),
{
    let s = a + seq!['\n'] + b;
    lemma_index_of_from(s, '\n', 0);
    let i = index_of_from(s, '\n', 0);
    if i < a.len() {
        assert(s[i] == a[i]);
    }
    if i > a.len() {
        assert(s[a.len() as int] == '\n');
    }
    assert(i == a.len());
    assert(s.subrange(0, i) =~= a);
    assert(s.subrange(i + 1, s.len() as int) =~= b);
}

/// Lines joined with line feeds, with a final line feed, read back as the same
/// lines.
pub proof fn lemma_lines_of_joined_terminated(ls: Seq<Seq<char>>)
    requires
        ls.len() >= 1,
        forall|i: int| 0 <= i < ls.len() ==> plain_line(#[trigger] ls[i]),
    ensures
        lines(join_seq(ls, seq!['\n']) + seq!['\n']) == ls,
    decreases ls.len(),
{
    assert(plain_line(ls[0]));
    if ls.len() == 1 {
        lemma_lines_cons(ls[0], Seq::empty());
        assert(ls[0] + seq!['\n'] + Seq::<char>::empty() =~= join_seq(ls, seq!['\n']) + seq!['\n']);
        assert(ls =~= seq![ls[0]]);
    } else {
        let rest = ls.drop_first();
        lemma_join_front(ls, seq!['\n']);
        assert forall|i: int| 0 <= i < rest.len() implies plain_line(#[trigger] rest[i]) by {
            assert(rest[i] == ls[i + 1]);
        }
        lemma_lines_of_joined_terminated(rest);
        lemma_lines_cons(ls[0], join_seq(rest, seq!['\n']) + seq!['\n']);
        assert(join_seq(ls, seq!['\n']) + seq!['\n'] =~= ls[0] + seq!['\n'] + (join_seq(rest, seq!['\n'])
            + seq!['\n']));
        assert(ls =~= seq![ls[0]] + rest);
    }
}

/// Lines joined with line feeds, without a final one, read back as the same
/// lines when every line but the last is plain and the last is a non-empty
/// piece without line feeds (it may end with a carriage return, which `lines`
/// keeps on an unterminated line).
pub proof fn lemma_lines_of_joined(ls: Seq<Seq<char>>)
    requires
        forall|i: int| 0 <= i < ls.len() - 1 ==> plain_line(#[trigger] ls[i]),
        ls.len() >= 1 ==> ls.last().len() > 0,
        ls.len() >= 1 ==> forall|j: int| 0 <= j < ls.last().len() ==> ls.last()[j] != '\n',
    ensures
        lines(join_seq(ls, seq!['\n'])) == ls,
    decreases ls.len(),
{
    if ls.len() == 1 {
        let a = ls[0];
        lemma_index_of_from(a, '\n', 0);
        let i = index_of_from(a, '\n', 0);
        if i < a.len() {
            assert(a[i] != '\n');
        }
        assert(ls =~= seq![a]);
    } else if ls.len() >= 2 {
        let rest = ls.drop_first();
        lemma_join_front(ls, seq!['\n']);
        assert(plain_line(ls[0]));
        assert forall|i: int| 0 <= i < rest.len() - 1 implies plain_line(#[trigger] rest[i]) by {
            assert(rest[i] == ls[i + 1]);
        }
        assert(rest.last() == ls.last());
        lemma_lines_of_joined(rest);
        lemma_lines_cons(ls[0], join_seq(rest, seq!['\n']));
        assert(ls =~= seq![ls[0]] + rest);
    }
}

/// The shape of the lines of a text: no line holds a line feed, a non-empty
/// text has lines, and when the text does not end with a line feed its last
/// line is not empty.
pub proof fn lemma_lines_shape(s: Seq<char>)
    ensures
        forall|i: int, j: int|
            0 <= i < lines(s).len() && 0 <= j < lines(s)[i].len() ==> #[trigger] lines(s)[i][j] != '\n',
        s.len() > 0 ==> lines(s).len() >= 1,
        lines(s).len() >= 1 && !(s.len() > 0 && s.last() == '\n') ==> lines(s).last().len() > 0,
    decreases s.len(),
{
    if s.len() > 0 {
        let i = index_of_from(s, '\n', 0);
        lemma_index_of_from(s, '\n', 0);
        if i < s.len() {
            let head = s.subrange(0, i);
            let tail = s.subrange(i + 1, s.len() as int);
            lemma_lines_shape(tail);
            let h = strip_cr(head);
            assert forall|j: int| 0 <= j < h.len() implies h[j] != '\n' by {
                assert(h[j] == head[j]);
                assert(head[j] == s[j]);
            }
            let rest = lines(tail);
            assert(lines(s) == seq![h] + rest);
            assert forall|k: int, j: int|
                0 <= k < lines(s).len() && 0 <= j < lines(s)[k].len() implies #[trigger] lines(s)[k][j]
                != '\n' by {
                if k > 0 {
                    assert(lines(s)[k] == rest[k - 1]);
                } else {
                    assert(lines(s)[k] == h);
                }
            }
            if lines(s).len() >= 1 && !(s.len() > 0 && s.last() == '\n') {
                if rest.len() == 0 {
                    assert(tail.len() == 0);
                    assert(s.last() == s[i]);
                } else {
                    assert(tail.last() == s.last());
                    assert(lines(s).last() == rest.last());
                }
            }
        } else {
            assert(lines(s) == seq![s]);
            assert forall|k: int, j: int|
                0 <= k < lines(s).len() && 0 <= j < lines(s)[k].len() implies #[trigger] lines(s)[k][j]
                != '\n' by {
                assert(lines(s)[k] == s);
            }
        }
    }
}

/// No line of a text is longer than the text.
pub proof fn lemma_lines_bounded(s: Seq<char>)
    ensures
        forall|i: int| 0 <= i < lines(s).len() ==> (#[trigger] lines(s)[i]).len() <= s.len(),
    decreases s.len(),
{
    if s.len() > 0 {
        let i = index_of_from(s, '\n', 0);
        lemma_index_of_from(s, '\n', 0);
        if 0 <= i < s.len() {
            lemma_lines_bounded(s.subrange(i + 1, s.len() as int));
            let rest = lines(s.subrange(i + 1, s.len() as int));
            assert forall|j: int| 0 <= j < lines(s).len() implies (#[trigger] lines(s)[j]).len() <= s.len() by {
                if j > 0 {
                    assert(lines(s)[j] == rest[j - 1]);
                }
            }
        }
    }
}

} // verus!
