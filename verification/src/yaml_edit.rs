//! Line-level editing of the hand-written YAML registries (`tags.yaml`,
//! `projects.yaml`) and of an inbox note's frontmatter.
//!
//! These files carry comments written by a person, which a parse and
//! re-serialisation would lose, so entries are found and edited as lines of
//! text and every other line is kept as it was.
use vstd::prelude::*;

use crate::text::{
    chars_eq, chars_of, join_chars, join_seq, lemma_lines_of_joined, lemma_lines_of_joined_terminated,
    lemma_lines_shape, lines, lines_chars, matches_at, occurs_at, plain_line, strings_view, string_of,
    strip_prefix, strip_prefix_chars, trim, trim_class, trim_class_chars, trim_start,
    trim_start_chars, CharClass,
};

verus! {

/// The bytes a character takes in UTF-8.
pub open spec fn utf8_len(c: char) -> nat {
    let u = c as u32;
    if u < 0x80 {
        1
    } else if u < 0x800 {
        2
    } else if u < 0x10000 {
        3
    } else {
        4
    }
}

/// The bytes a string takes in UTF-8 (`str::len`).
pub open spec fn utf8_size(s: Seq<char>) -> nat
    decreases s.len(),
{
    if s.len() == 0 {
        0
    } else {
        utf8_size(s.drop_last()) + utf8_len(s.last())
    }
}

/// The leading whitespace of a line.
pub open spec fn indent_of(line: Seq<char>) -> Seq<char> {
    line.subrange(0, line.len() - trim_start(line).len())
}

/// `n` spaces.
pub open spec fn spaces(n: nat) -> Seq<char> {
    Seq::new(n, |i: int| ' ')
}

/// The first index at or after `from` whose line satisfies `p`, or `ls.len()`.
pub open spec fn first_index(ls: Seq<Seq<char>>, p: spec_fn(Seq<char>) -> bool, from: int) -> int
    decreases ls.len() - from,
{
    if from >= ls.len() {
        ls.len() as int
    } else if p(ls[from]) {
        from
    } else {
        first_index(ls, p, from + 1)
    }
}

/// `first_index` is the first matching index at or after `from`, or the end.
pub proof fn lemma_first_index(ls: Seq<Seq<char>>, p: spec_fn(Seq<char>) -> bool, from: int)
    requires
        0 <= from <= ls.len(),
    ensures
        from <= first_index(ls, p, from) <= ls.len(),
        first_index(ls, p, from) < ls.len() ==> p(ls[first_index(ls, p, from)]),
        forall|j: int| from <= j < first_index(ls, p, from) ==> !p(#[trigger] ls[j]),
    decreases ls.len() - from,
{
    if from < ls.len() && !p(ls[from]) {
        lemma_first_index(ls, p, from + 1);
    }
}

/// Two line lists on which `p` agrees at every index from `from` on have the
/// same first index.
pub proof fn lemma_first_index_agree(
    a: Seq<Seq<char>>,
    b: Seq<Seq<char>>,
    p: spec_fn(Seq<char>) -> bool,
    from: int,
)
    requires
        0 <= from <= a.len(),
        a.len() == b.len(),
        forall|j: int| from <= j < a.len() ==> p(#[trigger] a[j]) == p(b[j]),
    ensures
        first_index(a, p, from) == first_index(b, p, from),
    decreases a.len() - from,
{
    if from < a.len() && !p(a[from]) {
        lemma_first_index_agree(a, b, p, from + 1);
    }
}

/// The value of a `- <key>: <value>` line for the key, with surrounding spaces
/// and then double and single quotes stripped; `None` for other lines.
pub open spec fn entry_value(line: Seq<char>, key_field: Seq<char>) -> Option<Seq<char>> {
    match strip_prefix(trim_start(line), "- "@ + key_field + ":"@) {
        Some(rest) => Some(
            trim_class(trim_class(trim(rest), CharClass::Exactly('"')), CharClass::Exactly('\'')),
        ),
        None => None,
    }
}

/// The line that opens the entry whose key has the given value.
pub open spec fn is_entry_line(key_field: Seq<char>, key_value: Seq<char>) -> spec_fn(
    Seq<char>,
) -> bool {
    |line: Seq<char>| entry_value(line, key_field) == Some(key_value)
}

/// A line that opens a top-level list item (`  - ...`).
pub open spec fn is_item_start() -> spec_fn(Seq<char>) -> bool {
    |line: Seq<char>| occurs_at(trim_start(line), "- "@, 0) && occurs_at(line, "  -"@, 0)
}

/// The lines `[start, end)` of the entry whose key has the given value: it
/// starts at the first line that names it and ends before the next top-level
/// list item (or at the end).
pub open spec fn yaml_item_range(ls: Seq<Seq<char>>, key_field: Seq<char>, key_value: Seq<char>) -> Option<(int, int)> {
    let start = first_index(ls, is_entry_line(key_field, key_value), 0);
    if start < ls.len() {
        Some((start, first_index(ls, is_item_start(), start + 1)))
    } else {
        None
    }
}

fn line_entry_value(line: &[char], marker: &[char]) -> (r: Option<Vec<char>>)
    ensures
        match r {
            Some(v) => strip_prefix(trim_start(line@), marker@) matches Some(rest) && v@ == trim_class(
                trim_class(trim(rest), CharClass::Exactly('"')),
                CharClass::Exactly('\''),
            ),
            None => strip_prefix(trim_start(line@), marker@) is None,
        },
{
    let ts = trim_start_chars(line, CharClass::Whitespace);
    match strip_prefix_chars(ts.as_slice(), marker) {
        Some(rest) => {
            let a = trim_class_chars(rest.as_slice(), CharClass::Whitespace);
            let b = trim_class_chars(a.as_slice(), CharClass::Exactly('"'));
            Some(trim_class_chars(b.as_slice(), CharClass::Exactly('\'')))
        },
        None => None,
    }
}

fn entry_line_matches(line: &[char], marker: &[char], kv: &[char], Ghost(key_field): Ghost<Seq<char>>, Ghost(key_value): Ghost<Seq<char>>) -> (b: bool)
    requires
        marker@ == "- "@ + key_field + ":"@,
        kv@ == key_value,
    ensures
        b == is_entry_line(key_field, key_value)(line@),
{
    match line_entry_value(line, marker) {
        Some(v) => chars_eq(v.as_slice(), kv),
        None => false,
    }
}

fn item_start_line(line: &[char]) -> (b: bool)
    ensures
        b == is_item_start()(line@),
{
    let ts = trim_start_chars(line, CharClass::Whitespace);
    let dash = chars_of("- ");
    let indented = chars_of("  -");
    matches_at(ts.as_slice(), dash.as_slice(), 0) && matches_at(line, indented.as_slice(), 0)
}

/// The entry of the given key in a list of lines (see `yaml_item_range`).
pub fn find_yaml_list_item_range_chars(ls: &[Vec<char>], key_field: &str, key_value: &str) -> (r: Option<(usize, usize)>)
    ensures
        match r {
            Some((a, b)) => yaml_item_range(ls@.map_values(|v: Vec<char>| v@), key_field@, key_value@)
                == Some((a as int, b as int)),
            None => yaml_item_range(ls@.map_values(|v: Vec<char>| v@), key_field@, key_value@) is None,
        },
{
    let ghost views = ls@.map_values(|v: Vec<char>| v@);
    let mut marker = chars_of("- ");
    let kf = chars_of(key_field);
    crate::text::append_chars(&mut marker, kf.as_slice());
    marker.push(':');
    assert(marker@ =~= "- "@ + key_field@ + ":"@) by {
        reveal_strlit(":");
    }
    let kv = chars_of(key_value);
    let ghost entry = is_entry_line(key_field@, key_value@);
    proof {
        lemma_first_index(views, entry, 0);
    }
    let mut i: usize = 0;
    while i < ls.len() && !entry_line_matches(ls[i].as_slice(), marker.as_slice(), kv.as_slice(), Ghost(key_field@), Ghost(key_value@))
        invariant
            views == ls@.map_values(|v: Vec<char>| v@),
            marker@ == "- "@ + key_field@ + ":"@,
            kv@ == key_value@,
            entry == is_entry_line(key_field@, key_value@),
            i <= ls@.len(),
            first_index(views, entry, 0) == first_index(views, entry, i as int),
        decreases ls@.len() - i,
    {
        assert(!entry(views[i as int]));
        i = i + 1;
    }
    if i == ls.len() {
        return None;
    }
    assert(entry(views[i as int]));
    let start = i;
    assert(first_index(views, entry, 0) == start);
    let ghost item = is_item_start();
    let mut j: usize = start + 1;
    while j < ls.len() && !item_start_line(ls[j].as_slice())
        invariant
            views == ls@.map_values(|v: Vec<char>| v@),
            item == is_item_start(),
            start < j <= ls@.len(),
            first_index(views, item, start + 1) == first_index(views, item, j as int),
        decreases ls@.len() - j,
    {
        assert(!item(views[j as int]));
        j = j + 1;
    }
    let end = j;
    Some((start, end))
}

/// `find_yaml_list_item_range` on lines given as strings.
pub fn find_yaml_list_item_range(lines: &[String], key_field: &str, key_value: &str) -> (r: Option<(usize, usize)>)
    ensures
        match r {
            Some((a, b)) => yaml_item_range(strings_view(lines@), key_field@, key_value@) == Some(
                (a as int, b as int),
            ),
            None => yaml_item_range(strings_view(lines@), key_field@, key_value@) is None,
        },
{
    let mut ls: Vec<Vec<char>> = Vec::new();
    let mut i: usize = 0;
    while i < lines.len()
        invariant
            i <= lines@.len(),
            ls@.len() == i,
            forall|j: int| 0 <= j < i ==> #[trigger] ls@[j]@ == lines@[j]@,
        decreases lines@.len() - i,
    {
        ls.push(chars_of(lines[i].as_str()));
        i = i + 1;
    }
    assert(ls@.map_values(|v: Vec<char>| v@) =~= strings_view(lines@));
    find_yaml_list_item_range_chars(ls.as_slice(), key_field, key_value)
}

/// A line whose text, after its indentation, starts with `status:`.
pub open spec fn is_status_line() -> spec_fn(Seq<char>) -> bool {
    |line: Seq<char>| occurs_at(trim_start(line), "status:"@, 0)
}

/// The status line as rewritten: the same indentation, as that many spaces
/// as the old one took bytes, then `status: <new_status>`.
pub open spec fn rewritten_status_line(line: Seq<char>, new_status: Seq<char>) -> Seq<char> {
    spaces(utf8_size(indent_of(line))) + "status: "@ + new_status
}

/// The lines with the entry's status line rewritten, or the error message:
/// no entry with that key, or no `status:` line inside it.
pub open spec fn rewrite_status_lines(
    ls: Seq<Seq<char>>,
    key_field: Seq<char>,
    key_value: Seq<char>,
    new_status: Seq<char>,
) -> Result<Seq<Seq<char>>, Seq<char>> {
    match yaml_item_range(ls, key_field, key_value) {
        None => Err("対象のエントリが見つかりませんでした。"@),
        Some((a, b)) => {
            let k = first_index(ls.take(b), is_status_line(), a);
            if k < b {
                Ok(ls.update(k, rewritten_status_line(ls[k], new_status)))
            } else {
                Err("statusフィールドが見つかりませんでした。"@)
            }
        },
    }
}

/// The text ends with a line feed.
pub open spec fn ends_with_newline(text: Seq<char>) -> bool {
    text.len() > 0 && text.last() == '\n'
}

/// Lines joined back into a text, with a final line feed when `keep_final` holds.
pub open spec fn rejoin(ls: Seq<Seq<char>>, keep_final: bool) -> Seq<char> {
    join_seq(ls, "\n"@) + if keep_final {
        "\n"@
    } else {
        Seq::empty()
    }
}

/// A registry text with the entry's status rewritten; the final line feed is
/// kept as it was.
pub open spec fn rewrite_yaml_status_spec(
    text: Seq<char>,
    key_field: Seq<char>,
    key_value: Seq<char>,
    new_status: Seq<char>,
) -> Result<Seq<char>, Seq<char>> {
    match rewrite_status_lines(lines(text), key_field, key_value, new_status) {
        Ok(nl) => Ok(rejoin(nl, ends_with_newline(text))),
        Err(e) => Err(e),
    }
}

/// A registry text with the entry removed (its lines `[start, end)`); the
/// final line feed is kept unless nothing is left.
pub open spec fn remove_yaml_list_item_spec(text: Seq<char>, key_field: Seq<char>, key_value: Seq<char>) -> Result<Seq<char>, Seq<char>> {
    let ls = lines(text);
    match yaml_item_range(ls, key_field, key_value) {
        None => Err("対象のエントリが見つかりませんでした。"@),
        Some((a, b)) => {
            let rest = ls.subrange(0, a) + ls.subrange(b, ls.len() as int);
            Ok(rejoin(rest, rest.len() > 0 && ends_with_newline(text)))
        },
    }
}

/// The frontmatter fence `---` (surrounding spaces allowed).
pub open spec fn is_fence() -> spec_fn(Seq<char>) -> bool {
    |line: Seq<char>| trim(line) == "---"@
}

/// A line that starts with `review_status:`.
pub open spec fn is_review_status_line() -> spec_fn(Seq<char>) -> bool {
    |line: Seq<char>| occurs_at(line, "review_status:"@, 0)
}

/// An inbox note's lines with its frontmatter's `review_status` set: the first
/// `review_status:` line inside the frontmatter is replaced, or, when there is
/// none, one is added just before the closing fence. Errors when the first line
/// is not a fence or no closing fence follows.
pub open spec fn review_status_lines(ls: Seq<Seq<char>>, new_status: Seq<char>) -> Result<Seq<Seq<char>>, Seq<char>> {
    if ls.len() == 0 || !is_fence()(ls[0]) {
        Err("frontmatterが見つかりませんでした。"@)
    } else {
        let c = first_index(ls, is_fence(), 1);
        if c >= ls.len() {
            Err("frontmatterの終端が見つかりませんでした。"@)
        } else {
            let k = first_index(ls.take(c), is_review_status_line(), 1);
            let line = "review_status: "@ + new_status;
            if k < c {
                Ok(ls.update(k, line))
            } else {
                Ok(ls.insert(c, line))
            }
        }
    }
}

/// An inbox note with its review status set (see `review_status_lines`); the
/// final line feed is kept as it was and the body is not touched.
pub open spec fn rewrite_inbox_review_status_spec(text: Seq<char>, new_status: Seq<char>) -> Result<Seq<char>, Seq<char>> {
    match review_status_lines(lines(text), new_status) {
        Ok(nl) => Ok(rejoin(nl, ends_with_newline(text))),
        Err(e) => Err(e),
    }
}

/// The UTF-8 size of a character.
fn utf8_len_of(c: char) -> (n: usize)
    ensures
        n == utf8_len(c),
{
    let u = c as u32;
    if u < 0x80 {
        1
    } else if u < 0x800 {
        2
    } else if u < 0x10000 {
        3
    } else {
        4
    }
}

/// The UTF-8 size of the first `k` characters.
fn utf8_size_prefix(s: &[char], k: usize) -> (n: usize)
    requires
        k <= s@.len(),
        4 * s@.len() <= usize::MAX,
    ensures
        n == utf8_size(s@.subrange(0, k as int)),
{
    let mut n: usize = 0;
    let mut i: usize = 0;
    while i < k
        invariant
            i <= k <= s@.len(),
            4 * s@.len() <= usize::MAX,
            n == utf8_size(s@.subrange(0, i as int)),
            n <= 4 * i,
        decreases k - i,
    {
        assert(s@.subrange(0, i + 1).drop_last() =~= s@.subrange(0, i as int));
        n = n + utf8_len_of(s[i]);
        i = i + 1;
    }
    n
}

/// `n` spaces followed by the given characters.
fn spaces_then(n: usize, rest: &[char]) -> (v: Vec<char>)
    ensures
        v@ == spaces(n as nat) + rest@,
{
    let mut v: Vec<char> = Vec::new();
    let mut i: usize = 0;
    while i < n
        invariant
            i <= n,
            v@ == spaces(i as nat),
        decreases n - i,
    {
        v.push(' ');
        i = i + 1;
        assert(v@ =~= spaces(i as nat));
    }
    crate::text::append_chars(&mut v, rest);
    v
}

/// The characters of a literal followed by those of a string.
fn literal_then(lit: &str, rest: &str) -> (v: Vec<char>)
    ensures
        v@ == lit@ + rest@,
{
    let mut v = chars_of(lit);
    let r = chars_of(rest);
    crate::text::append_chars(&mut v, r.as_slice());
    v
}

/// The lines of a text joined back, with a final line feed when asked.
fn rejoin_chars(ls: &[Vec<char>], keep_final: bool) -> (s: String)
    ensures
        s@ == rejoin(ls@.map_values(|v: Vec<char>| v@), keep_final),
{
    let nl = chars_of("\n");
    let mut out = join_chars(ls, nl.as_slice());
    if keep_final {
        crate::text::append_chars(&mut out, nl.as_slice());
    }
    string_of(out.as_slice())
}

fn ends_with_newline_chars(t: &[char]) -> (b: bool)
    ensures
        b == ends_with_newline(t@),
{
    t.len() > 0 && t[t.len() - 1] == '\n'
}

fn status_line_at(line: &[char]) -> (b: bool)
    ensures
        b == is_status_line()(line@),
{
    let ts = trim_start_chars(line, CharClass::Whitespace);
    let p = chars_of("status:");
    matches_at(ts.as_slice(), p.as_slice(), 0)
}

/// Rewrites the `status:` of the entry whose key has the given value, keeping
/// every other line (comments included) as it was.
pub fn rewrite_yaml_status(text: &str, key_field: &str, key_value: &str, new_status: &str) -> (r: Result<String, String>)
    requires
        4 * text@.len() <= usize::MAX,
    ensures
        match r {
            Ok(s) => rewrite_yaml_status_spec(text@, key_field@, key_value@, new_status@) == Ok::<
                Seq<char>,
                Seq<char>,
            >(s@),
            Err(e) => rewrite_yaml_status_spec(text@, key_field@, key_value@, new_status@) == Err::<
                Seq<char>,
                Seq<char>,
            >(e@),
        },
{
    let t = chars_of(text);
    let mut ls = lines_chars(t.as_slice());
    let ghost views = ls@.map_values(|v: Vec<char>| v@);
    let (a, b) = match find_yaml_list_item_range_chars(ls.as_slice(), key_field, key_value) {
        Some(range) => range,
        None => return Err(String::from_str("対象のエントリが見つかりませんでした。")),
    };
    let ghost status = is_status_line();
    proof {
        lemma_first_index(views, is_item_start(), a + 1);
        lemma_first_index(views.take(b as int), status, a as int);
    }
    let mut k: usize = a;
    while k < b && !status_line_at(ls[k].as_slice())
        invariant
            views == ls@.map_values(|v: Vec<char>| v@),
            status == is_status_line(),
            a <= k <= b <= ls@.len(),
            first_index(views.take(b as int), status, a as int) == first_index(
                views.take(b as int),
                status,
                k as int,
            ),
        decreases b - k,
    {
        assert(views.take(b as int)[k as int] == views[k as int]);
        k = k + 1;
    }
    if k == b {
        return Err(String::from_str("statusフィールドが見つかりませんでした。"));
    }
    assert(views.take(b as int)[k as int] == views[k as int]);
    assert(first_index(views.take(b as int), status, a as int) == k);
    proof {
        crate::text::lemma_lines_bounded(t@);
        assert(views[k as int].len() <= t@.len());
    }
    let line = &ls[k];
    let lead = crate::text::leading_in_class(line.as_slice(), CharClass::Whitespace);
    assert(indent_of(line@) =~= line@.subrange(0, lead as int));
    let indent = utf8_size_prefix(line.as_slice(), lead);
    let tail = literal_then("status: ", new_status);
    let new_line = spaces_then(indent, tail.as_slice());
    assert(new_line@ =~= rewritten_status_line(views[k as int], new_status@));
    ls.set(k, new_line);
    assert(ls@.map_values(|v: Vec<char>| v@) =~= views.update(
        k as int,
        rewritten_status_line(views[k as int], new_status@),
    ));
    Ok(rejoin_chars(ls.as_slice(), ends_with_newline_chars(t.as_slice())))
}

/// Removes the entry whose key has the given value (its lines up to the next
/// top-level list item), keeping every other line as it was.
pub fn remove_yaml_list_item(text: &str, key_field: &str, key_value: &str) -> (r: Result<String, String>)
    ensures
        match r {
            Ok(s) => remove_yaml_list_item_spec(text@, key_field@, key_value@) == Ok::<
                Seq<char>,
                Seq<char>,
            >(s@),
            Err(e) => remove_yaml_list_item_spec(text@, key_field@, key_value@) == Err::<
                Seq<char>,
                Seq<char>,
            >(e@),
        },
{
    let t = chars_of(text);
    let ls = lines_chars(t.as_slice());
    let ghost views = ls@.map_values(|v: Vec<char>| v@);
    let (a, b) = match find_yaml_list_item_range_chars(ls.as_slice(), key_field, key_value) {
        Some(range) => range,
        None => return Err(String::from_str("対象のエントリが見つかりませんでした。")),
    };
    proof {
        lemma_first_index(views, is_item_start(), a + 1);
    }
    let mut rest: Vec<Vec<char>> = Vec::new();
    let mut i: usize = 0;
    while i < a
        invariant
            views == ls@.map_values(|v: Vec<char>| v@),
            a <= b <= ls@.len(),
            i <= a,
            rest@.map_values(|v: Vec<char>| v@) == views.subrange(0, i as int),
        decreases a - i,
    {
        let ghost before = rest@.map_values(|v: Vec<char>| v@);
        rest.push(crate::text::sub_chars(ls[i].as_slice(), 0, ls[i].len()));
        assert(ls@[i as int]@.subrange(0, ls@[i as int]@.len() as int) =~= ls@[i as int]@);
        assert(rest@.map_values(|v: Vec<char>| v@) =~= before.push(views[i as int]));
        i = i + 1;
        assert(rest@.map_values(|v: Vec<char>| v@) =~= views.subrange(0, i as int));
    }
    let mut j: usize = b;
    while j < ls.len()
        invariant
            views == ls@.map_values(|v: Vec<char>| v@),
            a <= b <= j <= ls@.len(),
            rest@.map_values(|v: Vec<char>| v@) == views.subrange(0, a as int) + views.subrange(
                b as int,
                j as int,
            ),
        decreases ls@.len() - j,
    {
        let ghost before = rest@.map_values(|v: Vec<char>| v@);
        rest.push(crate::text::sub_chars(ls[j].as_slice(), 0, ls[j].len()));
        assert(ls@[j as int]@.subrange(0, ls@[j as int]@.len() as int) =~= ls@[j as int]@);
        assert(rest@.map_values(|v: Vec<char>| v@) =~= before.push(views[j as int]));
        j = j + 1;
        assert(rest@.map_values(|v: Vec<char>| v@) =~= views.subrange(0, a as int) + views.subrange(
            b as int,
            j as int,
        ));
    }
    let keep = rest.len() > 0 && ends_with_newline_chars(t.as_slice());
    Ok(rejoin_chars(rest.as_slice(), keep))
}

fn fence_at(line: &[char]) -> (b: bool)
    ensures
        b == is_fence()(line@),
{
    let t = trim_class_chars(line, CharClass::Whitespace);
    let f = chars_of("---");
    chars_eq(t.as_slice(), f.as_slice())
}

fn review_status_at(line: &[char]) -> (b: bool)
    ensures
        b == is_review_status_line()(line@),
{
    let p = chars_of("review_status:");
    matches_at(line, p.as_slice(), 0)
}

/// Sets `review_status` in an inbox note's frontmatter (see
/// `review_status_lines`), leaving the body as it was.
pub fn rewrite_inbox_review_status(text: &str, new_status: &str) -> (r: Result<String, String>)
    ensures
        match r {
            Ok(s) => rewrite_inbox_review_status_spec(text@, new_status@) == Ok::<
                Seq<char>,
                Seq<char>,
            >(s@),
            Err(e) => rewrite_inbox_review_status_spec(text@, new_status@) == Err::<
                Seq<char>,
                Seq<char>,
            >(e@),
        },
{
    let t = chars_of(text);
    let mut ls = lines_chars(t.as_slice());
    let ghost views = ls@.map_values(|v: Vec<char>| v@);
    if ls.len() == 0 || !fence_at(ls[0].as_slice()) {
        return Err(String::from_str("frontmatterが見つかりませんでした。"));
    }
    let ghost fence = is_fence();
    let mut c: usize = 1;
    while c < ls.len() && !fence_at(ls[c].as_slice())
        invariant
            views == ls@.map_values(|v: Vec<char>| v@),
            fence == is_fence(),
            1 <= c <= ls@.len(),
            first_index(views, fence, 1) == first_index(views, fence, c as int),
        decreases ls@.len() - c,
    {
        c = c + 1;
    }
    if c == ls.len() {
        return Err(String::from_str("frontmatterの終端が見つかりませんでした。"));
    }
    assert(first_index(views, fence, 1) == c);
    let ghost review = is_review_status_line();
    let mut k: usize = 1;
    while k < c && !review_status_at(ls[k].as_slice())
        invariant
            views == ls@.map_values(|v: Vec<char>| v@),
            review == is_review_status_line(),
            1 <= k <= c < ls@.len(),
            first_index(views.take(c as int), review, 1) == first_index(
                views.take(c as int),
                review,
                k as int,
            ),
        decreases c - k,
    {
        assert(views.take(c as int)[k as int] == views[k as int]);
        k = k + 1;
    }
    let new_line = literal_then("review_status: ", new_status);
    if k < c {
        assert(views.take(c as int)[k as int] == views[k as int]);
        assert(first_index(views.take(c as int), review, 1) == k);
        ls.set(k, new_line);
        assert(ls@.map_values(|v: Vec<char>| v@) =~= views.update(k as int, "review_status: "@ + new_status@));
    } else {
        assert(first_index(views.take(c as int), review, 1) == c);
        ls.insert(c, new_line);
        assert(ls@.map_values(|v: Vec<char>| v@) =~= views.insert(c as int, "review_status: "@ + new_status@));
    }
    Ok(rejoin_chars(ls.as_slice(), ends_with_newline_chars(t.as_slice())))
}

proof fn lemma_first_index_is(ls: Seq<Seq<char>>, p: spec_fn(Seq<char>) -> bool, from: int, x: int)
    requires
        0 <= from <= x < ls.len(),
        p(ls[x]),
        forall|j: int| from <= j < x ==> !p(#[trigger] ls[j]),
    ensures
        first_index(ls, p, from) == x,
    decreases x - from,
{
    if from < x {
        lemma_first_index_is(ls, p, from + 1, x);
    }
}

proof fn lemma_not_at_start(x: Seq<char>, p: Seq<char>)
    requires
        x.len() > 0,
        p.len() > 0,
        x[0] != p[0],
    ensures
        !occurs_at(x, p, 0),
{
    if occurs_at(x, p, 0) {
        assert(x.subrange(0, p.len() as int)[0] == x[0]);
    }
}

proof fn lemma_trim_start_spaces(n: nat, x: Seq<char>)
    ensures
        trim_start(spaces(n) + x) == trim_start(x),
    decreases n,
{
    if n > 0 {
        assert((spaces(n) + x)[0] == ' ');
        assert((spaces(n) + x).drop_first() =~= spaces((n - 1) as nat) + x);
        lemma_trim_start_spaces((n - 1) as nat, x);
    } else {
        assert(spaces(n) + x =~= x);
    }
}

proof fn lemma_utf8_size_spaces(n: nat)
    ensures
        utf8_size(spaces(n)) == n,
    decreases n,
{
    if n > 0 {
        assert(spaces(n).drop_last() =~= spaces((n - 1) as nat));
        lemma_utf8_size_spaces((n - 1) as nat);
    }
}

proof fn lemma_trim_start_keeps(x: Seq<char>)
    requires
        x.len() > 0,
        !crate::text::is_whitespace(x[0]),
    ensures
        trim_start(x) == x,
{
}

proof fn lemma_trim_end_prefix(x: Seq<char>, cls: CharClass)
    ensures
        crate::text::trim_end_class(x, cls).len() <= x.len(),
        crate::text::trim_end_class(x, cls) == x.subrange(0, crate::text::trim_end_class(x, cls).len() as int),
        x.len() > 0 && !crate::text::in_class(cls, x[0]) ==> crate::text::trim_end_class(x, cls).len() >= 1,
    decreases x.len(),
{
    if x.len() > 0 && crate::text::in_class(cls, x.last()) {
        lemma_trim_end_prefix(x.drop_last(), cls);
        let t = crate::text::trim_end_class(x.drop_last(), cls);
        assert(x.drop_last().subrange(0, t.len() as int) =~= x.subrange(0, t.len() as int));
        if x.len() > 1 {
            assert(x.drop_last()[0] == x[0]);
        }
    } else {
        assert(x.subrange(0, x.len() as int) =~= x);
    }
}

/// A line starting with `status:` (after its indentation) opens no entry and
/// no list item.
proof fn lemma_status_line_kind(line: Seq<char>, key_field: Seq<char>, key_value: Seq<char>)
    requires
        is_status_line()(line),
    ensures
        !is_entry_line(key_field, key_value)(line),
        !is_item_start()(line),
{
    reveal_strlit("status:");
    reveal_strlit("- ");
    let ts = trim_start(line);
    assert(ts.subrange(0, 7)[0] == ts[0]);
    assert(ts[0] == 's');
    lemma_not_at_start(ts, "- "@);
    let marker = "- "@ + key_field + ":"@;
    assert(marker[0] == '-');
    lemma_not_at_start(ts, marker);
}

/// Rewriting a status is idempotent: once the entry's status line has been
/// rewritten, rewriting it again to the same status changes nothing.
pub proof fn lemma_rewrite_status_idempotent(
    ls: Seq<Seq<char>>,
    key_field: Seq<char>,
    key_value: Seq<char>,
    new_status: Seq<char>,
)
    requires
        rewrite_status_lines(ls, key_field, key_value, new_status) is Ok,
    ensures
        ({
            let nl = rewrite_status_lines(ls, key_field, key_value, new_status)->Ok_0;
            rewrite_status_lines(nl, key_field, key_value, new_status) == Ok::<
                Seq<Seq<char>>,
                Seq<char>,
            >(nl)
        }),
{
    reveal_strlit("status: ");
    reveal_strlit("status:");
    let entry = is_entry_line(key_field, key_value);
    let item = is_item_start();
    let status = is_status_line();
    let a = first_index(ls, entry, 0);
    lemma_first_index(ls, entry, 0);
    let b = first_index(ls, item, a + 1);
    lemma_first_index(ls, item, a + 1);
    let k = first_index(ls.take(b), status, a);
    lemma_first_index(ls.take(b), status, a);
    assert(ls.take(b)[k] == ls[k]);
    let n = utf8_size(indent_of(ls[k]));
    let body = "status: "@ + new_status;
    let line = rewritten_status_line(ls[k], new_status);
    assert(line =~= spaces(n) + body);
    let nl = ls.update(k, line);
    // the rewritten line: trimmed it starts with `status:`, and its indentation is `n` spaces
    assert(body[0] == 's');
    lemma_trim_start_spaces(n, body);
    lemma_trim_start_keeps(body);
    assert(trim_start(line) == body);
    assert(body.subrange(0, 7) =~= "status:"@);
    assert(status(line));
    assert(indent_of(line) =~= spaces(n));
    lemma_utf8_size_spaces(n);
    assert(rewritten_status_line(line, new_status) =~= line);
    lemma_status_line_kind(ls[k], key_field, key_value);
    lemma_status_line_kind(line, key_field, key_value);
    assert forall|j: int| 0 <= j < ls.len() implies #[trigger] entry(ls[j]) == entry(nl[j]) by {
    }
    lemma_first_index_agree(ls, nl, entry, 0);
    assert forall|j: int| a + 1 <= j < ls.len() implies #[trigger] item(ls[j]) == item(nl[j]) by {
    }
    lemma_first_index_agree(ls, nl, item, a + 1);
    assert forall|j: int| a <= j < b implies #[trigger] status(ls.take(b)[j]) == status(nl.take(b)[j]) by {
        assert(ls.take(b)[j] == ls[j]);
        assert(nl.take(b)[j] == nl[j]);
    }
    lemma_first_index_agree(ls.take(b), nl.take(b), status, a);
    assert(nl.take(b)[k] == nl[k]);
    assert(nl.update(k, rewritten_status_line(nl[k], new_status)) =~= nl);
}

/// Rewriting a status touches one line at most, and only inside the target
/// entry: every line outside the entry's range stays as it was, and no two
/// lines change.
pub proof fn lemma_rewrite_status_only_target(
    ls: Seq<Seq<char>>,
    key_field: Seq<char>,
    key_value: Seq<char>,
    new_status: Seq<char>,
)
    requires
        rewrite_status_lines(ls, key_field, key_value, new_status) is Ok,
    ensures
        ({
            let nl = rewrite_status_lines(ls, key_field, key_value, new_status)->Ok_0;
            let (a, b) = yaml_item_range(ls, key_field, key_value)->Some_0;
            &&& nl.len() == ls.len()
            &&& forall|j: int| 0 <= j < ls.len() && !(a <= j < b) ==> nl[j] == ls[j]
            &&& forall|i: int, j: int|
                0 <= i < ls.len() && 0 <= j < ls.len() && nl[i] != ls[i] && nl[j] != ls[j] ==> i == j
        }),
{
    let entry = is_entry_line(key_field, key_value);
    let a = first_index(ls, entry, 0);
    lemma_first_index(ls, entry, 0);
    let b = first_index(ls, is_item_start(), a + 1);
    lemma_first_index(ls, is_item_start(), a + 1);
    let k = first_index(ls.take(b), is_status_line(), a);
    lemma_first_index(ls.take(b), is_status_line(), a);
    let nl = ls.update(k, rewritten_status_line(ls[k], new_status));
    assert(rewrite_status_lines(ls, key_field, key_value, new_status)->Ok_0 == nl);
    assert forall|i: int, j: int|
        0 <= i < ls.len() && 0 <= j < ls.len() && nl[i] != ls[i] && nl[j] != ls[j] implies i == j by {
        if i != k {
            assert(nl[i] == ls[i]);
        }
        if j != k {
            assert(nl[j] == ls[j]);
        }
    }
}

/// What removing an entry takes out is exactly that entry: the removed lines
/// start at the line that names it and run up to, not including, the next
/// top-level list item.
pub proof fn lemma_removed_lines_are_the_entry(ls: Seq<Seq<char>>, key_field: Seq<char>, key_value: Seq<char>)
    requires
        yaml_item_range(ls, key_field, key_value) is Some,
    ensures
        ({
            let (a, b) = yaml_item_range(ls, key_field, key_value)->Some_0;
            &&& 0 <= a < b <= ls.len()
            &&& is_entry_line(key_field, key_value)(ls[a])
            &&& forall|j: int| a < j < b ==> !is_item_start()(#[trigger] ls[j])
        }),
{
    let entry = is_entry_line(key_field, key_value);
    let a = first_index(ls, entry, 0);
    lemma_first_index(ls, entry, 0);
    lemma_first_index(ls, is_item_start(), a + 1);
}

/// Setting the review status leaves the body alone: the lines after the
/// closing fence come out unchanged and in order, and so does the first line.
pub proof fn lemma_review_status_keeps_body(ls: Seq<Seq<char>>, new_status: Seq<char>)
    requires
        review_status_lines(ls, new_status) is Ok,
    ensures
        ({
            let nl = review_status_lines(ls, new_status)->Ok_0;
            let c = first_index(ls, is_fence(), 1);
            &&& c < ls.len()
            &&& nl[0] == ls[0]
            &&& nl.len() >= ls.len()
            &&& nl.subrange(nl.len() - (ls.len() - (c + 1)), nl.len() as int) == ls.subrange(
                c + 1,
                ls.len() as int,
            )
        }),
{
    let fence = is_fence();
    let c = first_index(ls, fence, 1);
    lemma_first_index(ls, fence, 1);
    let k = first_index(ls.take(c), is_review_status_line(), 1);
    lemma_first_index(ls.take(c), is_review_status_line(), 1);
    let line = "review_status: "@ + new_status;
    let nl = review_status_lines(ls, new_status)->Ok_0;
    if k < c {
        assert(nl.subrange(nl.len() - (ls.len() - (c + 1)), nl.len() as int) =~= ls.subrange(
            c + 1,
            ls.len() as int,
        ));
    } else {
        ls.insert_ensures(c, line);
        assert(nl.subrange(nl.len() - (ls.len() - (c + 1)), nl.len() as int) =~= ls.subrange(
            c + 1,
            ls.len() as int,
        ));
    }
}

/// A line ending with a carriage return.
pub open spec fn ends_with_cr(l: Seq<char>) -> bool {
    l.len() > 0 && l.last() == '\r'
}

/// Every line of the text reads back as it was written: no line that a line
/// feed ends still ends with a carriage return (as a line ending in `\r\r\n`
/// would).
pub open spec fn lines_read_back(text: Seq<char>) -> bool {
    forall|i: int|
        0 <= i < lines(text).len() && (i + 1 < lines(text).len() || ends_with_newline(text))
            ==> !ends_with_cr(#[trigger] lines(text)[i])
}

/// Lines rejoined read back as the same lines, when every line but the last
/// is plain, the last holds no line feed, and it is plain when a final line
/// feed follows it and not empty when none does.
proof fn lemma_lines_of_rejoin(ls: Seq<Seq<char>>, keep_final: bool)
    requires
        forall|i: int| 0 <= i < ls.len() - 1 ==> plain_line(#[trigger] ls[i]),
        ls.len() >= 1 ==> forall|j: int| 0 <= j < ls.last().len() ==> ls.last()[j] != '\n',
        keep_final ==> ls.len() >= 1 && plain_line(ls.last()),
        !keep_final && ls.len() >= 1 ==> ls.last().len() > 0,
    ensures
        lines(rejoin(ls, keep_final)) == ls,
{
    reveal_strlit("\n");
    assert("\n"@ =~= seq!['\n']);
    if keep_final {
        assert forall|i: int| 0 <= i < ls.len() implies plain_line(#[trigger] ls[i]) by {
            if i == ls.len() - 1 {
                assert(ls[i] == ls.last());
            }
        }
        lemma_lines_of_joined_terminated(ls);
    } else {
        lemma_lines_of_joined(ls);
        assert(rejoin(ls, keep_final) =~= join_seq(ls, "\n"@));
    }
}

/// The lines of a text, where they read back as written, are plain: every
/// line but the last, and the last too when a line feed ends it.
proof fn lemma_read_back_plain(text: Seq<char>)
    requires
        lines_read_back(text),
    ensures
        forall|i: int|
            0 <= i < lines(text).len() && (i + 1 < lines(text).len() || ends_with_newline(text))
                ==> plain_line(#[trigger] lines(text)[i]),
        lines(text).len() >= 1 ==> forall|j: int| 0 <= j < lines(text).last().len() ==> lines(text).last()[j] != '\n',
        lines(text).len() >= 1 && !ends_with_newline(text) ==> lines(text).last().len() > 0,
{
    lemma_lines_shape(text);
    let ls = lines(text);
    assert forall|i: int| 0 <= i < ls.len() && (i + 1 < ls.len() || ends_with_newline(text)) implies plain_line(
        #[trigger] ls[i],
    ) by {
        assert(!ends_with_cr(ls[i]));
        assert forall|j: int| 0 <= j < ls[i].len() implies ls[i][j] != '\n' by {
            assert(ls[i][j] != '\n');
        }
    }
    if ls.len() >= 1 {
        assert forall|j: int| 0 <= j < ls.last().len() implies ls.last()[j] != '\n' by {
            assert(ls[ls.len() - 1][j] != '\n');
        }
    }
}

proof fn lemma_suffix_line_plain(prefix: Seq<char>, value: Seq<char>)
    requires
        prefix.len() > 0,
        plain_line(prefix),
        prefix.last() != '\r',
        plain_line(value),
    ensures
        plain_line(prefix + value),
        (prefix + value).len() > 0,
{
    let l = prefix + value;
    assert forall|j: int| 0 <= j < l.len() implies l[j] != '\n' by {
        if j < prefix.len() {
            assert(l[j] == prefix[j]);
        } else {
            assert(l[j] == value[j - prefix.len()]);
        }
    }
    if value.len() > 0 {
        assert(l.last() == value.last());
    } else {
        assert(l.last() == prefix.last());
    }
}

/// Read back line by line, a rewritten registry is the line-level rewrite:
/// when the text's lines read back as written and the status fits on one line
/// (no line feed, no final carriage return), the lines of the new text are the
/// old lines with the entry's status line rewritten.
pub proof fn lemma_rewrite_status_text(text: Seq<char>, key_field: Seq<char>, key_value: Seq<char>, new_status: Seq<char>)
    requires
        lines_read_back(text),
        plain_line(new_status),
        rewrite_yaml_status_spec(text, key_field, key_value, new_status) is Ok,
    ensures
        lines(rewrite_yaml_status_spec(text, key_field, key_value, new_status)->Ok_0)
            == rewrite_status_lines(lines(text), key_field, key_value, new_status)->Ok_0,
{
    reveal_strlit("status: ");
    let ls = lines(text);
    lemma_read_back_plain(text);
    let entry = is_entry_line(key_field, key_value);
    let a = first_index(ls, entry, 0);
    lemma_first_index(ls, entry, 0);
    let b = first_index(ls, is_item_start(), a + 1);
    lemma_first_index(ls, is_item_start(), a + 1);
    let k = first_index(ls.take(b), is_status_line(), a);
    lemma_first_index(ls.take(b), is_status_line(), a);
    let n = utf8_size(indent_of(ls[k]));
    let prefix = spaces(n) + "status: "@;
    assert(prefix.last() == ' ');
    assert(plain_line(prefix)) by {
        assert forall|j: int| 0 <= j < prefix.len() implies prefix[j] != '\n' by {
            if j >= n {
                assert(prefix[j] == "status: "@[j - n]);
            }
        }
    }
    lemma_suffix_line_plain(prefix, new_status);
    let line = rewritten_status_line(ls[k], new_status);
    assert(line =~= prefix + new_status);
    let nl = ls.update(k, line);
    let keep = ends_with_newline(text);
    assert forall|i: int| 0 <= i < nl.len() - 1 implies plain_line(#[trigger] nl[i]) by {
        if i != k {
            assert(nl[i] == ls[i]);
        }
    }
    if k == nl.len() - 1 {
        assert(nl.last() == line);
    } else {
        assert(nl.last() == ls.last());
        assert(ls.last() == ls[ls.len() - 1]);
    }
    lemma_lines_of_rejoin(nl, keep);
}

/// Rewriting a registry entry's status keeps the rest of the file: when the
/// text's lines read back as written and the status fits on one line, the new
/// text has as many lines as the old, every line outside the entry is the
/// same, and at most one line differs.
pub proof fn lemma_rewrite_status_keeps_other_lines(
    text: Seq<char>,
    key_field: Seq<char>,
    key_value: Seq<char>,
    new_status: Seq<char>,
)
    requires
        lines_read_back(text),
        plain_line(new_status),
        rewrite_yaml_status_spec(text, key_field, key_value, new_status) is Ok,
    ensures
        ({
            let old_lines = lines(text);
            let new_lines = lines(rewrite_yaml_status_spec(text, key_field, key_value, new_status)->Ok_0);
            let (a, b) = yaml_item_range(old_lines, key_field, key_value)->Some_0;
            &&& new_lines.len() == old_lines.len()
            &&& forall|j: int| 0 <= j < old_lines.len() && !(a <= j < b) ==> new_lines[j] == old_lines[j]
            &&& forall|i: int, j: int|
                0 <= i < old_lines.len() && 0 <= j < old_lines.len() && new_lines[i] != old_lines[i]
                    && new_lines[j] != old_lines[j] ==> i == j
        }),
{
    lemma_rewrite_status_text(text, key_field, key_value, new_status);
    lemma_rewrite_status_only_target(lines(text), key_field, key_value, new_status);
}

/// Read back line by line, an inbox note with its review status set is the
/// line-level edit: when the text's lines read back as written and the status
/// fits on one line, the lines of the new text are exactly those of
/// `review_status_lines`, so the body comes back unchanged (see
/// `lemma_review_status_keeps_body`).
pub proof fn lemma_review_status_text(text: Seq<char>, new_status: Seq<char>)
    requires
        lines_read_back(text),
        plain_line(new_status),
        rewrite_inbox_review_status_spec(text, new_status) is Ok,
    ensures
        lines(rewrite_inbox_review_status_spec(text, new_status)->Ok_0) == review_status_lines(
            lines(text),
            new_status,
        )->Ok_0,
{
    reveal_strlit("review_status: ");
    let ls = lines(text);
    lemma_read_back_plain(text);
    let fence = is_fence();
    let c = first_index(ls, fence, 1);
    lemma_first_index(ls, fence, 1);
    let k = first_index(ls.take(c), is_review_status_line(), 1);
    lemma_first_index(ls.take(c), is_review_status_line(), 1);
    let prefix = "review_status: "@;
    assert(prefix.last() == ' ');
    assert(plain_line(prefix));
    lemma_suffix_line_plain(prefix, new_status);
    let line = prefix + new_status;
    let nl = review_status_lines(ls, new_status)->Ok_0;
    assert(ls.last() == ls[ls.len() - 1]);
    if k < c {
        assert(nl == ls.update(k, line));
        assert forall|i: int| 0 <= i < nl.len() - 1 implies plain_line(#[trigger] nl[i]) by {
            if i != k {
                assert(nl[i] == ls[i]);
            }
        }
        assert(nl.last() == ls.last());
    } else {
        assert(nl == ls.insert(c, line));
        ls.insert_ensures(c, line);
        assert forall|i: int| 0 <= i < nl.len() - 1 implies plain_line(#[trigger] nl[i]) by {
            if i < c {
                assert(nl[i] == ls[i]);
            } else if i > c {
                assert(nl[i] == ls[i - 1]);
            }
        }
        assert(nl.last() == ls.last());
    }
    lemma_lines_of_rejoin(nl, ends_with_newline(text));
}

/// Read back line by line, a registry with an entry removed has exactly the
/// other lines, in order: the entry's lines `[start, end)` are gone (see
/// `lemma_removed_lines_are_the_entry`). This needs the text's lines to read
/// back as written, and, when the entry is the end of a text without a final
/// line feed, the line before it not to be empty (it would become the
/// unterminated last line and vanish).
pub proof fn lemma_remove_text(text: Seq<char>, key_field: Seq<char>, key_value: Seq<char>)
    requires
        lines_read_back(text),
        remove_yaml_list_item_spec(text, key_field, key_value) is Ok,
        ({
            let ls = lines(text);
            let (a, b) = yaml_item_range(ls, key_field, key_value)->Some_0;
            ends_with_newline(text) || b < ls.len() || a == 0 || ls[a - 1].len() > 0
        }),
    ensures
        ({
            let ls = lines(text);
            let (a, b) = yaml_item_range(ls, key_field, key_value)->Some_0;
            lines(remove_yaml_list_item_spec(text, key_field, key_value)->Ok_0) == ls.subrange(0, a)
                + ls.subrange(b, ls.len() as int)
        }),
{
    let ls = lines(text);
    lemma_read_back_plain(text);
    let entry = is_entry_line(key_field, key_value);
    let a = first_index(ls, entry, 0);
    lemma_first_index(ls, entry, 0);
    let b = first_index(ls, is_item_start(), a + 1);
    lemma_first_index(ls, is_item_start(), a + 1);
    let rest = ls.subrange(0, a) + ls.subrange(b, ls.len() as int);
    let keep = rest.len() > 0 && ends_with_newline(text);
    assert(ls.last() == ls[ls.len() - 1]);
    if rest.len() == 0 {
        assert(rejoin(rest, false) =~= Seq::<char>::empty());
        assert(lines(Seq::<char>::empty()) =~= Seq::<Seq<char>>::empty());
    } else {
        assert forall|i: int| 0 <= i < rest.len() - 1 implies plain_line(#[trigger] rest[i]) by {
            if i < a {
                assert(rest[i] == ls[i]);
            } else {
                assert(rest[i] == ls[b + i - a]);
            }
        }
        if b < ls.len() {
            assert(rest.last() == ls.last());
        } else {
            assert(rest.last() == ls[a - 1]);
            assert(plain_line(ls[a - 1]));
        }
        lemma_lines_of_rejoin(rest, keep);
    }
}

proof fn lemma_review_line_not_fence(line: Seq<char>)
    requires
        line.len() > 0,
        line[0] == 'r',
    ensures
        !is_fence()(line),
{
    reveal_strlit("---");
    lemma_trim_start_keeps(line);
    lemma_trim_end_prefix(line, CharClass::Whitespace);
    let t = trim(line);
    assert(t[0] == 'r');
    assert("---"@[0] == '-');
}

/// Setting the review status is idempotent: doing it twice with the same status
/// gives what doing it once gives (the second time replaces the line the first
/// time wrote or inserted, with the same text).
pub proof fn lemma_review_status_idempotent(ls: Seq<Seq<char>>, new_status: Seq<char>)
    requires
        review_status_lines(ls, new_status) is Ok,
    ensures
        ({
            let nl = review_status_lines(ls, new_status)->Ok_0;
            review_status_lines(nl, new_status) == Ok::<Seq<Seq<char>>, Seq<char>>(nl)
        }),
{
    reveal_strlit("review_status: ");
    reveal_strlit("review_status:");
    let fence = is_fence();
    let review = is_review_status_line();
    let c = first_index(ls, fence, 1);
    lemma_first_index(ls, fence, 1);
    let k = first_index(ls.take(c), review, 1);
    lemma_first_index(ls.take(c), review, 1);
    let line = "review_status: "@ + new_status;
    assert(line[0] == 'r');
    assert(line.subrange(0, 14) =~= "review_status:"@);
    assert(review(line));
    lemma_review_line_not_fence(line);
    if k < c {
        let nl = ls.update(k, line);
        assert(ls.take(c)[k] == ls[k]);
        assert(ls[k].subrange(0, 14)[0] == ls[k][0]);
        lemma_review_line_not_fence(ls[k]);
        assert forall|j: int| 1 <= j < ls.len() implies #[trigger] fence(ls[j]) == fence(nl[j]) by {
        }
        lemma_first_index_agree(ls, nl, fence, 1);
        assert forall|j: int| 1 <= j < c implies #[trigger] review(ls.take(c)[j]) == review(nl.take(c)[j]) by {
            assert(ls.take(c)[j] == ls[j]);
            assert(nl.take(c)[j] == nl[j]);
        }
        lemma_first_index_agree(ls.take(c), nl.take(c), review, 1);
        assert(nl.take(c)[k] == nl[k]);
        assert(nl.update(k, line) =~= nl);
    } else {
        let nl = ls.insert(c, line);
        ls.insert_ensures(c, line);
        assert forall|j: int| 1 <= j < c + 1 implies !fence(#[trigger] nl[j]) by {
            if j < c {
                assert(nl[j] == ls[j]);
            }
        }
        assert(nl[c + 1] == ls[c]);
        lemma_first_index_is(nl, fence, 1, c + 1);
        assert forall|j: int| 1 <= j < c implies !review(#[trigger] nl.take(c + 1)[j]) by {
            assert(nl.take(c + 1)[j] == ls[j]);
            assert(ls.take(c)[j] == ls[j]);
        }
        assert(nl.take(c + 1)[c] == line);
        lemma_first_index_is(nl.take(c + 1), review, 1, c);
        assert(nl.update(c, line) =~= nl);
    }
}

} // verus!
