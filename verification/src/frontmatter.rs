//! Frontmatter: finding the YAML block at the head of a note, and the
//! defaults of the fields a note may leave out.
use vstd::prelude::*;

use crate::text::{
    chars_of, contains_seq, find, is_first_occurrence, lemma_first_occurrence_unique, string_of,
    strip_prefix, strip_prefix_chars, sub_chars, trim_start_chars, trim_start_class, CharClass,
};

verus! {

/// Why no frontmatter could be split off.
#[derive(Clone, Copy, PartialEq, Eq, Structural, Debug)]
pub enum FrontmatterError {
    /// The note does not start with a `---` line.
    MissingOpening,
    /// No `---` line closes the block.
    MissingClosing,
}

impl FrontmatterError {
    /// The message shown for the error.
    pub fn message(&self) -> (s: String)
        ensures
            *self == FrontmatterError::MissingOpening ==> s@ == "frontmatter(先頭の---)が見つかりません"@,
            *self == FrontmatterError::MissingClosing ==> s@ == "frontmatterの終端(---)が見つかりません"@,
    {
        match self {
            FrontmatterError::MissingOpening => String::from_str("frontmatter(先頭の---)が見つかりません"),
            FrontmatterError::MissingClosing => String::from_str("frontmatterの終端(---)が見つかりません"),
        }
    }
}

/// The text without one leading byte-order mark.
pub open spec fn without_bom(c: Seq<char>) -> Seq<char> {
    if c.len() > 0 && c[0] == '\u{feff}' {
        c.drop_first()
    } else {
        c
    }
}

/// What follows the opening `---` line (`---\r\n` or `---\n`).
pub open spec fn after_opening(c: Seq<char>) -> Option<Seq<char>> {
    match strip_prefix(without_bom(c), "---\r\n"@) {
        Some(r) => Some(r),
        None => strip_prefix(without_bom(c), "---\n"@),
    }
}

/// The body after the closing `---`, without the line feed (or CR LF) that ends it.
pub open spec fn body_after(after: Seq<char>) -> Seq<char> {
    match strip_prefix(after, "\r\n"@) {
        Some(b) => b,
        None => match strip_prefix(after, "\n"@) {
            Some(b) => b,
            None => after,
        },
    }
}

/// A note split into (YAML block, body): the block runs from after the opening
/// `---` line up to the first `\n---`; the body starts after that `---` and its
/// line ending.
pub open spec fn split_frontmatter_spec(c: Seq<char>) -> Result<(Seq<char>, Seq<char>), FrontmatterError> {
    match after_opening(c) {
        None => Err(FrontmatterError::MissingOpening),
        Some(rest) => if contains_seq(rest, "\n---"@) {
            let e = choose|e: int| is_first_occurrence(rest, "\n---"@, e);
            Ok((rest.subrange(0, e), body_after(rest.subrange(e + 4, rest.len() as int))))
        } else {
            Err(FrontmatterError::MissingClosing)
        },
    }
}

fn strip_one_bom(c: &[char]) -> (v: Vec<char>)
    ensures
        v@ == without_bom(c@),
{
    if c.len() > 0 && c[0] == '\u{feff}' {
        sub_chars(c, 1, c.len())
    } else {
        sub_chars(c, 0, c.len())
    }
}

/// Splits a note into its frontmatter YAML block and its body.
pub fn split_frontmatter(content: &str) -> (r: Result<(String, String), FrontmatterError>)
    ensures
        match r {
            Ok((y, b)) => split_frontmatter_spec(content@) == Ok::<
                (Seq<char>, Seq<char>),
                FrontmatterError,
            >((y@, b@)),
            Err(e) => split_frontmatter_spec(content@) == Err::<
                (Seq<char>, Seq<char>),
                FrontmatterError,
            >(e),
        },
{
    let c = chars_of(content);
    let c = strip_one_bom(c.as_slice());
    let crlf = chars_of("---\r\n");
    let lf = chars_of("---\n");
    let rest = match strip_prefix_chars(c.as_slice(), crlf.as_slice()) {
        Some(r) => r,
        None => match strip_prefix_chars(c.as_slice(), lf.as_slice()) {
            Some(r) => r,
            None => return Err(FrontmatterError::MissingOpening),
        },
    };
    let close = chars_of("\n---");
    proof {
        reveal_strlit("\n---");
    }
    let e = match find(rest.as_slice(), close.as_slice()) {
        Some(e) => e,
        None => return Err(FrontmatterError::MissingClosing),
    };
    proof {
        let j = choose|j: int| is_first_occurrence(rest@, "\n---"@, j);
        lemma_first_occurrence_unique(rest@, "\n---"@, e as int, j);
    }
    let n = rest.len();
    assert(e + 4 <= n);
    let yaml = sub_chars(rest.as_slice(), 0, e);
    let after = sub_chars(rest.as_slice(), e + 4, n);
    let crlf2 = chars_of("\r\n");
    let lf2 = chars_of("\n");
    let body = match strip_prefix_chars(after.as_slice(), crlf2.as_slice()) {
        Some(b) => b,
        None => match strip_prefix_chars(after.as_slice(), lf2.as_slice()) {
            Some(b) => b,
            None => after,
        },
    };
    Ok((string_of(yaml.as_slice()), string_of(body.as_slice())))
}

/// The frontmatter YAML block of a library document shown in the reader.
pub fn display_frontmatter_block(content: &str) -> (r: Result<String, FrontmatterError>)
    ensures
        match r {
            Ok(y) => split_frontmatter_spec(content@) matches Ok((yy, _)) && yy == y@,
            Err(e) => split_frontmatter_spec(content@) == Err::<(Seq<char>, Seq<char>), FrontmatterError>(
                e,
            ),
        },
{
    match split_frontmatter(content) {
        Ok((y, _)) => Ok(y),
        Err(e) => Err(e),
    }
}

/// The YAML block of an inbox note: all leading byte-order marks dropped, then
/// the text after a leading `---` up to the first `\n---`; `None` when either
/// is missing.
pub open spec fn inbox_frontmatter_spec(c: Seq<char>) -> Option<Seq<char>> {
    let t = trim_start_class(c, CharClass::Exactly('\u{feff}'));
    match strip_prefix(t, "---"@) {
        None => None,
        Some(after) => if contains_seq(after, "\n---"@) {
            Some(after.subrange(0, choose|e: int| is_first_occurrence(after, "\n---"@, e)))
        } else {
            None
        },
    }
}

/// The YAML block of an inbox note (see `inbox_frontmatter_spec`).
pub fn inbox_frontmatter_block(content: &str) -> (r: Option<String>)
    ensures
        match r {
            Some(y) => inbox_frontmatter_spec(content@) == Some(y@),
            None => inbox_frontmatter_spec(content@) is None,
        },
{
    let c = chars_of(content);
    let t = trim_start_chars(c.as_slice(), CharClass::Exactly('\u{feff}'));
    let fence = chars_of("---");
    let after = match strip_prefix_chars(t.as_slice(), fence.as_slice()) {
        Some(a) => a,
        None => return None,
    };
    let close = chars_of("\n---");
    match find(after.as_slice(), close.as_slice()) {
        Some(e) => {
            proof {
                let j = choose|j: int| is_first_occurrence(after@, "\n---"@, j);
                lemma_first_occurrence_unique(after@, "\n---"@, e as int, j);
            }
            Some(string_of(sub_chars(after.as_slice(), 0, e).as_slice()))
        },
        None => None,
    }
}

/// Documents are indexed for search unless the frontmatter says otherwise.
pub fn default_index() -> (b: bool)
    ensures
        b,
{
    true
}

/// A document's status when the frontmatter gives none.
pub fn default_status() -> (s: String)
    ensures
        s@ == "new"@,
{
    String::from_str("new")
}

/// The reader's default for `index`.
pub fn default_display_index() -> (b: bool)
    ensures
        b,
{
    true
}

/// The reader's default for `status`.
pub fn default_display_status() -> (s: String)
    ensures
        s@ == "new"@,
{
    String::from_str("new")
}

/// The frontmatter fields of a document shown in the reader.
pub struct SourceFrontmatterDto {
    pub title: Option<String>,
    pub kind: Option<String>,
    pub tags: Vec<String>,
    pub project: Option<String>,
    pub summary: Option<String>,
    pub index: bool,
    pub status: String,
    pub related: Vec<String>,
}

} // verus!
