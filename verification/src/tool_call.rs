//! Tool calls: recovering a call that the model wrote into its reply instead
//! of issuing it, and dispatching a call to a tool.
//!
//! Tool arguments travel as JSON text (serde_json's compact serialisation of
//! the arguments object).
use vstd::prelude::*;

use crate::text::{
    join_seq, join_strings, strings_view, chars_of, find_char_from, index_of_from, lemma_index_of_from, strip_prefix, strip_prefix_chars,
    string_of, sub_chars, trim, trim_class_chars, trim_start, trim_start_chars, CharClass,
};

verus! {

/// One member of a JSON object as the library reads it: its key, the compact
/// JSON text of its value, and the value itself when it is a string.
pub struct JsonMember {
    pub key: String,
    pub text: String,
    pub str_value: Option<String>,
}

/// A JSON document as the library reads it: its compact JSON text and, when
/// it is an object, its members in the order serde_json keeps them.
pub struct JsonDoc {
    pub text: String,
    pub members: Vec<JsonMember>,
}

/// The plain view of a member.
pub open spec fn member_view(m: JsonMember) -> (Seq<char>, Seq<char>, Option<Seq<char>>) {
    (
        m.key@,
        m.text@,
        match m.str_value {
            Some(s) => Some(s@),
            None => None,
        },
    )
}

/// The plain view of a document.
pub open spec fn doc_view(d: JsonDoc) -> (Seq<char>, Seq<(Seq<char>, Seq<char>, Option<Seq<char>>)>) {
    (d.text@, d.members@.map_values(|m: JsonMember| member_view(m)))
}

/// What `serde_json::from_str::<serde_json::Value>` makes of a text, read as
/// plain values: `None` when the text is not JSON; otherwise the value's
/// compact serialisation (`Value::to_string`) and, for an object, each member
/// as (key, compact serialisation of its value, the value when it is a
/// string), in the order of the object's map.
pub uninterp spec fn json_doc(text: Seq<char>) -> Option<(Seq<char>, Seq<(Seq<char>, Seq<char>, Option<Seq<char>>)>)>;

/// Parses a text with `serde_json::from_str::<serde_json::Value>` and reads
/// the value out as plain values (see `json_doc`). The contract claims only
/// that the result is the named function of the text.
#[verifier::external_body]
fn parse_json(text: &str) -> (r: Option<JsonDoc>)
    ensures
        match r {
            Some(d) => json_doc(text@) == Some(doc_view(d)),
            None => json_doc(text@) is None,
        },
{
    let v = serde_json::from_str::<serde_json::Value>(text).ok()?;
    let members = match v.as_object() {
        Some(m) => m.iter().map(|(k, x)| JsonMember { key: k.clone(), text: x.to_string(), str_value: x.as_str().map(|s| s.to_string()) }).collect(),
        None => Vec::new(),
    };
    Some(JsonDoc { text: v.to_string(), members })
}

/// The first member with the given key, as (value text, string value).
pub open spec fn member_of(ms: Seq<(Seq<char>, Seq<char>, Option<Seq<char>>)>, key: Seq<char>) -> Option<(Seq<char>, Option<Seq<char>>)>
    decreases ms.len(),
{
    if ms.len() == 0 {
        None
    } else if ms[0].0 == key {
        Some((ms[0].1, ms[0].2))
    } else {
        member_of(ms.drop_first(), key)
    }
}

/// The compact JSON text of a text, or `None` when it is not JSON.
pub open spec fn json_canonical_text(text: Seq<char>) -> Option<Seq<char>> {
    match json_doc(text) {
        Some(d) => Some(d.0),
        None => None,
    }
}

/// The string member `key` of a JSON object text: `None` when the text is not
/// JSON, has no such member, or the member is not a string.
pub open spec fn json_member_str(text: Seq<char>, key: Seq<char>) -> Option<Seq<char>> {
    match json_doc(text) {
        Some(d) => match member_of(d.1, key) {
            Some(m) => m.1,
            None => None,
        },
        None => None,
    }
}

/// The compact JSON text of member `key` of a JSON object text: `None` when the
/// text is not JSON or has no such member.
pub open spec fn json_member_text(text: Seq<char>, key: Seq<char>) -> Option<Seq<char>> {
    match json_doc(text) {
        Some(d) => match member_of(d.1, key) {
            Some(m) => Some(m.0),
            None => None,
        },
        None => None,
    }
}

/// The first member of the document with the given key.
fn lookup<'a>(doc: &'a JsonDoc, key: &str) -> (r: Option<&'a JsonMember>)
    ensures
        match r {
            Some(m) => member_of(doc_view(*doc).1, key@) == Some((member_view(*m).1, member_view(*m).2)),
            None => member_of(doc_view(*doc).1, key@) is None,
        },
{
    let ghost ms = doc_view(*doc).1;
    let mut i: usize = 0;
    assert(ms.subrange(0, ms.len() as int) =~= ms);
    while i < doc.members.len()
        invariant
            ms == doc_view(*doc).1,
            ms.len() == doc.members@.len(),
            i <= ms.len(),
            member_of(ms, key@) == member_of(ms.subrange(i as int, ms.len() as int), key@),
        decreases ms.len() - i,
    {
        assert(ms.subrange(i as int, ms.len() as int).drop_first() =~= ms.subrange(i + 1, ms.len() as int));
        assert(ms[i as int] == member_view(doc.members@[i as int]));
        if crate::text::str_eq(doc.members[i].key.as_str(), key) {
            return Some(&doc.members[i]);
        }
        i = i + 1;
    }
    None
}

/// The string member `key` of a JSON object text (see `json_member_str`).
fn json_str_member(text: &str, key: &str) -> (r: Option<String>)
    ensures
        match r {
            Some(s) => json_member_str(text@, key@) == Some(s@),
            None => json_member_str(text@, key@) is None,
        },
{
    let doc = parse_json(text)?;
    match lookup(&doc, key) {
        Some(m) => match &m.str_value {
            Some(s) => Some(s.clone()),
            None => None,
        },
        None => None,
    }
}

/// The compact JSON text of member `key` (see `json_member_text`).
fn json_member_canonical(text: &str, key: &str) -> (r: Option<String>)
    ensures
        match r {
            Some(s) => json_member_text(text@, key@) == Some(s@),
            None => json_member_text(text@, key@) is None,
        },
{
    let doc = parse_json(text)?;
    match lookup(&doc, key) {
        Some(m) => Some(m.text.clone()),
        None => None,
    }
}

/// The compact JSON text of a text (see `json_canonical_text`).
fn json_canonical(text: &str) -> (r: Option<String>)
    ensures
        match r {
            Some(s) => json_canonical_text(text@) == Some(s@),
            None => json_canonical_text(text@) is None,
        },
{
    match parse_json(text) {
        Some(d) => Some(d.text),
        None => None,
    }
}

/// The name of the only tool the model is offered.
pub const SEARCH_KNOWLEDGE: &'static str = "search_knowledge";

/// A tool name the model is offered.
pub open spec fn known_tool(name: Seq<char>) -> bool {
    name == SEARCH_KNOWLEDGE@
}

/// The last position before `end` that holds `c`, or `-1` (`str::rfind`).
pub open spec fn last_index_before(s: Seq<char>, c: char, end: int) -> int
    decreases end,
{
    if end <= 0 {
        -1
    } else if s[end - 1] == c {
        end - 1
    } else {
        last_index_before(s, c, end - 1)
    }
}

/// The span from the first `{` to the last `}`, when both exist in that order.
pub open spec fn brace_span(s: Seq<char>) -> Option<(int, int)> {
    let a = index_of_from(s, '{', 0);
    let b = last_index_before(s, '}', s.len() as int);
    if a < s.len() && b >= 0 && b >= a {
        Some((a, b))
    } else {
        None
    }
}

/// The first leak form: the reply starts with the tool's name, then (after
/// optional spaces and an optional `(`) the JSON arguments between the first `{`
/// and the last `}`.
pub open spec fn leaked_by_name(t: Seq<char>) -> Option<(Seq<char>, Seq<char>)> {
    match strip_prefix(t, SEARCH_KNOWLEDGE@) {
        None => None,
        Some(rest0) => {
            let ts = trim_start(rest0);
            let rest = match strip_prefix(ts, "("@) {
                Some(r) => r,
                None => ts,
            };
            match brace_span(rest) {
                None => None,
                Some((a, b)) => match json_canonical_text(rest.subrange(a, b + 1)) {
                    Some(args) => Some((SEARCH_KNOWLEDGE@, args)),
                    None => None,
                },
            }
        },
    }
}

/// The second leak form: a whole `{"name": ..., "arguments": ...}` object
/// between the first `{` and the last `}` of the reply, whatever surrounds it.
pub open spec fn leaked_as_object(t: Seq<char>) -> Option<(Seq<char>, Seq<char>)> {
    match brace_span(t) {
        None => None,
        Some((a, b)) => {
            let cand = t.subrange(a, b + 1);
            match json_member_str(cand, "name"@) {
                None => None,
                Some(name) => if !known_tool(name) {
                    None
                } else {
                    match json_member_text(cand, "arguments"@) {
                        None => None,
                        Some(args) => Some((name, args)),
                    }
                },
            }
        },
    }
}

/// The tool call leaked into a reply, as (tool name, arguments JSON text): the
/// first form is tried on the trimmed reply, then the second.
pub open spec fn leaked_tool_call(content: Seq<char>) -> Option<(Seq<char>, Seq<char>)> {
    let t = trim(content);
    match leaked_by_name(t) {
        Some(x) => Some(x),
        None => leaked_as_object(t),
    }
}

proof fn lemma_last_index_before(s: Seq<char>, c: char, end: int)
    requires
        0 <= end <= s.len(),
    ensures
        -1 <= last_index_before(s, c, end) < end,
        last_index_before(s, c, end) >= 0 ==> s[last_index_before(s, c, end)] == c,
    decreases end,
{
    if end > 0 && s[end - 1] != c {
        lemma_last_index_before(s, c, end - 1);
    }
}

/// `str::rfind` for a character.
fn rfind_char(s: &[char], c: char) -> (r: Option<usize>)
    ensures
        match r {
            Some(i) => i as int == last_index_before(s@, c, s@.len() as int),
            None => last_index_before(s@, c, s@.len() as int) == -1,
        },
{
    let mut j: usize = s.len();
    while j > 0
        invariant
            j <= s@.len(),
            last_index_before(s@, c, s@.len() as int) == last_index_before(s@, c, j as int),
        decreases j,
    {
        if s[j - 1] == c {
            return Some(j - 1);
        }
        j = j - 1;
    }
    None
}

/// The span from the first `{` to the last `}`.
fn find_brace_span(s: &[char]) -> (r: Option<(usize, usize)>)
    ensures
        match r {
            Some((a, b)) => brace_span(s@) == Some((a as int, b as int)) && b < s@.len(),
            None => brace_span(s@) is None,
        },
{
    proof {
        lemma_index_of_from(s@, '{', 0);
        lemma_last_index_before(s@, '}', s@.len() as int);
    }
    let a = match find_char_from(s, '{', 0) {
        Some(a) => {
            assert(a as int == index_of_from(s@, '{', 0)) by {
                if (a as int) < index_of_from(s@, '{', 0) {
                } else if (a as int) > index_of_from(s@, '{', 0) {
                }
            }
            a
        },
        None => {
            assert(index_of_from(s@, '{', 0) == s@.len()) by {
                if index_of_from(s@, '{', 0) < s@.len() {
                }
            }
            return None;
        },
    };
    let b = match rfind_char(s, '}') {
        Some(b) => b,
        None => return None,
    };
    if b < a {
        return None;
    }
    Some((a, b))
}

/// Detects a tool call that the model wrote into its reply as plain text, in
/// either of the two observed forms, and returns the tool name and its
/// arguments as JSON text; `None` when the reply holds no such call.
pub fn parse_leaked_tool_call(content: &str) -> (r: Option<(String, String)>)
    ensures
        match r {
            Some((name, args)) => leaked_tool_call(content@) == Some((name@, args@)),
            None => leaked_tool_call(content@) is None,
        },
{
    let c = chars_of(content);
    let t = trim_class_chars(c.as_slice(), CharClass::Whitespace);
    let name = chars_of(SEARCH_KNOWLEDGE);
    if let Some(rest0) = strip_prefix_chars(t.as_slice(), name.as_slice()) {
        let ts = trim_start_chars(rest0.as_slice(), CharClass::Whitespace);
        let open = chars_of("(");
        let rest = match strip_prefix_chars(ts.as_slice(), open.as_slice()) {
            Some(r) => r,
            None => ts,
        };
        if let Some((a, b)) = find_brace_span(rest.as_slice()) {
            let rn = rest.len();
            assert(b < rn);
            let json = string_of(sub_chars(rest.as_slice(), a, b + 1).as_slice());
            if let Some(args) = json_canonical(json.as_str()) {
                return Some((SEARCH_KNOWLEDGE.to_string(), args));
            }
        }
    }
    let (a, b) = match find_brace_span(t.as_slice()) {
        Some(span) => span,
        None => return None,
    };
    let tn = t.len();
    assert(b < tn);
    let cand = string_of(sub_chars(t.as_slice(), a, b + 1).as_slice());
    let found = match json_str_member(cand.as_str(), "name") {
        Some(n) => n,
        None => return None,
    };
    let found_chars = chars_of(found.as_str());
    if !(found_chars.len() == name.len() && crate::text::matches_at(found_chars.as_slice(), name.as_slice(), 0)) {
        assert(!known_tool(found@)) by {
            if known_tool(found@) {
                assert(found_chars@.subrange(0, name@.len() as int) =~= found_chars@);
            }
        }
        return None;
    }
    assert(found_chars@.subrange(0, name@.len() as int) =~= found_chars@);
    match json_member_canonical(cand.as_str(), "arguments") {
        Some(args) => Some((found, args)),
        None => None,
    }
}

/// The tool a call names, with the search query taken from its arguments (the
/// empty query when there is none); an unknown tool is an error naming it.
pub fn tool_query(name: &str, args: &str) -> (r: Result<String, String>)
    ensures
        known_tool(name@) ==> (r matches Ok(q) && q@ == (match json_member_str(args@, "query"@) {
            Some(s) => s,
            None => Seq::<char>::empty(),
        })),
        !known_tool(name@) ==> (r matches Err(e) && e@ == "未知のツール: "@ + name@),
{
    let n = chars_of(name);
    let k = chars_of(SEARCH_KNOWLEDGE);
    if n.len() == k.len() && crate::text::matches_at(n.as_slice(), k.as_slice(), 0) {
        assert(n@.subrange(0, k@.len() as int) =~= n@);
        match json_str_member(args, "query") {
            Some(q) => Ok(q),
            None => Ok(String::new()),
        }
    } else {
        assert(!known_tool(name@)) by {
            if known_tool(name@) {
                assert(n@.subrange(0, k@.len() as int) =~= n@);
            }
        }
        let mut e = String::from_str("未知のツール: ");
        e.append(name);
        Err(e)
    }
}

/// The compact JSON texts of the tool definition files, in order (meaningful
/// where every file is JSON).
pub open spec fn definition_texts(texts: Seq<Seq<char>>) -> Seq<Seq<char>> {
    Seq::new(texts.len(), |j: int| json_canonical_text(texts[j])->0)
}

/// The tool definitions sent with every request, from the texts of their
/// files: `Err(i)` for the first file that is not JSON; otherwise the JSON
/// array of the definitions, each in its compact form, in the files' order.
pub fn tool_definitions(texts: &[String]) -> (r: Result<String, usize>)
    ensures
        r matches Err(i) ==> i < texts@.len() && json_doc(texts@[i as int]@) is None && forall|j: int|
            0 <= j < i ==> json_doc(#[trigger] texts@[j]@) is Some,
        r matches Ok(s) ==> (forall|j: int| 0 <= j < texts@.len() ==> json_doc(#[trigger] texts@[j]@) is Some)
            && s@ == "["@ + join_seq(definition_texts(strings_view(texts@)), ","@) + "]"@,
{
    let mut docs: Vec<String> = Vec::new();
    let mut i: usize = 0;
    while i < texts.len()
        invariant
            i <= texts@.len(),
            docs@.len() == i,
            forall|j: int| 0 <= j < i ==> json_doc(#[trigger] texts@[j]@) is Some,
            forall|j: int| 0 <= j < i ==> #[trigger] docs@[j]@ == json_canonical_text(texts@[j]@)->0,
        decreases texts@.len() - i,
    {
        match parse_json(texts[i].as_str()) {
            Some(d) => docs.push(d.text),
            None => return Err(i),
        }
        i = i + 1;
    }
    assert(strings_view(docs@) =~= definition_texts(strings_view(texts@)));
    let mut out = String::from_str("[");
    let joined = join_strings(docs.as_slice(), ",");
    out.append(joined.as_str());
    out.append("]");
    Ok(out)
}

} // verus!
