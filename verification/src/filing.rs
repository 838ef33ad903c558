//! Filing a note into the library: the checks on its frontmatter, the folder
//! it belongs in, tag normalisation against the tag registry, and a file name
//! that does not overwrite an existing note.
use vstd::prelude::*;

use crate::numbers::{decimal, lemma_decimal_parses, u64_to_decimal};
use crate::paths::join;
use crate::pending::{plain_filename, validate_plain_filename};
use crate::text::{
    chars_eq, chars_of, str_eq, string_of, strings_view, sub_chars, trim, trim_class_chars,
    trim_end_class, trim_end_chars, CharClass,
};

verus! {

/// The frontmatter fields that filing reads.
pub struct Frontmatter {
    pub title: Option<String>,
    /// The `type` field.
    pub kind: Option<String>,
    /// The `kind` field (`journal` or `resource`), used by projects and areas.
    pub sub_kind: Option<String>,
    /// The `category` field, used by profile notes.
    pub category: Option<String>,
    pub tags: Vec<String>,
    pub project: Option<String>,
}

/// What `format!("{:?}", s)` gives for a string slice: it quoted and escaped.
pub uninterp spec fn debug_str_text(s: Seq<char>) -> Seq<char>;

/// `<str as Debug>::fmt` through `format!`: the contract claims only that the
/// result is the named function of the text.
#[verifier::external_body]
fn debug_str(s: &str) -> (r: String)
    ensures
        r@ == debug_str_text(s@),
{
    format!("{:?}", s)
}

/// The `Debug` text of an `Option<&str>`: `None`, or `Some(` the quoted string `)`.
pub open spec fn debug_option_text(o: Option<Seq<char>>) -> Seq<char> {
    match o {
        None => "None"@,
        Some(s) => "Some("@ + debug_str_text(s) + ")"@,
    }
}

fn debug_option(o: &Option<String>) -> (r: String)
    ensures
        r@ == debug_option_text(match o {
            Some(s) => Some(s@),
            None => None,
        }),
{
    match o {
        None => String::from_str("None"),
        Some(s) => {
            let mut r = String::from_str("Some(");
            let d = debug_str(s.as_str());
            r.append(d.as_str());
            r.append(")");
            r
        },
    }
}

/// The view of an optional string.
pub open spec fn opt_view(o: Option<String>) -> Option<Seq<char>> {
    match o {
        Some(s) => Some(s@),
        None => None,
    }
}

/// The note types that have a folder of their own: projects, areas,
/// resources and the owner's profile.
pub open spec fn folder_type(k: Seq<char>) -> bool {
    k == "project"@ || k == "area"@ || k == "resource"@ || k == "profile"@
}

/// The knowledge note types, filed under `30-knowledge/<category>`.
pub open spec fn knowledge_type(k: Seq<char>) -> bool {
    k == "decision"@ || k == "project-log"@ || k == "task"@ || k == "principle"@ || k == "insight"@ || k
        == "experience"@ || k == "glossary"@ || k == "reference"@
}

/// The note types.
pub open spec fn valid_type(k: Seq<char>) -> bool {
    folder_type(k) || knowledge_type(k)
}

/// The kinds of a project or area note.
pub open spec fn valid_kind(k: Seq<char>) -> bool {
    k == "journal"@ || k == "resource"@
}

/// The categories of a profile note.
pub open spec fn valid_category(c: Seq<char>) -> bool {
    c == "temperament-and-thinking"@ || c == "values"@ || c == "life-history"@ || c
        == "relationships"@ || c == "self-image"@ || c == "daily-and-work"@
}

/// The end of the message for an unknown type: the allowed values.
pub const TYPE_ALLOWED_TAIL: &'static str = ", 許可値: [\"project\", \"area\", \"resource\", \"profile\", \"decision\", \"project-log\", \"task\", \"principle\", \"insight\", \"experience\", \"glossary\", \"reference\"])";

/// Why a note cannot be filed where its frontmatter says (it then goes to the
/// inbox with this reason): a blank title, no tags, an unknown type, a project
/// or area note without a valid kind, a profile note with an unknown
/// category, or a knowledge note whose category cannot name a folder.
/// `None` when the frontmatter is complete.
pub open spec fn validate_spec(fm: Frontmatter) -> Option<Seq<char>> {
    let title = match fm.title {
        Some(t) => trim(t@),
        None => Seq::empty(),
    };
    if title.len() == 0 {
        Some("titleが空です"@)
    } else if fm.tags@.len() == 0 {
        Some("tagsが空です"@)
    } else {
        match fm.kind {
            Some(k) if valid_type(k@) => if k@ == "project"@ || k@ == "area"@ {
                match fm.sub_kind {
                    Some(sk) if valid_kind(sk@) => None,
                    other => Some(
                        "kindが不正です(値: "@ + debug_option_text(opt_view(other))
                            + ", 許可値: [\"journal\", \"resource\"]。typeがproject/areaの記事には必須です)"@,
                    ),
                }
            } else if k@ == "profile"@ {
                match fm.category {
                    None => None,
                    Some(c) => if valid_category(c@) {
                        None
                    } else {
                        Some(
                            "categoryが不正です(値: "@ + debug_str_text(c@)
                                + ", 許可値: [\"temperament-and-thinking\", \"values\", \"life-history\", \"relationships\", \"self-image\", \"daily-and-work\"])"@,
                        )
                    },
                }
            } else if k@ == "resource"@ {
                None
            } else {
                match fm.category {
                    None => None,
                    Some(c) => if plain_filename(c@) {
                        None
                    } else {
                        Some("categoryが不正です(値: "@ + debug_str_text(c@) + ", フォルダ名にできません)"@)
                    },
                }
            },
            other => Some(
                "typeが不正です(値: "@ + debug_option_text(opt_view(other)) + TYPE_ALLOWED_TAIL@,
            ),
        }
    }
}

fn is_valid_type(k: &str) -> (b: bool)
    ensures
        b == valid_type(k@),
{
    str_eq(k, "project") || str_eq(k, "area") || str_eq(k, "resource") || str_eq(k, "profile") || str_eq(
        k,
        "decision",
    ) || str_eq(k, "project-log") || str_eq(k, "task") || str_eq(k, "principle") || str_eq(k, "insight")
        || str_eq(k, "experience") || str_eq(k, "glossary") || str_eq(k, "reference")
}

fn is_valid_kind(k: &str) -> (b: bool)
    ensures
        b == valid_kind(k@),
{
    str_eq(k, "journal") || str_eq(k, "resource")
}

fn is_valid_category(c: &str) -> (b: bool)
    ensures
        b == valid_category(c@),
{
    str_eq(c, "temperament-and-thinking") || str_eq(c, "values") || str_eq(c, "life-history")
        || str_eq(c, "relationships") || str_eq(c, "self-image") || str_eq(c, "daily-and-work")
}

/// Checks the frontmatter of a note being filed (see `validate_spec`).
pub fn validate(fm: &Frontmatter) -> (r: Option<String>)
    ensures
        opt_view(r) == validate_spec(*fm),
{
    let blank = match &fm.title {
        Some(t) => {
            let tv = chars_of(t.as_str());
            trim_class_chars(tv.as_slice(), CharClass::Whitespace).len() == 0
        },
        None => true,
    };
    if blank {
        return Some(String::from_str("titleが空です"));
    }
    if fm.tags.len() == 0 {
        return Some(String::from_str("tagsが空です"));
    }
    match &fm.kind {
        Some(k) => if is_valid_type(k.as_str()) {
            if str_eq(k.as_str(), "project") || str_eq(k.as_str(), "area") {
                let ok = match &fm.sub_kind {
                    Some(sk) => is_valid_kind(sk.as_str()),
                    None => false,
                };
                if ok {
                    None
                } else {
                    let mut m = String::from_str("kindが不正です(値: ");
                    let d = debug_option(&fm.sub_kind);
                    m.append(d.as_str());
                    m.append(", 許可値: [\"journal\", \"resource\"]。typeがproject/areaの記事には必須です)");
                    Some(m)
                }
            } else if str_eq(k.as_str(), "profile") {
                match &fm.category {
                    None => None,
                    Some(c) => if is_valid_category(c.as_str()) {
                        None
                    } else {
                        let mut m = String::from_str("categoryが不正です(値: ");
                        let d = debug_str(c.as_str());
                        m.append(d.as_str());
                        m.append(", 許可値: [\"temperament-and-thinking\", \"values\", \"life-history\", \"relationships\", \"self-image\", \"daily-and-work\"])");
                        Some(m)
                    },
                }
            } else if str_eq(k.as_str(), "resource") {
                None
            } else {
                match &fm.category {
                    None => None,
                    Some(c) => if validate_plain_filename(c.as_str()).is_ok() {
                        None
                    } else {
                        let mut m = String::from_str("categoryが不正です(値: ");
                        let d = debug_str(c.as_str());
                        m.append(d.as_str());
                        m.append(", フォルダ名にできません)");
                        Some(m)
                    },
                }
            }
        } else {
            let mut m = String::from_str("typeが不正です(値: ");
            let d = debug_option(&fm.kind);
            m.append(d.as_str());
            m.append(TYPE_ALLOWED_TAIL);
            Some(m)
        },
        None => {
            let mut m = String::from_str("typeが不正です(値: ");
            let d = debug_option(&fm.kind);
            m.append(d.as_str());
            m.append(TYPE_ALLOWED_TAIL);
            Some(m)
        },
    }
}

/// Where a note is filed, and the project that must be registered first (if any).
pub struct FilingPlan {
    pub dir: Vec<String>,
    pub register_project: Option<String>,
}

/// The project of a note, trimmed; `None` when missing or blank.
pub open spec fn project_of(fm: Frontmatter) -> Option<Seq<char>> {
    match fm.project {
        Some(p) => if trim(p@).len() > 0 {
            Some(trim(p@))
        } else {
            None
        },
        None => None,
    }
}

/// The folder of a validated note: a project or area note with a project goes
/// to `10-projects/<project>/<kind>` or `20-areas/<project>/<kind>` (the
/// project is registered), without one to `00-inbox`; a resource to
/// `30-resources`; a profile note to `40-profile/<category>`, or `40-profile`
/// without a category; a knowledge note (decision, project log, task,
/// principle, insight, experience, glossary, reference) to
/// `30-knowledge/<category>`, or `30-knowledge/general` without a category.
pub open spec fn destination_spec(root: Seq<Seq<char>>, fm: Frontmatter) -> (Seq<Seq<char>>, Option<Seq<char>>) {
    let k = fm.kind->0@;
    if k == "project"@ || k == "area"@ {
        match project_of(fm) {
            Some(p) => (
                root + seq![
                    if k == "project"@ {
                        "10-projects"@
                    } else {
                        "20-areas"@
                    },
                    p,
                    fm.sub_kind->0@,
                ],
                Some(p),
            ),
            None => (root + seq!["00-inbox"@], None),
        }
    } else if k == "resource"@ {
        (root + seq!["30-resources"@], None)
    } else if k == "profile"@ {
        match fm.category {
            Some(c) => (root + seq!["40-profile"@, c@], None),
            None => (root + seq!["40-profile"@], None),
        }
    } else {
        match fm.category {
            Some(c) => (root + seq!["30-knowledge"@, c@], None),
            None => (root + seq!["30-knowledge"@, "general"@], None),
        }
    }
}

/// The folder a validated note is filed in (see `destination_spec`).
pub fn decide_destination(root: &[String], fm: &Frontmatter) -> (plan: FilingPlan)
    requires
        validate_spec(*fm) is None,
    ensures
        strings_view(plan.dir@) == destination_spec(strings_view(root@), *fm).0,
        opt_view(plan.register_project) == destination_spec(strings_view(root@), *fm).1,
{
    proof {
        reveal_strlit("project");
        reveal_strlit("area");
        reveal_strlit("resource");
        reveal_strlit("profile");
        assert("project"@.len() != "area"@.len());
        assert("project"@.len() != "resource"@.len());
        assert("area"@.len() != "resource"@.len());
        assert("area"@.len() != "profile"@.len());
        assert("resource"@.len() != "profile"@.len());
        assert("project"@ != "profile"@) by {
            assert("project"@[3] != "profile"@[3]);
        }
    }
    let k = match &fm.kind {
        Some(k) => k,
        None => {
            assert(false);
            return FilingPlan { dir: Vec::new(), register_project: None };
        },
    };
    if str_eq(k.as_str(), "project") || str_eq(k.as_str(), "area") {
        let project = match &fm.project {
            Some(p) => {
                let pv = chars_of(p.as_str());
                let t = trim_class_chars(pv.as_slice(), CharClass::Whitespace);
                if t.len() > 0 {
                    Some(string_of(t.as_slice()))
                } else {
                    None
                }
            },
            None => None,
        };
        match project {
            Some(p) => {
                let top = if str_eq(k.as_str(), "project") {
                    String::from_str("10-projects")
                } else {
                    String::from_str("20-areas")
                };
                let sub = match &fm.sub_kind {
                    Some(sk) => sk.clone(),
                    None => {
                        assert(false);
                        String::new()
                    },
                };
                let more = vec![top, p.clone(), sub];
                let ghost expected = seq![
                    if k@ == "project"@ {
                        "10-projects"@
                    } else {
                        "20-areas"@
                    },
                    p@,
                    fm.sub_kind->0@,
                ];
                assert(strings_view(more@) =~= expected);
                FilingPlan { dir: join(root, more), register_project: Some(p) }
            },
            None => {
                let more = vec![String::from_str("00-inbox")];
                assert(strings_view(more@) =~= seq!["00-inbox"@]);
                FilingPlan { dir: join(root, more), register_project: None }
            },
        }
    } else if str_eq(k.as_str(), "resource") {
        let more = vec![String::from_str("30-resources")];
        assert(strings_view(more@) =~= seq!["30-resources"@]);
        FilingPlan { dir: join(root, more), register_project: None }
    } else if str_eq(k.as_str(), "profile") {
        match &fm.category {
            Some(c) => {
                let more = vec![String::from_str("40-profile"), c.clone()];
                assert(strings_view(more@) =~= seq!["40-profile"@, c@]);
                FilingPlan { dir: join(root, more), register_project: None }
            },
            None => {
                let more = vec![String::from_str("40-profile")];
                assert(strings_view(more@) =~= seq!["40-profile"@]);
                FilingPlan { dir: join(root, more), register_project: None }
            },
        }
    } else {
        let sub = match &fm.category {
            Some(c) => c.clone(),
            None => String::from_str("general"),
        };
        let more = vec![String::from_str("30-knowledge"), sub];
        proof {
            let expected = if fm.category is Some {
                fm.category->0@
            } else {
                "general"@
            };
            assert(strings_view(more@) =~= seq!["30-knowledge"@, expected]);
        }
        FilingPlan { dir: join(root, more), register_project: None }
    }
}

/// Where any note is filed, and why it went to the inbox if it did: a note
/// whose frontmatter is incomplete is never refused but goes to `00-inbox`
/// with the reason; a complete one goes where `destination_spec` says.
pub fn filing_plan(root: &[String], fm: &Frontmatter) -> (r: (FilingPlan, Option<String>))
    ensures
        validate_spec(*fm) matches Some(reason) ==> strings_view(r.0.dir@) == strings_view(root@)
            + seq!["00-inbox"@] && r.0.register_project is None && opt_view(r.1) == Some(reason),
        validate_spec(*fm) is None ==> strings_view(r.0.dir@) == destination_spec(strings_view(root@), *fm).0
            && opt_view(r.0.register_project) == destination_spec(strings_view(root@), *fm).1
            && r.1 is None,
{
    match validate(fm) {
        Some(reason) => {
            let more = vec![String::from_str("00-inbox")];
            assert(strings_view(more@) =~= seq!["00-inbox"@]);
            (FilingPlan { dir: join(root, more), register_project: None }, Some(reason))
        },
        None => (decide_destination(root, fm), None),
    }
}

/// The text of a filed note: the frontmatter YAML between `---` lines, then
/// the body.
pub fn filed_note_text(frontmatter_yaml: &str, body: &str) -> (s: String)
    ensures
        s@ == "---\n"@ + frontmatter_yaml@ + "---\n"@ + body@,
{
    let mut s = String::from_str("---\n");
    s.append(frontmatter_yaml);
    s.append("---\n");
    s.append(body);
    s
}

/// A tag of the registry with its aliases.
pub struct TagEntry {
    pub canonical: String,
    pub aliases: Vec<String>,
}

/// A tag entry that a raw tag names: by its canonical form or by an alias.
pub open spec fn tag_matches(e: TagEntry, raw: Seq<char>) -> bool {
    e.canonical@ == raw || strings_view(e.aliases@).contains(raw)
}

/// The canonical form of the first entry the raw tag names.
pub open spec fn canonical_of(entries: Seq<TagEntry>, raw: Seq<char>) -> Option<Seq<char>>
    decreases entries.len(),
{
    if entries.len() == 0 {
        None
    } else if tag_matches(entries[0], raw) {
        Some(entries[0].canonical@)
    } else {
        canonical_of(entries.drop_first(), raw)
    }
}

fn contains_string(v: &[String], x: &str) -> (b: bool)
    ensures
        b == strings_view(v@).contains(x@),
{
    let mut i: usize = 0;
    while i < v.len()
        invariant
            i <= v@.len(),
            forall|j: int| 0 <= j < i ==> v@[j]@ != x@,
        decreases v@.len() - i,
    {
        if str_eq(v[i].as_str(), x) {
            assert(strings_view(v@)[i as int] == x@);
            return true;
        }
        i = i + 1;
    }
    assert(!strings_view(v@).contains(x@)) by {
        if strings_view(v@).contains(x@) {
            let j = choose|j: int| 0 <= j < strings_view(v@).len() && strings_view(v@)[j] == x@;
            assert(v@[j]@ == x@);
        }
    }
    false
}

/// Normalises a tag against the registry: the canonical form when an entry's
/// canonical form or alias is the raw tag; otherwise the raw tag, which is to be
/// registered as pending unless this run already registered it. The second
/// result says whether a registration is to be appended.
pub fn normalize_tag(entries: &[TagEntry], raw: &str, newly_pending: &mut Vec<String>) -> (r: (String, bool))
    ensures
        canonical_of(entries@, raw@) matches Some(c) ==> r.0@ == c && !r.1 && final(newly_pending)@
            == old(newly_pending)@,
        canonical_of(entries@, raw@) is None && strings_view(old(newly_pending)@).contains(raw@)
            ==> r.0@ == raw@ && !r.1 && final(newly_pending)@ == old(newly_pending)@,
        canonical_of(entries@, raw@) is None && !strings_view(old(newly_pending)@).contains(raw@)
            ==> r.0@ == raw@ && r.1 && strings_view(final(newly_pending)@) == strings_view(
            old(newly_pending)@,
        ).push(raw@),
{
    let mut i: usize = 0;
    assert(entries@.subrange(0, entries@.len() as int) =~= entries@);
    while i < entries.len()
        invariant
            i <= entries@.len(),
            canonical_of(entries@, raw@) == canonical_of(entries@.subrange(i as int, entries@.len() as int), raw@),
        decreases entries@.len() - i,
    {
        let e = &entries[i];
        assert(entries@.subrange(i as int, entries@.len() as int).drop_first() =~= entries@.subrange(
            i + 1,
            entries@.len() as int,
        ));
        if str_eq(e.canonical.as_str(), raw) || contains_string(e.aliases.as_slice(), raw) {
            return (e.canonical.clone(), false);
        }
        i = i + 1;
    }
    if contains_string(newly_pending.as_slice(), raw) {
        return (raw.to_string(), false);
    }
    let ghost before = strings_view(newly_pending@);
    newly_pending.push(raw.to_string());
    assert(strings_view(newly_pending@) =~= before.push(raw@));
    (raw.to_string(), true)
}

/// Whether the project registry already has the id.
pub fn project_registered(ids: &[String], id: &str) -> (b: bool)
    ensures
        b == strings_view(ids@).contains(id@),
{
    contains_string(ids, id)
}

/// What `serde_yaml::to_string(s)` gives for a string: its YAML scalar with a
/// final line break, or `None` when serialisation fails.
pub uninterp spec fn yaml_string_text(s: Seq<char>) -> Option<Seq<char>>;

/// `serde_yaml::to_string` on a string slice: the contract claims only that the
/// result is the named function of the text (the error becomes `None`).
#[verifier::external_body]
fn yaml_to_string(s: &str) -> (r: Option<String>)
    ensures
        match r {
            Some(t) => yaml_string_text(s@) == Some(t@),
            None => yaml_string_text(s@) is None,
        },
{
    serde_yaml::to_string(s).ok()
}

/// A string as a YAML scalar that quotes what needs quoting: serde_yaml's
/// serialisation without its trailing whitespace.
pub fn yaml_scalar(s: &str) -> (r: Option<String>)
    ensures
        match r {
            Some(t) => yaml_string_text(s@) matches Some(y) && t@ == trim_end_class(y, CharClass::Whitespace),
            None => yaml_string_text(s@) is None,
        },
{
    match yaml_to_string(s) {
        Some(y) => {
            let v = chars_of(y.as_str());
            let t = trim_end_chars(v.as_slice(), CharClass::Whitespace);
            Some(string_of(t.as_slice()))
        },
        None => None,
    }
}

/// The lines appended to `projects.yaml` to register a project as pending.
pub fn project_registration_text(id_scalar: &str) -> (r: String)
    ensures
        r@ == "  - id: "@ + id_scalar@ + "\n    status: pending\n"@,
{
    let mut r = String::from_str("  - id: ");
    r.append(id_scalar);
    r.append("\n    status: pending\n");
    r
}

/// The lines appended to `tags.yaml` to register a tag as pending.
pub fn tag_registration_text(tag_scalar: &str) -> (r: String)
    ensures
        r@ == "  - canonical: "@ + tag_scalar@ + "\n    aliases: []\n    status: pending\n"@,
{
    let mut r = String::from_str("  - canonical: ");
    r.append(tag_scalar);
    r.append("\n    aliases: []\n    status: pending\n");
    r
}

/// The `n`-th file name tried for a note: the name itself first, then
/// `<stem>-2.md`, `<stem>-3.md`, ...
pub open spec fn candidate_name(file_name: Seq<char>, stem: Seq<char>, n: nat) -> Seq<char> {
    if n < 2 {
        file_name
    } else {
        stem + "-"@ + decimal(n) + ".md"@
    }
}

/// The stem of a Markdown file name (`str::strip_suffix(".md")`).
pub open spec fn md_stem(file_name: Seq<char>) -> Option<Seq<char>> {
    if file_name.len() >= 3 && file_name.subrange(file_name.len() - 3, file_name.len() as int)
        == ".md"@ {
        Some(file_name.subrange(0, file_name.len() - 3))
    } else {
        None
    }
}

proof fn lemma_candidates_distinct(file_name: Seq<char>, stem: Seq<char>, n: nat, m: nat)
    requires
        md_stem(file_name) == Some(stem),
        1 <= n,
        1 <= m,
        n != m,
    ensures
        candidate_name(file_name, stem, n) != candidate_name(file_name, stem, m),
{
    reveal_strlit("-");
    reveal_strlit(".md");
    crate::numbers::lemma_decimal_parses(n, n);
    crate::numbers::lemma_decimal_parses(m, m);
    let cn = candidate_name(file_name, stem, n);
    let cm = candidate_name(file_name, stem, m);
    if n >= 2 && m >= 2 {
        let dn = decimal(n);
        let dm = decimal(m);
        assert(cn == stem + "-"@ + dn + ".md"@);
        assert(cm == stem + "-"@ + dm + ".md"@);
        assert(cn.len() == stem.len() + 1 + dn.len() + 3);
        assert(cm.len() == stem.len() + 1 + dm.len() + 3);
        if cn == cm {
            assert(dn.len() == dm.len());
            assert(cn.subrange(stem.len() + 1 as int, stem.len() + 1 + dn.len() as int) =~= dn);
            assert(cm.subrange(stem.len() + 1 as int, stem.len() + 1 + dm.len() as int) =~= dm);
            crate::numbers::lemma_decimal_parses(n, n + m);
            crate::numbers::lemma_decimal_parses(m, n + m);
        }
    } else if n < 2 {
        assert(cm.len() > cn.len());
    } else {
        assert(cn.len() > cm.len());
    }
}

proof fn lemma_pigeonhole(cands: Seq<Seq<char>>, taken: Seq<Seq<char>>)
    requires
        cands.no_duplicates(),
        forall|i: int| 0 <= i < cands.len() ==> taken.contains(#[trigger] cands[i]),
    ensures
        cands.len() <= taken.len(),
{
    cands.unique_seq_to_set();
    taken.lemma_cardinality_of_set();
    assert(cands.to_set().subset_of(taken.to_set()));
    vstd::set_lib::lemma_len_subset(cands.to_set(), taken.to_set());
}

/// `name` is the `n`-th candidate, it is free, and every earlier candidate is taken.
pub open spec fn is_first_free_at(file_name: Seq<char>, stem: Seq<char>, taken: Seq<Seq<char>>, name: Seq<char>, n: nat) -> bool {
    &&& 1 <= n
    &&& name == candidate_name(file_name, stem, n)
    &&& !taken.contains(name)
    &&& forall|m: nat| 1 <= m < n ==> taken.contains(#[trigger] candidate_name(file_name, stem, m))
}

/// `name` is the first candidate that is not taken.
pub open spec fn first_free_name(file_name: Seq<char>, stem: Seq<char>, taken: Seq<Seq<char>>, name: Seq<char>) -> bool {
    exists|n: nat| #[trigger] is_first_free_at(file_name, stem, taken, name, n)
}

/// A file name for the note that no existing file in the folder has: the first
/// of `name`, `<stem>-2.md`, `<stem>-3.md`, ... not among `taken`. A name that
/// does not end in `.md` is an error.
pub fn unique_destination(file_name: &str, taken: &[String]) -> (r: Result<String, String>)
    requires
        taken@.len() < u64::MAX,
    ensures
        md_stem(file_name@) is None ==> (r matches Err(e) && e@ == "拡張子が.mdではありません: "@ + file_name@),
        md_stem(file_name@) is Some ==> (r matches Ok(name) && first_free_name(
            file_name@,
            md_stem(file_name@)->0,
            strings_view(taken@),
            name@,
        )),
{
    proof {
        reveal_strlit(".md");
    }
    let f = chars_of(file_name);
    let md = chars_of(".md");
    let len = f.len();
    if !(len >= 3 && chars_eq(sub_chars(f.as_slice(), len - 3, len).as_slice(), md.as_slice())) {
        let mut e = String::from_str("拡張子が.mdではありません: ");
        e.append(file_name);
        return Err(e);
    }
    let stem_v = sub_chars(f.as_slice(), 0, len - 3);
    let stem = string_of(stem_v.as_slice());
    let ghost stem_s = stem@;
    let ghost tv = strings_view(taken@);
    let mut candidate = file_name.to_string();
    let mut n: u64 = 1;
    while contains_string(taken, candidate.as_str())
        invariant
            md_stem(file_name@) == Some(stem_s),
            stem@ == stem_s,
            tv == strings_view(taken@),
            1 <= n <= tv.len() + 1,
            tv.len() < u64::MAX,
            candidate@ == candidate_name(file_name@, stem_s, n as nat),
            forall|m: nat| 1 <= m < n ==> tv.contains(#[trigger] candidate_name(file_name@, stem_s, m)),
        decreases tv.len() + 1 - n,
    {
        proof {
            let cands = Seq::new(n as nat, |i: int| candidate_name(file_name@, stem_s, (i + 1) as nat));
            assert forall|i: int, j: int| 0 <= i < cands.len() && 0 <= j < cands.len() && i != j implies cands[i] != cands[j] by {
                lemma_candidates_distinct(file_name@, stem_s, (i + 1) as nat, (j + 1) as nat);
            }
            assert forall|i: int| 0 <= i < cands.len() implies tv.contains(#[trigger] cands[i]) by {
                if i + 1 < n {
                    assert(tv.contains(candidate_name(file_name@, stem_s, (i + 1) as nat)));
                }
            }
            lemma_pigeonhole(cands, tv);
        }
        n = n + 1;
        let mut c = stem.clone();
        c.append("-");
        let d = u64_to_decimal(n);
        c.append(d.as_str());
        c.append(".md");
        candidate = c;
    }
    assert(md_stem(file_name@) == Some(stem_s));
    assert(candidate@ == candidate_name(file_name@, stem_s, n as nat) && !strings_view(taken@).contains(candidate@));
    assert(first_free_name(file_name@, stem_s, tv, candidate@)) by {
        assert(is_first_free_at(file_name@, stem_s, tv, candidate@, n as nat));
    }
    Ok(candidate)
}

/// Project and area notes are filed under their trimmed project, and that
/// project is the one registered: a project note goes to
/// `10-projects/<project>/<kind>`, an area note to `20-areas/<project>/<kind>`,
/// and both register the project. No other type registers a project.
pub proof fn lemma_project_and_area_notes_register_their_project(root: Seq<Seq<char>>, fm: Frontmatter)
    ensures
        fm.kind is Some && (fm.kind->0@ == "project"@ || fm.kind->0@ == "area"@) && fm.project is Some && trim(
            fm.project->0@,
        ).len() > 0 ==> destination_spec(root, fm).1 == Some(trim(fm.project->0@)),
        fm.kind is Some && fm.kind->0@ == "project"@ && fm.project is Some && trim(fm.project->0@).len() > 0
            ==> destination_spec(root, fm).0 == root + seq!["10-projects"@, trim(fm.project->0@), fm.sub_kind->0@],
        fm.kind is Some && fm.kind->0@ == "area"@ && fm.project is Some && trim(fm.project->0@).len() > 0
            ==> destination_spec(root, fm).0 == root + seq!["20-areas"@, trim(fm.project->0@), fm.sub_kind->0@],
        fm.kind is Some && (fm.kind->0@ == "project"@ || fm.kind->0@ == "area"@) && (fm.project is None || trim(
            fm.project->0@,
        ).len() == 0) ==> destination_spec(root, fm) == (root + seq!["00-inbox"@], None::<Seq<char>>),
        fm.kind is Some && fm.kind->0@ != "project"@ && fm.kind->0@ != "area"@ ==> destination_spec(root, fm).1 is None,
{
    reveal_strlit("project");
    reveal_strlit("area");
    assert("project"@.len() != "area"@.len());
}

/// The type names differ from one another.
proof fn lemma_type_names_distinct()
    ensures
        "project"@ != "area"@ && "project"@ != "resource"@ && "project"@ != "profile"@,
        "area"@ != "resource"@ && "area"@ != "profile"@ && "resource"@ != "profile"@,
        !knowledge_type("project"@) && !knowledge_type("area"@) && !knowledge_type("resource"@)
            && !knowledge_type("profile"@),
{
    reveal_strlit("project");
    reveal_strlit("area");
    reveal_strlit("resource");
    reveal_strlit("profile");
    reveal_strlit("decision");
    reveal_strlit("project-log");
    reveal_strlit("task");
    reveal_strlit("principle");
    reveal_strlit("insight");
    reveal_strlit("experience");
    reveal_strlit("glossary");
    reveal_strlit("reference");
    assert("project"@.len() != "area"@.len() && "project"@.len() != "resource"@.len());
    assert("area"@.len() != "resource"@.len() && "area"@.len() != "profile"@.len());
    assert("resource"@.len() != "profile"@.len());
    assert("project"@ != "profile"@) by {
        assert("project"@[3] != "profile"@[3]);
    }
    assert("project"@ != "reference"@ && "area"@ != "reference"@ && "resource"@ != "reference"@) by {
        assert("project"@.len() != "reference"@.len() && "area"@.len() != "reference"@.len());
        assert("resource"@[2] != "reference"@[2]);
    }
    assert("profile"@ != "decision"@ && "profile"@ != "task"@ && "profile"@ != "principle"@ && "profile"@
        != "insight"@ && "profile"@ != "experience"@ && "profile"@ != "glossary"@ && "profile"@ != "reference"@
        && "profile"@ != "project-log"@) by {
        assert("profile"@[0] != "decision"@[0] && "profile"@[0] != "task"@[0] && "profile"@[0] != "insight"@[0]
            && "profile"@[0] != "experience"@[0] && "profile"@[0] != "glossary"@[0] && "profile"@[0] != "reference"@[0]);
        assert("profile"@[2] != "principle"@[2] && "profile"@.len() != "project-log"@.len());
    }
    assert("project"@ != "decision"@ && "project"@ != "task"@ && "project"@ != "principle"@ && "project"@
        != "insight"@ && "project"@ != "experience"@ && "project"@ != "glossary"@ && "project"@ != "project-log"@) by {
        assert("project"@[0] != "decision"@[0] && "project"@[0] != "task"@[0] && "project"@[0] != "insight"@[0]
            && "project"@[0] != "experience"@[0] && "project"@[0] != "glossary"@[0]);
        assert("project"@[2] != "principle"@[2] && "project"@.len() != "project-log"@.len());
    }
    assert("area"@ != "decision"@ && "area"@ != "task"@ && "area"@ != "principle"@ && "area"@ != "insight"@
        && "area"@ != "experience"@ && "area"@ != "glossary"@ && "area"@ != "project-log"@) by {
        assert("area"@[0] != "task"@[0]);
        assert("area"@.len() != "decision"@.len() && "area"@.len() != "principle"@.len() && "area"@.len()
            != "insight"@.len() && "area"@.len() != "experience"@.len() && "area"@.len() != "glossary"@.len()
            && "area"@.len() != "project-log"@.len());
    }
    assert("resource"@ != "decision"@ && "resource"@ != "task"@ && "resource"@ != "principle"@ && "resource"@
        != "insight"@ && "resource"@ != "experience"@ && "resource"@ != "glossary"@ && "resource"@ != "project-log"@) by {
        assert("resource"@[0] != "decision"@[0] && "resource"@[0] != "task"@[0] && "resource"@[0] != "principle"@[0]
            && "resource"@[0] != "insight"@[0] && "resource"@[0] != "experience"@[0] && "resource"@[0] != "glossary"@[0]
            && "resource"@[0] != "project-log"@[0]);
    }
}

/// The folders of the other note types, none of which registers a project:
/// a resource goes to `30-resources`; a profile note to
/// `40-profile/<category>`, or `40-profile` without one; a knowledge note
/// (decision, project log, task, principle, insight, experience, glossary,
/// reference) to `30-knowledge/<category>`, or `30-knowledge/general`.
pub proof fn lemma_other_types_folders(root: Seq<Seq<char>>, fm: Frontmatter)
    ensures
        fm.kind is Some && fm.kind->0@ == "resource"@ ==> destination_spec(root, fm) == (
            root + seq!["30-resources"@],
            None::<Seq<char>>,
        ),
        fm.kind is Some && fm.kind->0@ == "profile"@ && fm.category is Some ==> destination_spec(root, fm) == (
            root + seq!["40-profile"@, fm.category->0@],
            None::<Seq<char>>,
        ),
        fm.kind is Some && fm.kind->0@ == "profile"@ && fm.category is None ==> destination_spec(root, fm) == (
            root + seq!["40-profile"@],
            None::<Seq<char>>,
        ),
        fm.kind is Some && knowledge_type(fm.kind->0@) && fm.category is Some ==> destination_spec(root, fm) == (
            root + seq!["30-knowledge"@, fm.category->0@],
            None::<Seq<char>>,
        ),
        fm.kind is Some && knowledge_type(fm.kind->0@) && fm.category is None ==> destination_spec(root, fm) == (
            root + seq!["30-knowledge"@, "general"@],
            None::<Seq<char>>,
        ),
{
    lemma_type_names_distinct();
}

/// Which frontmatter is complete: with a non-blank title and at least one
/// tag, a note of any of the twelve types is accepted (a project or area
/// note needs a kind of `journal` or `resource`, a profile or knowledge note
/// without a category is fine), and a note of any other type, or none, is
/// sent to the inbox with a reason, as is one with a blank title or no tags.
pub proof fn lemma_complete_frontmatter(fm: Frontmatter)
    ensures
        (fm.title is None || trim(fm.title->0@).len() == 0) ==> validate_spec(fm) is Some,
        fm.tags@.len() == 0 ==> validate_spec(fm) is Some,
        (fm.kind is None || !(folder_type(fm.kind->0@) || knowledge_type(fm.kind->0@))) ==> validate_spec(fm) is Some,
        fm.title is Some && trim(fm.title->0@).len() > 0 && fm.tags@.len() > 0 && fm.kind is Some && (knowledge_type(
            fm.kind->0@,
        ) || fm.kind->0@ == "resource"@ || fm.kind->0@ == "profile"@) && fm.category is None ==> validate_spec(fm) is None,
        fm.title is Some && trim(fm.title->0@).len() > 0 && fm.tags@.len() > 0 && fm.kind is Some && (fm.kind->0@
            == "project"@ || fm.kind->0@ == "area"@) && fm.sub_kind is Some && (fm.sub_kind->0@ == "journal"@
            || fm.sub_kind->0@ == "resource"@) ==> validate_spec(fm) is None,
        fm.kind is Some && (fm.kind->0@ == "project"@ || fm.kind->0@ == "area"@) && !(fm.sub_kind is Some && (
        fm.sub_kind->0@ == "journal"@ || fm.sub_kind->0@ == "resource"@)) ==> validate_spec(fm) is Some,
{
    lemma_type_names_distinct();
}

} // verus!
