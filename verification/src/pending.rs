//! The review queue: tags and projects registered as `pending` (or put off as
//! `deferred`), and inbox notes not yet confirmed.
use vstd::prelude::*;

use crate::text::{chars_of, contains_seq, str_contains, str_eq};

verus! {

/// A tag of `tags.yaml` as the queue reads it.
pub struct YamlTagEntry {
    pub canonical: String,
    pub status: String,
}

/// A project of `projects.yaml` as the queue reads it.
pub struct YamlProjectEntry {
    pub id: String,
    pub status: String,
}

/// A tag waiting for review.
pub struct PendingTagDto {
    pub canonical: String,
    pub status: String,
}

/// A project waiting for review.
pub struct PendingProjectDto {
    pub id: String,
    pub status: String,
}

/// An inbox note waiting for review.
pub struct PendingInboxItemDto {
    pub filename: String,
    pub title: Option<String>,
    pub reason: Option<String>,
    pub review_status: Option<String>,
}

/// Everything waiting for review.
pub struct PendingItemsDto {
    pub tags: Vec<PendingTagDto>,
    pub projects: Vec<PendingProjectDto>,
    pub inbox: Vec<PendingInboxItemDto>,
}

/// A registry status that puts an entry in the queue.
pub open spec fn awaits_review(status: Seq<char>) -> bool {
    status == "pending"@ || status == "deferred"@
}

/// The tags waiting for review, in order.
pub open spec fn pending_tags_spec(entries: Seq<YamlTagEntry>) -> Seq<(Seq<char>, Seq<char>)>
    decreases entries.len(),
{
    if entries.len() == 0 {
        Seq::empty()
    } else {
        (if awaits_review(entries[0].status@) {
            seq![(entries[0].canonical@, entries[0].status@)]
        } else {
            Seq::empty()
        }) + pending_tags_spec(entries.drop_first())
    }
}

/// The projects waiting for review, in order.
pub open spec fn pending_projects_spec(entries: Seq<YamlProjectEntry>) -> Seq<(Seq<char>, Seq<char>)>
    decreases entries.len(),
{
    if entries.len() == 0 {
        Seq::empty()
    } else {
        (if awaits_review(entries[0].status@) {
            seq![(entries[0].id@, entries[0].status@)]
        } else {
            Seq::empty()
        }) + pending_projects_spec(entries.drop_first())
    }
}

fn awaits_review_exec(status: &str) -> (b: bool)
    ensures
        b == awaits_review(status@),
{
    str_eq(status, "pending") || str_eq(status, "deferred")
}

/// The tags whose status is `pending` or `deferred`, in order.
pub fn pending_tags(entries: Vec<YamlTagEntry>) -> (out: Vec<PendingTagDto>)
    ensures
        out@.map_values(|t: PendingTagDto| (t.canonical@, t.status@)) == pending_tags_spec(entries@),
{
    let ghost orig = entries@;
    let mut entries = entries;
    let mut out: Vec<PendingTagDto> = Vec::new();
    while entries.len() > 0
        invariant
            out@.map_values(|t: PendingTagDto| (t.canonical@, t.status@)) + pending_tags_spec(
                entries@,
            ) == pending_tags_spec(orig),
        decreases entries@.len(),
    {
        let ghost before = entries@;
        let ghost done = out@.map_values(|t: PendingTagDto| (t.canonical@, t.status@));
        let e = entries.remove(0);
        assert(entries@ =~= before.drop_first());
        if awaits_review_exec(e.status.as_str()) {
            out.push(PendingTagDto { canonical: e.canonical, status: e.status });
            assert(out@.map_values(|t: PendingTagDto| (t.canonical@, t.status@)) =~= done.push(
                (before[0].canonical@, before[0].status@),
            ));
            assert(done.push((before[0].canonical@, before[0].status@)) + pending_tags_spec(entries@)
                =~= done + pending_tags_spec(before));
        } else {
            assert(done + pending_tags_spec(entries@) =~= done + pending_tags_spec(before));
        }
    }
    out
}

/// The projects whose status is `pending` or `deferred`, in order.
pub fn pending_projects(entries: Vec<YamlProjectEntry>) -> (out: Vec<PendingProjectDto>)
    ensures
        out@.map_values(|p: PendingProjectDto| (p.id@, p.status@)) == pending_projects_spec(entries@),
{
    let ghost orig = entries@;
    let mut entries = entries;
    let mut out: Vec<PendingProjectDto> = Vec::new();
    while entries.len() > 0
        invariant
            out@.map_values(|p: PendingProjectDto| (p.id@, p.status@)) + pending_projects_spec(
                entries@,
            ) == pending_projects_spec(orig),
        decreases entries@.len(),
    {
        let ghost before = entries@;
        let ghost done = out@.map_values(|p: PendingProjectDto| (p.id@, p.status@));
        let e = entries.remove(0);
        assert(entries@ =~= before.drop_first());
        if awaits_review_exec(e.status.as_str()) {
            out.push(PendingProjectDto { id: e.id, status: e.status });
            assert(out@.map_values(|p: PendingProjectDto| (p.id@, p.status@)) =~= done.push(
                (before[0].id@, before[0].status@),
            ));
            assert(done.push((before[0].id@, before[0].status@)) + pending_projects_spec(entries@)
                =~= done + pending_projects_spec(before));
        } else {
            assert(done + pending_projects_spec(entries@) =~= done + pending_projects_spec(before));
        }
    }
    out
}

/// An inbox note is listed unless its review status is `confirmed`.
pub fn inbox_item_listed(review_status: &Option<String>) -> (b: bool)
    ensures
        b == !(review_status matches Some(s) && s@ == "confirmed"@),
{
    match review_status {
        Some(s) => !str_eq(s.as_str(), "confirmed"),
        None => true,
    }
}

/// Only Markdown files of the inbox are notes.
pub fn is_markdown_extension(extension: Option<&str>) -> (b: bool)
    ensures
        b == (extension matches Some(e) && e@ == "md"@),
{
    match extension {
        Some(e) => str_eq(e, "md"),
        None => false,
    }
}

/// The status an approval action sets: `confirm` confirms, `defer` defers;
/// any other action is an error naming it.
pub fn pending_action_to_status(action: &str) -> (r: Result<&'static str, String>)
    ensures
        action@ == "confirm"@ ==> (r matches Ok(s) && s@ == "confirmed"@),
        action@ == "defer"@ ==> (r matches Ok(s) && s@ == "deferred"@),
        action@ != "confirm"@ && action@ != "defer"@ ==> (r matches Err(e) && e@ == "不明なaction: "@
            + action@),
{
    proof {
        reveal_strlit("confirm");
        reveal_strlit("defer");
        assert("confirm"@ != "defer"@) by {
            assert("confirm"@.len() != "defer"@.len());
        }
    }
    if str_eq(action, "confirm") {
        Ok("confirmed")
    } else if str_eq(action, "defer") {
        Ok("deferred")
    } else {
        let mut e = String::from_str("不明なaction: ");
        e.append(action);
        Err(e)
    }
}

/// What a review action does to a tag, project or inbox note.
pub enum PendingResolution {
    /// `reject`: the entry (or note) is removed.
    Remove,
    /// The entry's status is set to this value.
    SetStatus(&'static str),
}

/// The effect of a review action: `reject` removes, otherwise the status of
/// `pending_action_to_status` is set (or its error is returned).
pub fn pending_resolution(action: &str) -> (r: Result<PendingResolution, String>)
    ensures
        action@ == "reject"@ ==> r matches Ok(PendingResolution::Remove),
        action@ == "confirm"@ ==> (r matches Ok(PendingResolution::SetStatus(s)) && s@ == "confirmed"@),
        action@ == "defer"@ ==> (r matches Ok(PendingResolution::SetStatus(s)) && s@ == "deferred"@),
        action@ != "reject"@ && action@ != "confirm"@ && action@ != "defer"@ ==> (r matches Err(e)
            && e@ == "不明なaction: "@ + action@),
{
    proof {
        reveal_strlit("confirm");
        reveal_strlit("defer");
        reveal_strlit("reject");
        assert("confirm"@ != "reject"@) by {
            assert("confirm"@.len() != "reject"@.len());
        }
        assert("defer"@ != "reject"@) by {
            assert("defer"@.len() != "reject"@.len());
        }
    }
    if str_eq(action, "reject") {
        return Ok(PendingResolution::Remove);
    }
    match pending_action_to_status(action) {
        Ok(s) => Ok(PendingResolution::SetStatus(s)),
        Err(e) => Err(e),
    }
}

/// A file name without a folder part: not empty, no `/` or `\`, and not `..`.
pub open spec fn plain_filename(f: Seq<char>) -> bool {
    f.len() > 0 && !contains_seq(f, "/"@) && !contains_seq(f, "\\"@) && f != ".."@
}

/// Refuses a file name that could leave the inbox folder.
pub fn validate_plain_filename(filename: &str) -> (r: Result<(), String>)
    ensures
        plain_filename(filename@) ==> r is Ok,
        !plain_filename(filename@) ==> (r matches Err(e) && e@ == "不正なファイル名です。"@),
{
    let v = chars_of(filename);
    if v.len() == 0 || str_contains(filename, "/") || str_contains(filename, "\\") || str_eq(filename, "..") {
        return Err(String::from_str("不正なファイル名です。"));
    }
    Ok(())
}

/// The projects in the review queue are exactly the entries whose status is
/// `pending` or `deferred`: every such entry is listed with its id and
/// status, and every listed item is such an entry.
pub proof fn lemma_pending_projects_listed(entries: Seq<YamlProjectEntry>)
    ensures
        forall|i: int| 0 <= i < entries.len() && (entries[i].status@ == "pending"@ || entries[i].status@ == "deferred"@)
            ==> pending_projects_spec(entries).contains((#[trigger] entries[i].id@, entries[i].status@)),
        forall|x: (Seq<char>, Seq<char>)| #[trigger] pending_projects_spec(entries).contains(x) ==> exists|i: int|
            0 <= i < entries.len() && (entries[i].status@ == "pending"@ || entries[i].status@ == "deferred"@) && x == (
            #[trigger] entries[i].id@, entries[i].status@),
        pending_projects_spec(entries).len() <= entries.len(),
    decreases entries.len(),
{
    if entries.len() > 0 {
        let rest = entries.drop_first();
        lemma_pending_projects_listed(rest);
        let head: Seq<(Seq<char>, Seq<char>)> = if awaits_review(entries[0].status@) {
            seq![(entries[0].id@, entries[0].status@)]
        } else {
            Seq::empty()
        };
        assert(pending_projects_spec(entries) == head + pending_projects_spec(rest));
        assert forall|i: int| 0 <= i < entries.len() && (entries[i].status@ == "pending"@ || entries[i].status@
            == "deferred"@) implies pending_projects_spec(entries).contains((#[trigger] entries[i].id@, entries[i].status@)) by {
            if i == 0 {
                assert((head + pending_projects_spec(rest))[0] == (entries[0].id@, entries[0].status@));
            } else {
                assert(rest[i - 1] == entries[i]);
                let x = (entries[i].id@, entries[i].status@);
                let k = choose|k: int| 0 <= k < pending_projects_spec(rest).len() && pending_projects_spec(rest)[k] == x;
                assert((head + pending_projects_spec(rest))[head.len() + k] == x);
            }
        }
        assert forall|x: (Seq<char>, Seq<char>)| #[trigger] pending_projects_spec(entries).contains(x) implies exists|i: int|
            0 <= i < entries.len() && (entries[i].status@ == "pending"@ || entries[i].status@ == "deferred"@) && x == (
            #[trigger] entries[i].id@, entries[i].status@) by {
            let all = head + pending_projects_spec(rest);
            let k = choose|k: int| 0 <= k < all.len() && all[k] == x;
            if k < head.len() {
                assert(x == (entries[0].id@, entries[0].status@));
            } else {
                assert(pending_projects_spec(rest)[k - head.len()] == x);
                assert(pending_projects_spec(rest).contains(x));
                let j = choose|j: int| 0 <= j < rest.len() && (rest[j].status@ == "pending"@ || rest[j].status@ == "deferred"@) && x == (
                    #[trigger] rest[j].id@, rest[j].status@);
                assert(rest[j] == entries[j + 1]);
            }
        }
    }
}

/// The tags in the review queue are exactly the entries whose status is
/// `pending` or `deferred`: every such entry is listed with its canonical
/// name and status, and every listed item is such an entry.
pub proof fn lemma_pending_tags_listed(entries: Seq<YamlTagEntry>)
    ensures
        forall|i: int| 0 <= i < entries.len() && (entries[i].status@ == "pending"@ || entries[i].status@ == "deferred"@)
            ==> pending_tags_spec(entries).contains((#[trigger] entries[i].canonical@, entries[i].status@)),
        forall|x: (Seq<char>, Seq<char>)| #[trigger] pending_tags_spec(entries).contains(x) ==> exists|i: int|
            0 <= i < entries.len() && (entries[i].status@ == "pending"@ || entries[i].status@ == "deferred"@) && x == (
            #[trigger] entries[i].canonical@, entries[i].status@),
        pending_tags_spec(entries).len() <= entries.len(),
    decreases entries.len(),
{
    if entries.len() > 0 {
        let rest = entries.drop_first();
        lemma_pending_tags_listed(rest);
        let head: Seq<(Seq<char>, Seq<char>)> = if awaits_review(entries[0].status@) {
            seq![(entries[0].canonical@, entries[0].status@)]
        } else {
            Seq::empty()
        };
        assert(pending_tags_spec(entries) == head + pending_tags_spec(rest));
        assert forall|i: int| 0 <= i < entries.len() && (entries[i].status@ == "pending"@ || entries[i].status@
            == "deferred"@) implies pending_tags_spec(entries).contains((#[trigger] entries[i].canonical@, entries[i].status@)) by {
            if i == 0 {
                assert((head + pending_tags_spec(rest))[0] == (entries[0].canonical@, entries[0].status@));
            } else {
                assert(rest[i - 1] == entries[i]);
                let x = (entries[i].canonical@, entries[i].status@);
                let k = choose|k: int| 0 <= k < pending_tags_spec(rest).len() && pending_tags_spec(rest)[k] == x;
                assert((head + pending_tags_spec(rest))[head.len() + k] == x);
            }
        }
        assert forall|x: (Seq<char>, Seq<char>)| #[trigger] pending_tags_spec(entries).contains(x) implies exists|i: int|
            0 <= i < entries.len() && (entries[i].status@ == "pending"@ || entries[i].status@ == "deferred"@) && x == (
            #[trigger] entries[i].canonical@, entries[i].status@) by {
            let all = head + pending_tags_spec(rest);
            let k = choose|k: int| 0 <= k < all.len() && all[k] == x;
            if k < head.len() {
                assert(x == (entries[0].canonical@, entries[0].status@));
            } else {
                assert(pending_tags_spec(rest)[k - head.len()] == x);
                assert(pending_tags_spec(rest).contains(x));
                let j = choose|j: int| 0 <= j < rest.len() && (rest[j].status@ == "pending"@ || rest[j].status@ == "deferred"@) && x == (
                    #[trigger] rest[j].canonical@, rest[j].status@);
                assert(rest[j] == entries[j + 1]);
            }
        }
    }
}

/// The project queue keeps the registry's order: it is the registry's
/// entries whose status is `pending` or `deferred`, in order, as (id, status).
pub proof fn lemma_pending_projects_in_order(entries: Seq<YamlProjectEntry>)
    ensures
        pending_projects_spec(entries) == entries.filter(
            |e: YamlProjectEntry| e.status@ == "pending"@ || e.status@ == "deferred"@,
        ).map_values(|e: YamlProjectEntry| (e.id@, e.status@)),
    decreases entries.len(),
{
    let pred = |e: YamlProjectEntry| e.status@ == "pending"@ || e.status@ == "deferred"@;
    let f = |e: YamlProjectEntry| (e.id@, e.status@);
    if entries.len() == 0 {
        reveal(Seq::filter);
        assert(entries.filter(pred).map_values(f) =~= Seq::<(Seq<char>, Seq<char>)>::empty());
    } else {
        let rest = entries.drop_first();
        let first = seq![entries[0]];
        lemma_pending_projects_in_order(rest);
        assert(entries =~= first + rest);
        Seq::filter_distributes_over_add(first, rest, pred);
        reveal_with_fuel(Seq::filter, 2);
        assert(first.drop_last() =~= Seq::<YamlProjectEntry>::empty());
        let ff = first.filter(pred);
        assert((ff + rest.filter(pred)).map_values(f) =~= ff.map_values(f) + rest.filter(pred).map_values(f));
        if pred(entries[0]) {
            assert(ff =~= first);
            assert(ff.map_values(f) =~= seq![(entries[0].id@, entries[0].status@)]);
        } else {
            assert(ff =~= Seq::<YamlProjectEntry>::empty());
            assert(ff.map_values(f) =~= Seq::<(Seq<char>, Seq<char>)>::empty());
        }
    }
}

/// The tag queue keeps the registry's order: it is the registry's entries
/// whose status is `pending` or `deferred`, in order, as (canonical, status).
pub proof fn lemma_pending_tags_in_order(entries: Seq<YamlTagEntry>)
    ensures
        pending_tags_spec(entries) == entries.filter(
            |e: YamlTagEntry| e.status@ == "pending"@ || e.status@ == "deferred"@,
        ).map_values(|e: YamlTagEntry| (e.canonical@, e.status@)),
    decreases entries.len(),
{
    let pred = |e: YamlTagEntry| e.status@ == "pending"@ || e.status@ == "deferred"@;
    let f = |e: YamlTagEntry| (e.canonical@, e.status@);
    if entries.len() == 0 {
        reveal(Seq::filter);
        assert(entries.filter(pred).map_values(f) =~= Seq::<(Seq<char>, Seq<char>)>::empty());
    } else {
        let rest = entries.drop_first();
        let first = seq![entries[0]];
        lemma_pending_tags_in_order(rest);
        assert(entries =~= first + rest);
        Seq::filter_distributes_over_add(first, rest, pred);
        reveal_with_fuel(Seq::filter, 2);
        assert(first.drop_last() =~= Seq::<YamlTagEntry>::empty());
        let ff = first.filter(pred);
        assert((ff + rest.filter(pred)).map_values(f) =~= ff.map_values(f) + rest.filter(pred).map_values(f));
        if pred(entries[0]) {
            assert(ff =~= first);
            assert(ff.map_values(f) =~= seq![(entries[0].canonical@, entries[0].status@)]);
        } else {
            assert(ff =~= Seq::<YamlTagEntry>::empty());
            assert(ff.map_values(f) =~= Seq::<(Seq<char>, Seq<char>)>::empty());
        }
    }
}

} // verus!
