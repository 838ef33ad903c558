//! The conversation guards: keyword detection that routes a message before the
//! model sees it, and the system contexts built from search results.
//!
//! The model is never given the body of a stored note, only where it is
//! ("the shelf"): its source file, heading and category.
use vstd::prelude::*;

use crate::tool_call::SEARCH_KNOWLEDGE;
use crate::text::{
    chars_of, contains, contains_seq, join_seq, join_strings, replace_first, replace_first_chars,
    str_contains, string_of, strings_view, trim, trim_class_chars, trim_end_class,
    trim_end_chars, CharClass,
};

verus! {

/// One search hit as shown in the knowledge panel.
pub struct KnowledgeResultDto {
    pub id: String,
    pub text: String,
    pub source: String,
    pub heading: String,
    pub source_category: String,
}

/// The shelf reference the model is given for a hit: `[source] heading(分類: category)`.
pub open spec fn shelf_reference(r: KnowledgeResultDto) -> Seq<char> {
    "["@ + r.source@ + "] "@ + r.heading@ + "(分類: "@ + r.source_category@ + ")"@
}

/// The shelf references of the hits, one blank line apart.
pub open spec fn shelf_listing(items: Seq<KnowledgeResultDto>) -> Seq<char> {
    join_seq(items.map_values(|r: KnowledgeResultDto| shelf_reference(r)), "\n\n"@)
}

/// The model is given where notes are, never what they say: two hit lists
/// that agree on every hit's source, heading and category give the same
/// shelf listing, whatever the hits' ids and texts.
pub proof fn lemma_shelf_listing_ignores_bodies(a: Seq<KnowledgeResultDto>, b: Seq<KnowledgeResultDto>)
    requires
        a.len() == b.len(),
        forall|i: int|
            0 <= i < a.len() ==> (#[trigger] a[i]).source == b[i].source && a[i].heading == b[i].heading
                && a[i].source_category == b[i].source_category,
    ensures
        shelf_listing(a) == shelf_listing(b),
{
    let fa = a.map_values(|r: KnowledgeResultDto| shelf_reference(r));
    let fb = b.map_values(|r: KnowledgeResultDto| shelf_reference(r));
    assert(fa =~= fb) by {
        assert forall|i: int| 0 <= i < fa.len() implies fa[i] == fb[i] by {
            assert(a[i].source == b[i].source);
        }
    }
}

/// What a search that found nothing reports.
pub const NOT_FOUND_MESSAGE: &'static str = "該当する記録は見つかりませんでした。";

/// The instruction that precedes the background recall's shelf listing.
pub const PASSIVE_RECALL_PREAMBLE: &'static str = "以下は、今の会話に関連するかもしれない記録の所在です(本文はここには\n\
         含まれていません)。関連がありそうなら、「そういえば、そのことについての\n\
         記録がありますよ」のように、記録があることだけを自然に伝えてください。\n\
         中身は自分でも読んでいないので、聞かれても内容までは答えず、「開いて\n\
         確認してみてください」と案内してください。関連が薄い、あるいは話の腰を\n\
         折ると感じたら、無理に触れる必要はありません。\n\n\
         [参考情報]\n";

/// The instruction that precedes the identity guard's search result.
pub const IDENTITY_GUARD_PREAMBLE: &'static str = "ふらるさんは詩織自身のアイデンティティや技術的な仕組み(名前の由来、\n\
         使用しているLLM・音声認識・記憶の探し方など)について質問しています。\n\
         以下の[参考情報]は、その質問に対してsearch_knowledgeを実行した結果の\n\
         所在情報です(本文はここには含まれていません)。複数の話題の見出しが\n\
         混ざっていることがあるので、その中から実際にこの質問に関係していそうな\n\
         ものだけを使ってください。中身を答えるのではなく、「その話についての\n\
         記録がありますよ、開いて確認してみてください」のように、記録の場所を\n\
         案内してください。想像で由来や仕組みを作り出すことは絶対にしないで\n\
         ください。関係していそうな見出しが見当たらない場合や、「該当する記録は\n\
         見つかりませんでした」と書かれている場合は、「まだ決まっていないようです」\n\
         ではなく、正直に「それは、ちょっと分からないですね」のように伝えてください。\n\n\
         [参考情報]\n";

/// The instruction that precedes the history guard's search result.
pub const HISTORY_GUARD_PREAMBLE: &'static str = "ふらるさんは過去と現在の経緯・変遷について質問しています(「前は」「以前は」\n\
         のような言い回し)。以下の[参考情報]は、deprecated・アーカイブ済みの記録も\n\
         含めて新しい順に並べた検索結果の所在情報です(本文はここには含まれていません)。\n\
         古い記録と新しい記録が混在していることを踏まえ、何がいつ変わったのかを\n\
         見比べられるように案内してください。中身を答えるのではなく、「その経緯に\n\
         ついての記録がありますよ、開いて確認してみてください」のように、記録の場所を\n\
         案内してください。想像で経緯を作り出すことは絶対にしないでください。\n\
         関係していそうな記録が見当たらない場合や、「該当する記録は見つかりませんでした」\n\
         と書かれている場合は、正直に「それは、ちょっと分からないですね」のように\n\
         伝えてください。\n\n\
         [参考情報]\n";

/// The instruction that precedes the memo guard's result.
pub const MEMO_GUARD_PREAMBLE: &'static str = "ふらるさんはメモの保存を頼んでいます。以下の[実行結果]は、実際に\n\
         メモを保存した結果です。この操作はすでに実行済みなので、改めて保存を\n\
         試みる必要はありません。結果をそのまま素直に伝えてください。失敗して\n\
         いる場合は、成功したかのように装わず、正直にその内容を伝えてください。\n\n\
         [実行結果]\n";

/// The shelf reference of a hit.
pub fn format_shelf_reference(r: &KnowledgeResultDto) -> (s: String)
    ensures
        s@ == shelf_reference(*r),
{
    let mut s = String::from_str("[");
    s.append(r.source.as_str());
    s.append("] ");
    s.append(r.heading.as_str());
    s.append("(分類: ");
    s.append(r.source_category.as_str());
    s.append(")");
    s
}

/// The shelf references of the hits, one blank line apart.
pub fn format_shelf_listing(items: &[KnowledgeResultDto]) -> (s: String)
    ensures
        s@ == shelf_listing(items@),
{
    let mut refs: Vec<String> = Vec::new();
    let mut i: usize = 0;
    while i < items.len()
        invariant
            i <= items@.len(),
            refs@.len() == i,
            forall|j: int| 0 <= j < i ==> #[trigger] refs@[j]@ == shelf_reference(items@[j]),
        decreases items@.len() - i,
    {
        refs.push(format_shelf_reference(&items[i]));
        i = i + 1;
    }
    assert(strings_view(refs@) =~= items@.map_values(|r: KnowledgeResultDto| shelf_reference(r)));
    join_strings(refs.as_slice(), "\n\n")
}

/// The context of the always-on background recall: `None` when nothing was
/// found (the turn then goes on without a context and the sources stay as they
/// are); otherwise the preamble and the shelf listing, and the hits become the
/// sources shown to the user.
pub fn build_passive_recall_context(
    relevant: Vec<KnowledgeResultDto>,
    sources_out: &mut Option<Vec<KnowledgeResultDto>>,
) -> (r: Option<String>)
    ensures
        relevant@.len() == 0 ==> r is None && *final(sources_out) == *old(sources_out),
        relevant@.len() > 0 ==> (r matches Some(c) && c@ == PASSIVE_RECALL_PREAMBLE@
            + shelf_listing(relevant@)) && *final(sources_out) == Some(relevant),
{
    if relevant.len() == 0 {
        return None;
    }
    let listing = format_shelf_listing(relevant.as_slice());
    let mut context = String::from_str(PASSIVE_RECALL_PREAMBLE);
    context.append(listing.as_str());
    *sources_out = Some(relevant);
    Some(context)
}

/// The result the `search_knowledge` tool reports to the model: the fixed
/// not-found message when there are no hits, else the shelf listing, with the
/// hits becoming the sources.
pub fn search_tool_result(
    relevant: Vec<KnowledgeResultDto>,
    sources_out: &mut Option<Vec<KnowledgeResultDto>>,
) -> (r: String)
    ensures
        relevant@.len() == 0 ==> r@ == NOT_FOUND_MESSAGE@ && *final(sources_out) == *old(sources_out),
        relevant@.len() > 0 ==> r@ == shelf_listing(relevant@) && *final(sources_out) == Some(relevant),
{
    if relevant.len() == 0 {
        return String::from_str(NOT_FOUND_MESSAGE);
    }
    let listing = format_shelf_listing(relevant.as_slice());
    *sources_out = Some(relevant);
    listing
}

/// How many hits an identity or history guard passes on.
pub const GUARD_MAX_RESULTS: usize = 5;

/// A candidate hit for the identity guard, with whether its embedding distance
/// is within the guard's ceiling.
pub struct IdentityCandidate {
    pub item: KnowledgeResultDto,
    pub within_distance_ceiling: bool,
}

/// An identity candidate is kept when its heading names Shiori and its distance
/// is within the ceiling.
pub open spec fn identity_keeps(c: IdentityCandidate) -> bool {
    contains_seq(c.item.heading@, "詩織"@) && c.within_distance_ceiling
}

/// The kept candidates, in order.
pub open spec fn identity_filter(c: Seq<IdentityCandidate>) -> Seq<KnowledgeResultDto>
    decreases c.len(),
{
    if c.len() == 0 {
        Seq::empty()
    } else {
        (if identity_keeps(c[0]) {
            seq![c[0].item]
        } else {
            Seq::empty()
        }) + identity_filter(c.drop_first())
    }
}

/// The first `n` elements, or all of them when there are fewer (`Vec::truncate`).
pub open spec fn truncated<T>(s: Seq<T>, n: nat) -> Seq<T> {
    if s.len() > n {
        s.take(n as int)
    } else {
        s
    }
}

/// Every hit the identity guard keeps has a heading that names Shiori, and it
/// keeps at most five.
pub proof fn lemma_identity_guard_keeps_only_shiori(c: Seq<IdentityCandidate>)
    ensures
        truncated(identity_filter(c), GUARD_MAX_RESULTS as nat).len() <= GUARD_MAX_RESULTS,
        forall|i: int|
            0 <= i < truncated(identity_filter(c), GUARD_MAX_RESULTS as nat).len() ==> contains_seq(
                (#[trigger] truncated(identity_filter(c), GUARD_MAX_RESULTS as nat)[i]).heading@,
                "詩織"@,
            ),
{
    lemma_identity_filter_names_shiori(c);
    let f = identity_filter(c);
    let t = truncated(f, GUARD_MAX_RESULTS as nat);
    assert forall|i: int| 0 <= i < t.len() implies contains_seq((#[trigger] t[i]).heading@, "詩織"@) by {
        assert(t[i] == f[i]);
    }
}

proof fn lemma_identity_filter_names_shiori(c: Seq<IdentityCandidate>)
    ensures
        forall|i: int|
            0 <= i < identity_filter(c).len() ==> contains_seq((#[trigger] identity_filter(c)[i]).heading@, "詩織"@),
    decreases c.len(),
{
    if c.len() > 0 {
        lemma_identity_filter_names_shiori(c.drop_first());
        let rest = identity_filter(c.drop_first());
        let head: Seq<KnowledgeResultDto> = if identity_keeps(c[0]) {
            seq![c[0].item]
        } else {
            Seq::empty()
        };
        assert(identity_filter(c) == head + rest);
        assert forall|i: int| 0 <= i < identity_filter(c).len() implies contains_seq(
            (#[trigger] identity_filter(c)[i]).heading@,
            "詩織"@,
        ) by {
            if i < head.len() {
                assert(identity_filter(c)[i] == c[0].item);
            } else {
                assert(identity_filter(c)[i] == rest[i - head.len()]);
            }
        }
    }
}

/// The identity guard's context. The hits kept are those whose heading names
/// Shiori and whose distance is within the ceiling, at most five, in order; the
/// tool result is the not-found message when none is kept, else their shelf
/// listing (and they become the sources).
pub fn build_identity_guard_context(
    results: Vec<IdentityCandidate>,
    sources_out: &mut Option<Vec<KnowledgeResultDto>>,
) -> (r: String)
    ensures
        ({
            let kept = truncated(identity_filter(results@), GUARD_MAX_RESULTS as nat);
            &&& kept.len() == 0 ==> r@ == IDENTITY_GUARD_PREAMBLE@ + NOT_FOUND_MESSAGE@ && *final(sources_out) == *old(sources_out)
            &&& kept.len() > 0 ==> r@ == IDENTITY_GUARD_PREAMBLE@ + shelf_listing(kept)
                && (*final(sources_out) matches Some(v) && v@ == kept)
        }),
{
    let ghost orig = results@;
    let mut results = results;
    let mut relevant: Vec<KnowledgeResultDto> = Vec::new();
    let shiori = chars_of("詩織");
    while results.len() > 0
        invariant
            relevant@ + identity_filter(results@) == identity_filter(orig),
            shiori@ == "詩織"@,
        decreases results@.len(),
    {
        let ghost before = results@;
        let c = results.remove(0);
        assert(results@ =~= before.drop_first());
        let heading = chars_of(c.item.heading.as_str());
        if contains(heading.as_slice(), shiori.as_slice()) && c.within_distance_ceiling {
            let ghost rel = relevant@;
            relevant.push(c.item);
            assert(rel.push(before[0].item) + identity_filter(results@) =~= rel + identity_filter(
                before,
            ));
        } else {
            assert(relevant@ + identity_filter(results@) =~= relevant@ + identity_filter(before));
        }
    }
    assert(relevant@ =~= identity_filter(orig));
    relevant.truncate(GUARD_MAX_RESULTS);
    assert(relevant@ =~= truncated(identity_filter(orig), GUARD_MAX_RESULTS as nat));
    let tool_result = search_tool_result(relevant, sources_out);
    let mut context = String::from_str(IDENTITY_GUARD_PREAMBLE);
    context.append(tool_result.as_str());
    context
}

/// The history guard's context: the first five hits of the history-mode search;
/// the not-found message when there are none, else their shelf listing (and they
/// become the sources).
pub fn build_history_guard_context(
    results: Vec<KnowledgeResultDto>,
    sources_out: &mut Option<Vec<KnowledgeResultDto>>,
) -> (r: String)
    ensures
        ({
            let kept = truncated(results@, GUARD_MAX_RESULTS as nat);
            &&& kept.len() == 0 ==> r@ == HISTORY_GUARD_PREAMBLE@ + NOT_FOUND_MESSAGE@ && *final(sources_out) == *old(sources_out)
            &&& kept.len() > 0 ==> r@ == HISTORY_GUARD_PREAMBLE@ + shelf_listing(kept)
                && (*final(sources_out) matches Some(v) && v@ == kept)
        }),
{
    let ghost orig = results@;
    let mut relevant = results;
    relevant.truncate(GUARD_MAX_RESULTS);
    assert(relevant@ =~= truncated(orig, GUARD_MAX_RESULTS as nat));
    let tool_result = search_tool_result(relevant, sources_out);
    let mut context = String::from_str(HISTORY_GUARD_PREAMBLE);
    context.append(tool_result.as_str());
    context
}

/// A question about Shiori herself (the origin of her name, the model, speech
/// recognition, ...): a standalone keyword occurs, or "詩織" occurs together with
/// one of the combination keywords, in any order.
pub open spec fn identity_question(t: Seq<char>) -> bool {
    ||| contains_seq(t, "由来"@)
    ||| contains_seq(t, "名前の意味"@)
    ||| contains_seq(t, "LLM"@)
    ||| contains_seq(t, "頭脳"@)
    ||| contains_seq(t, "音声認識"@)
    ||| contains_seq(t, "STT"@)
    ||| contains_seq(t, "TTS"@)
    ||| contains_seq(t, "詩織"@) && (contains_seq(t, "仕組み"@) || contains_seq(t, "モデル"@)
        || contains_seq(t, "記憶"@) || contains_seq(t, "声"@) || contains_seq(t, "使って"@)
        || contains_seq(t, "なんで"@) || contains_seq(t, "どうして"@))
}

/// Whether the message asks about Shiori herself.
pub fn is_identity_question(text: &str) -> (b: bool)
    ensures
        b == identity_question(text@),
{
    if str_contains(text, "由来") || str_contains(text, "名前の意味") || str_contains(text, "LLM")
        || str_contains(text, "頭脳") || str_contains(text, "音声認識") || str_contains(text, "STT")
        || str_contains(text, "TTS") {
        return true;
    }
    str_contains(text, "詩織") && (str_contains(text, "仕組み") || str_contains(text, "モデル")
        || str_contains(text, "記憶") || str_contains(text, "声") || str_contains(text, "使って")
        || str_contains(text, "なんで") || str_contains(text, "どうして"))
}

/// A question about how things used to be: one of 前は, 以前は, 昔は, かつて
/// occurs ("変わった" alone is deliberately not a keyword).
pub open spec fn history_question(t: Seq<char>) -> bool {
    contains_seq(t, "前は"@) || contains_seq(t, "以前は"@) || contains_seq(t, "昔は"@)
        || contains_seq(t, "かつて"@)
}

/// Whether the message asks about past states.
pub fn is_history_question(text: &str) -> (b: bool)
    ensures
        b == history_question(text@),
{
    str_contains(text, "前は") || str_contains(text, "以前は") || str_contains(text, "昔は")
        || str_contains(text, "かつて")
}

/// The first memo trigger (in the order メモして, 記録して, 覚えておいて) that occurs.
pub open spec fn memo_trigger(t: Seq<char>) -> Option<Seq<char>> {
    if contains_seq(t, "メモして"@) {
        Some("メモして"@)
    } else if contains_seq(t, "記録して"@) {
        Some("記録して"@)
    } else if contains_seq(t, "覚えておいて"@) {
        Some("覚えておいて"@)
    } else {
        None
    }
}

/// What is left of the message once the trigger's first occurrence is removed,
/// trimmed, stripped of trailing 。 and 、, and trimmed again.
pub open spec fn memo_body(t: Seq<char>, trigger: Seq<char>) -> Seq<char> {
    trim(trim_end_class(trim(replace_first(t, trigger, Seq::empty())), CharClass::JapanesePunctuation))
}

/// The memo a message asks to save: `None` without a trigger or when nothing is
/// left besides the trigger.
pub open spec fn memo_intent(t: Seq<char>) -> Option<Seq<char>> {
    match memo_trigger(t) {
        None => None,
        Some(k) => if memo_body(t, k).len() == 0 {
            None
        } else {
            Some(memo_body(t, k))
        },
    }
}

/// Detects an explicit request to save a memo and returns what to save.
pub fn parse_memo_intent(text: &str) -> (r: Option<String>)
    ensures
        match r {
            Some(c) => memo_intent(text@) == Some(c@),
            None => memo_intent(text@) is None,
        },
{
    let trigger: &str = if str_contains(text, "メモして") {
        "メモして"
    } else if str_contains(text, "記録して") {
        "記録して"
    } else if str_contains(text, "覚えておいて") {
        "覚えておいて"
    } else {
        return None;
    };
    let t = chars_of(text);
    let k = chars_of(trigger);
    let empty: Vec<char> = Vec::new();
    assert(empty@ =~= Seq::<char>::empty());
    let removed = replace_first_chars(t.as_slice(), k.as_slice(), empty.as_slice());
    let a = trim_class_chars(removed.as_slice(), CharClass::Whitespace);
    let b = trim_end_chars(a.as_slice(), CharClass::JapanesePunctuation);
    let c = trim_class_chars(b.as_slice(), CharClass::Whitespace);
    if c.len() == 0 {
        None
    } else {
        Some(string_of(c.as_slice()))
    }
}

/// Which guard handles a message, checked in this order.
pub enum GuardPlan {
    /// A question about Shiori herself: search at once and answer from the shelf.
    Identity,
    /// An explicit request to save the given memo.
    Memo(String),
    /// A question about past states: search in history mode.
    History,
    /// None of these: the background recall runs.
    PassiveRecall,
}

/// The routing of a message once the identity guard is out of the question
/// (not an identity question, or its search failed): memo first, then
/// history, else the background recall.
pub fn fallback_plan(text: &str) -> (p: GuardPlan)
    ensures
        !(p is Identity),
        memo_intent(text@) is Some ==> (p matches GuardPlan::Memo(c) && memo_intent(text@) == Some(c@)),
        memo_intent(text@) is None && history_question(text@) ==> p is History,
        memo_intent(text@) is None && !history_question(text@) ==> p is PassiveRecall,
{
    match parse_memo_intent(text) {
        Some(c) => GuardPlan::Memo(c),
        None => if is_history_question(text) {
            GuardPlan::History
        } else {
            GuardPlan::PassiveRecall
        },
    }
}

/// The routing of a message: identity first, then memo, then history, else the
/// background recall.
pub fn plan_guard(text: &str) -> (p: GuardPlan)
    ensures
        identity_question(text@) ==> p is Identity,
        !identity_question(text@) && memo_intent(text@) is Some ==> (p matches GuardPlan::Memo(c)
            && memo_intent(text@) == Some(c@)),
        !identity_question(text@) && memo_intent(text@) is None && history_question(text@) ==> p is History,
        !identity_question(text@) && memo_intent(text@) is None && !history_question(text@)
            ==> p is PassiveRecall,
{
    if is_identity_question(text) {
        return GuardPlan::Identity;
    }
    fallback_plan(text)
}

/// The place of a guard in the order in which the guards are tried.
pub open spec fn guard_rank(p: GuardPlan) -> int {
    match p {
        GuardPlan::Identity => 0,
        GuardPlan::Memo(_) => 1,
        GuardPlan::History => 2,
        GuardPlan::PassiveRecall => 3,
    }
}

/// The activity a guard shows when it starts: the search tool for the
/// identity and history guards, `memo` for the memo guard. The background
/// recall shows none and leaves what was shown before.
pub fn guard_activity(step: &GuardPlan) -> (r: Option<String>)
    ensures
        (step is Identity || step is History) ==> (r matches Some(t) && t@ == SEARCH_KNOWLEDGE@),
        step is Memo ==> (r matches Some(t) && t@ == "memo"@),
        step is PassiveRecall ==> r is None,
{
    match step {
        GuardPlan::Identity => Some(String::from_str(SEARCH_KNOWLEDGE)),
        GuardPlan::Memo(_) => Some(String::from_str("memo")),
        GuardPlan::History => Some(String::from_str(SEARCH_KNOWLEDGE)),
        GuardPlan::PassiveRecall => None,
    }
}

/// What follows a guard that has run.
pub struct GuardNext {
    /// The guard to try next, if any.
    pub next: Option<GuardPlan>,
    /// For the background recall, whether it found something, which its hit
    /// statistics count; `None` after the other guards, which it does not
    /// count.
    pub recall_hit: Option<bool>,
}

/// What follows a guard that has run, given whether it produced a context
/// (the memo guard always does). The first guard that produces one ends the
/// guards. A failed identity search gives way to the memo, history or
/// recall routing (`fallback_plan`), a failed history search to the
/// background recall, and nothing follows the recall. Each guard is
/// followed only by a later one, so at most four run.
pub fn after_guard(text: &str, step: &GuardPlan, found: bool) -> (r: GuardNext)
    ensures
        (found || step is Memo || step is PassiveRecall) ==> r.next is None,
        !found && step is Identity ==> (r.next matches Some(p) && !(p is Identity) && (memo_intent(text@) is Some
            ==> (p matches GuardPlan::Memo(c) && memo_intent(text@) == Some(c@))) && (memo_intent(text@) is None
            && history_question(text@) ==> p is History) && (memo_intent(text@) is None && !history_question(
            text@,
        ) ==> p is PassiveRecall)),
        !found && step is History ==> (r.next matches Some(p) && p is PassiveRecall),
        r.next matches Some(p) ==> guard_rank(p) > guard_rank(*step),
        step is PassiveRecall ==> r.recall_hit == Some(found),
        !(step is PassiveRecall) ==> r.recall_hit is None,
{
    match step {
        GuardPlan::Identity => {
            let next = if found {
                None
            } else {
                Some(fallback_plan(text))
            };
            GuardNext { next, recall_hit: None }
        },
        GuardPlan::Memo(_) => GuardNext { next: None, recall_hit: None },
        GuardPlan::History => {
            let next = if found {
                None
            } else {
                Some(GuardPlan::PassiveRecall)
            };
            GuardNext { next, recall_hit: None }
        },
        GuardPlan::PassiveRecall => GuardNext { next: None, recall_hit: Some(found) },
    }
}

/// The identity keywords: any text holding one of 由来, 名前の意味, LLM, 頭脳,
/// 音声認識, STT or TTS is an identity question, and so is any text holding
/// 詩織 together with one of 仕組み, モデル, 記憶, 声, 使って, なんで or どうして.
/// Nothing else is.
pub proof fn lemma_identity_keywords(t: Seq<char>)
    ensures
        contains_seq(t, "由来"@) ==> identity_question(t),
        contains_seq(t, "名前の意味"@) ==> identity_question(t),
        contains_seq(t, "LLM"@) ==> identity_question(t),
        contains_seq(t, "頭脳"@) ==> identity_question(t),
        contains_seq(t, "音声認識"@) ==> identity_question(t),
        contains_seq(t, "STT"@) ==> identity_question(t),
        contains_seq(t, "TTS"@) ==> identity_question(t),
        contains_seq(t, "詩織"@) && (contains_seq(t, "仕組み"@) || contains_seq(t, "モデル"@) || contains_seq(
            t,
            "記憶"@,
        ) || contains_seq(t, "声"@) || contains_seq(t, "使って"@) || contains_seq(t, "なんで"@)
            || contains_seq(t, "どうして"@)) ==> identity_question(t),
        identity_question(t) ==> (contains_seq(t, "由来"@) || contains_seq(t, "名前の意味"@) || contains_seq(
            t,
            "LLM"@,
        ) || contains_seq(t, "頭脳"@) || contains_seq(t, "音声認識"@) || contains_seq(t, "STT"@)
            || contains_seq(t, "TTS"@) || (contains_seq(t, "詩織"@) && (contains_seq(t, "仕組み"@) || contains_seq(
            t,
            "モデル"@,
        ) || contains_seq(t, "記憶"@) || contains_seq(t, "声"@) || contains_seq(t, "使って"@) || contains_seq(
            t,
            "なんで"@,
        ) || contains_seq(t, "どうして"@)))),
{
}

} // verus!
