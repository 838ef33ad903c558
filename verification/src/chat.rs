//! The decisions of one conversation turn: which tool was active, what mode
//! the turn is reported as, what to do with each reply of the model, how a
//! memo is written down, and the transcription request.
use vstd::prelude::*;

use crate::guards::{KnowledgeResultDto, MEMO_GUARD_PREAMBLE};
use crate::numbers::{i64_to_decimal, signed_decimal};
use crate::text::{chars_of, str_eq, string_of, trim, trim_class_chars, CharClass};
use crate::tool_call::{leaked_tool_call, parse_leaked_tool_call};
use crate::text_transform::{apply_rules_spec, correct_third_person_self_reference, rules_view, Rule};

verus! {

/// The reply of a turn as the window shows it.
pub struct SendMessageReply {
    pub reply: String,
    pub sources: Option<Vec<KnowledgeResultDto>>,
    pub detected_mode: String,
}

/// The mode a turn is reported as: `search` after the search tool, `memo`
/// after a memo, else `chat`.
pub open spec fn detected_mode_spec(active_tool: Option<Seq<char>>) -> Seq<char> {
    if active_tool == Some("search_knowledge"@) {
        "search"@
    } else if active_tool == Some("memo"@) {
        "memo"@
    } else {
        "chat"@
    }
}

/// The view of an optional string.
pub open spec fn opt_str(o: Option<String>) -> Option<Seq<char>> {
    match o {
        Some(s) => Some(s@),
        None => None,
    }
}

fn is_tool(active_tool: &Option<String>, name: &str) -> (b: bool)
    ensures
        b == (opt_str(*active_tool) == Some(name@)),
{
    match active_tool {
        Some(t) => str_eq(t.as_str(), name),
        None => false,
    }
}

/// The mode a turn is reported as (see `detected_mode_spec`).
pub fn detected_mode(active_tool: &Option<String>) -> (s: String)
    ensures
        s@ == detected_mode_spec(opt_str(*active_tool)),
{
    if is_tool(active_tool, "search_knowledge") {
        String::from_str("search")
    } else if is_tool(active_tool, "memo") {
        String::from_str("memo")
    } else {
        String::from_str("chat")
    }
}

/// What is said when the model gave no usable answer: depends on the tool that
/// was active.
pub open spec fn fallback_reply_spec(active_tool: Option<Seq<char>>) -> Seq<char> {
    if active_tool == Some("search_knowledge"@) {
        "調べてみたよ。"@
    } else if active_tool == Some("memo"@) {
        "メモしておいたよ。"@
    } else {
        "うまく応答できなかったみたい、もう一度言ってもらえる?"@
    }
}

/// The reply of a turn: the model's answer, or the fallback when it is blank.
pub fn finalize_reply(final_content: &str, active_tool: &Option<String>) -> (s: String)
    ensures
        trim(final_content@).len() > 0 ==> s@ == final_content@,
        trim(final_content@).len() == 0 ==> s@ == fallback_reply_spec(opt_str(*active_tool)),
{
    let v = chars_of(final_content);
    let t = trim_class_chars(v.as_slice(), CharClass::Whitespace);
    if t.len() > 0 {
        return final_content.to_string();
    }
    if is_tool(active_tool, "search_knowledge") {
        String::from_str("調べてみたよ。")
    } else if is_tool(active_tool, "memo") {
        String::from_str("メモしておいたよ。")
    } else {
        String::from_str("うまく応答できなかったみたい、もう一度言ってもらえる?")
    }
}

/// What to do with one reply of the model.
pub enum TurnAction {
    /// The reply is the answer.
    Finish(String),
    /// The reply carried a tool call as text: run it (name, arguments JSON) and ask again.
    RunLeakedCall(String, String),
    /// The reply issued tool calls: run each and ask again.
    RunToolCalls,
}

/// The decision on a reply: issued tool calls are run; otherwise a tool call
/// written into the text is run; otherwise the text is the answer.
pub fn turn_action(has_tool_calls: bool, content: &str) -> (a: TurnAction)
    ensures
        has_tool_calls ==> a is RunToolCalls,
        !has_tool_calls && leaked_tool_call(content@) is Some ==> (a matches TurnAction::RunLeakedCall(n, args)
            && leaked_tool_call(content@) == Some((n@, args@))),
        !has_tool_calls && leaked_tool_call(content@) is None ==> (a matches TurnAction::Finish(c)
            && c@ == content@),
{
    if has_tool_calls {
        return TurnAction::RunToolCalls;
    }
    match parse_leaked_tool_call(content) {
        Some((name, args)) => TurnAction::RunLeakedCall(name, args),
        None => TurnAction::Finish(content.to_string()),
    }
}

/// How many replies of the model a turn waits for at most.
pub const TOOL_CALL_MAX_ITERATIONS: u32 = 4;

/// What a turn has seen so far: how many replies of the model, which tool was
/// last run, and the answer once there is one.
pub struct TurnView {
    pub replies: nat,
    pub active_tool: Option<Seq<char>>,
    pub answer: Option<Seq<char>>,
}

impl TurnView {
    /// A turn never waits for more replies than the limit.
    pub open spec fn wf(self) -> bool {
        self.replies <= TOOL_CALL_MAX_ITERATIONS
    }

    /// The model is asked again while there is no answer and the limit is not
    /// reached.
    pub open spec fn wants_reply(self) -> bool {
        self.answer is None && self.replies < TOOL_CALL_MAX_ITERATIONS
    }

    /// The reply before the self-reference correction: the answer, or the
    /// fallback of the active tool when there is no answer or it is blank.
    pub open spec fn base_reply(self) -> Seq<char> {
        let content = match self.answer {
            Some(a) => a,
            None => Seq::empty(),
        };
        if trim(content).len() > 0 {
            content
        } else {
            fallback_reply_spec(self.active_tool)
        }
    }
}

/// One conversation turn while the model is being asked: the outside loop
/// asks the model while `wants_reply` holds, hands each reply to `on_reply`,
/// reports each tool it runs with `on_tool_call`, and ends with `finish`.
pub struct Turn {
    replies: u32,
    active_tool: Option<String>,
    answer: Option<String>,
}

impl View for Turn {
    type V = TurnView;

    closed spec fn view(&self) -> TurnView {
        TurnView { replies: self.replies as nat, active_tool: opt_str(self.active_tool), answer: opt_str(self.answer) }
    }
}

impl Turn {
    /// A turn that has not asked the model yet; `guard_tool` is the tool a
    /// guard already ran for it, if any.
    pub fn new(guard_tool: Option<String>) -> (t: Self)
        ensures
            t@ == (TurnView { replies: 0, active_tool: opt_str(guard_tool), answer: None }),
            t@.wf(),
    {
        Turn { replies: 0, active_tool: guard_tool, answer: None }
    }

    /// Whether the model is to be asked (again).
    pub fn wants_reply(&self) -> (b: bool)
        ensures
            b == self@.wants_reply(),
    {
        self.answer.is_none() && self.replies < TOOL_CALL_MAX_ITERATIONS
    }

    /// Takes one reply of the model and says what to do with it (see
    /// `turn_action`). An answer ends the turn; a tool call written into the
    /// text makes that tool the active one.
    pub fn on_reply(&mut self, has_tool_calls: bool, content: &str) -> (a: TurnAction)
        requires
            old(self)@.wants_reply(),
        ensures
            final(self)@.wf(),
            final(self)@.replies == old(self)@.replies + 1,
            has_tool_calls ==> a is RunToolCalls,
            !has_tool_calls && leaked_tool_call(content@) is Some ==> (a matches TurnAction::RunLeakedCall(n, args)
                && leaked_tool_call(content@) == Some((n@, args@))),
            !has_tool_calls && leaked_tool_call(content@) is None ==> (a matches TurnAction::Finish(c)
                && c@ == content@),
            a matches TurnAction::Finish(c) ==> final(self)@.answer == Some(c@)
                && final(self)@.active_tool == old(self)@.active_tool,
            a matches TurnAction::RunLeakedCall(n, _) ==> final(self)@.answer is None
                && final(self)@.active_tool == Some(n@),
            a is RunToolCalls ==> final(self)@.answer is None && final(self)@.active_tool
                == old(self)@.active_tool,
    {
        self.replies = self.replies + 1;
        let a = turn_action(has_tool_calls, content);
        match &a {
            TurnAction::Finish(c) => {
                self.answer = Some(c.clone());
            },
            TurnAction::RunLeakedCall(n, _) => {
                self.active_tool = Some(n.clone());
            },
            TurnAction::RunToolCalls => {},
        }
        a
    }

    /// Records that the tool `name` is being run for an issued tool call.
    pub fn on_tool_call(&mut self, name: &str)
        requires
            old(self)@.wf(),
        ensures
            final(self)@ == (TurnView { active_tool: Some(name@), ..old(self)@ }),
            final(self)@.wf(),
    {
        self.active_tool = Some(name.to_string());
    }

    /// The reply and mode of the finished turn: the answer (or the active
    /// tool's fallback) corrected by the self-reference rules, when they could
    /// be loaded, and the mode of the active tool.
    pub fn finish(self, rules: &Result<Vec<Rule>, String>) -> (r: (String, String))
        ensures
            match rules {
                Ok(rs) => r.0@ == apply_rules_spec(self@.base_reply(), rules_view(rs@)).0,
                Err(_) => r.0@ == self@.base_reply(),
            },
            r.1@ == detected_mode_spec(self@.active_tool),
    {
        let content = match &self.answer {
            Some(a) => a.clone(),
            None => String::new(),
        };
        let base = finalize_reply(content.as_str(), &self.active_tool);
        let corrected = correct_third_person_self_reference(base.as_str(), rules);
        let mode = detected_mode(&self.active_tool);
        (corrected.0, mode)
    }
}

/// A turn ends: once it wants no more replies, none is asked for however the
/// replies go, and it never takes more than the limit.
pub proof fn lemma_turn_bounded(t: TurnView)
    requires
        t.wf(),
    ensures
        t.replies == TOOL_CALL_MAX_ITERATIONS ==> !t.wants_reply(),
        t.wants_reply() ==> t.replies + 1 <= TOOL_CALL_MAX_ITERATIONS,
{
}

/// The names of a memo saved at a given time.
pub struct MemoPlan {
    /// `memo-<timestamp>.md`.
    pub file_name: String,
    /// `memo-memo-<timestamp>-0`.
    pub chunk_id: String,
    /// The first 40 characters of the memo.
    pub heading: String,
    /// The Markdown file written to the inbox.
    pub markdown: String,
}

/// The Markdown of a memo: a frontmatter of type メモ with the date and no
/// tags, then the heading and the memo.
pub open spec fn memo_markdown(date: Seq<char>, heading: Seq<char>, content: Seq<char>) -> Seq<char> {
    "---\ntype: メモ\ndate: "@ + date + "\ntags: []\n---\n\n## "@ + heading + "\n\n"@ + content
        + "\n"@
}

/// The names and text of a memo saved at `timestamp` (Unix seconds) on `date`
/// (`YYYY-MM-DD`).
pub fn plan_memo(content: &str, timestamp: i64, date: &str) -> (p: MemoPlan)
    ensures
        p.file_name@ == "memo-"@ + signed_decimal(timestamp as int) + ".md"@,
        p.chunk_id@ == "memo-memo-"@ + signed_decimal(timestamp as int) + "-0"@,
        p.heading@ == (if content@.len() > 40 {
            content@.take(40)
        } else {
            content@
        }),
        p.markdown@ == memo_markdown(date@, p.heading@, content@),
{
    let ts = i64_to_decimal(timestamp);
    let mut stem = String::from_str("memo-");
    stem.append(ts.as_str());
    let mut file_name = stem.clone();
    file_name.append(".md");
    let mut chunk_id = String::from_str("memo-");
    chunk_id.append(stem.as_str());
    chunk_id.append("-0");
    let c = chars_of(content);
    let n: usize = if c.len() > 40 {
        40
    } else {
        c.len()
    };
    let h = crate::text::sub_chars(c.as_slice(), 0, n);
    let heading = string_of(h.as_slice());
    let mut markdown = String::from_str("---\ntype: メモ\ndate: ");
    markdown.append(date);
    markdown.append("\ntags: []\n---\n\n## ");
    markdown.append(heading.as_str());
    markdown.append("\n\n");
    markdown.append(content);
    markdown.append("\n");
    proof {
        reveal_strlit("memo-");
    }
    assert(chunk_id@ =~= "memo-memo-"@ + signed_decimal(timestamp as int) + "-0"@) by {
        reveal_strlit("memo-memo-");
    }
    if c.len() <= 40 {
        assert(h@ =~= content@);
    }
    MemoPlan { file_name, chunk_id, heading, markdown }
}

/// How saving a memo went.
pub enum MemoOutcome {
    /// Written to the inbox and added to the search index.
    Saved,
    /// Written, but adding it to the index failed with this message.
    IndexFailed(String),
    /// Not written; the message says why.
    WriteFailed(String),
}

/// What the memo tool reports to the model.
pub open spec fn memo_result_spec(content: Seq<char>, file_name: Seq<char>, outcome: MemoOutcome) -> Seq<char> {
    match outcome {
        MemoOutcome::Saved => "「"@ + content + "」という内容をメモとして保存しました。"@,
        MemoOutcome::IndexFailed(e) => "メモファイル("@ + file_name
            + ")への保存はできましたが、検索用データベースへの即時登録に失敗しました: "@ + e@,
        MemoOutcome::WriteFailed(e) => "メモの保存に失敗しました: "@ + e@,
    }
}

/// The memo guard's context: the preamble and the result; a saved memo becomes
/// the only source (in the inbox category, under the plan's names).
pub fn build_memo_guard_context(
    plan: MemoPlan,
    content: &str,
    outcome: MemoOutcome,
    sources_out: &mut Option<Vec<KnowledgeResultDto>>,
) -> (r: String)
    ensures
        r@ == MEMO_GUARD_PREAMBLE@ + memo_result_spec(content@, plan.file_name@, outcome),
        outcome is Saved ==> (*final(sources_out) matches Some(v) && v@.len() == 1 && v@[0].id
            == plan.chunk_id && v@[0].text@ == content@ && v@[0].source == plan.file_name
            && v@[0].heading == plan.heading && v@[0].source_category@ == "00-inbox"@),
        !(outcome is Saved) ==> *final(sources_out) == *old(sources_out),
{
    let ghost fname = plan.file_name@;
    let tool_result = match outcome {
        MemoOutcome::Saved => {
            let mut t = String::from_str("「");
            t.append(content);
            t.append("」という内容をメモとして保存しました。");
            *sources_out = Some(
                vec![KnowledgeResultDto {
                    id: plan.chunk_id,
                    text: content.to_string(),
                    source: plan.file_name,
                    heading: plan.heading,
                    source_category: String::from_str("00-inbox"),
                }],
            );
            t
        },
        MemoOutcome::IndexFailed(e) => {
            let mut t = String::from_str("メモファイル(");
            t.append(plan.file_name.as_str());
            t.append(")への保存はできましたが、検索用データベースへの即時登録に失敗しました: ");
            t.append(e.as_str());
            t
        },
        MemoOutcome::WriteFailed(e) => {
            let mut t = String::from_str("メモの保存に失敗しました: ");
            t.append(e.as_str());
            t
        },
    };
    let mut context = String::from_str(MEMO_GUARD_PREAMBLE);
    context.append(tool_result.as_str());
    context
}

/// The recognised text of an utterance.
pub struct TranscribeResult {
    pub text: String,
}

/// The multipart boundary of a transcription request.
pub const MULTIPART_BOUNDARY: &'static str = "----shiorifolioboundary";

/// The bytes of an ASCII literal.
fn ascii_bytes(s: &str) -> (v: Vec<u8>)
    requires
        s.is_ascii(),
    ensures
        v@ == s@.map_values(|c: char| c as u8),
{
    let n = s.unicode_len();
    let mut v: Vec<u8> = Vec::new();
    let mut i: usize = 0;
    while i < n
        invariant
            n == s@.len(),
            s.is_ascii(),
            i <= n,
            v@ == s@.take(i as int).map_values(|c: char| c as u8),
        decreases n - i,
    {
        let b = s.get_ascii(i);
        v.push(b);
        i = i + 1;
        assert(v@ =~= s@.take(i as int).map_values(|c: char| c as u8));
    }
    assert(s@.take(n as int) =~= s@);
    v
}

fn append_bytes(out: &mut Vec<u8>, b: &[u8])
    ensures
        final(out)@ == old(out)@ + b@,
{
    let mut k: usize = 0;
    while k < b.len()
        invariant
            k <= b@.len(),
            out@ == old(out)@ + b@.take(k as int),
        decreases b@.len() - k,
    {
        out.push(b[k]);
        k = k + 1;
        assert(out@ =~= old(out)@ + b@.take(k as int));
    }
    assert(b@.take(b@.len() as int) =~= b@);
}

/// The bytes of a literal made of ASCII characters.
pub open spec fn ascii_of(s: Seq<char>) -> Seq<u8> {
    s.map_values(|c: char| c as u8)
}

/// The multipart body of a transcription request: one part named `file`
/// (`audio.wav`, `audio/wav`) holding the WAV bytes.
pub open spec fn multipart_body_spec(wav: Seq<u8>) -> Seq<u8> {
    ascii_of("------shiorifolioboundary\r\n"@) + ascii_of(
        "Content-Disposition: form-data; name=\"file\"; filename=\"audio.wav\"\r\n"@,
    ) + ascii_of("Content-Type: audio/wav\r\n\r\n"@) + wav + ascii_of(
        "\r\n------shiorifolioboundary--\r\n"@,
    )
}

/// The multipart body of a transcription request (see `multipart_body_spec`).
pub fn multipart_body(wav: &[u8]) -> (body: Vec<u8>)
    ensures
        body@ == multipart_body_spec(wav@),
{
    proof {
        reveal_strlit("------shiorifolioboundary\r\n");
        reveal_strlit("Content-Disposition: form-data; name=\"file\"; filename=\"audio.wav\"\r\n");
        reveal_strlit("Content-Type: audio/wav\r\n\r\n");
        reveal_strlit("\r\n------shiorifolioboundary--\r\n");
    }
    let mut body = ascii_bytes("------shiorifolioboundary\r\n");
    let b2 = ascii_bytes("Content-Disposition: form-data; name=\"file\"; filename=\"audio.wav\"\r\n");
    append_bytes(&mut body, b2.as_slice());
    let b3 = ascii_bytes("Content-Type: audio/wav\r\n\r\n");
    append_bytes(&mut body, b3.as_slice());
    append_bytes(&mut body, wav);
    let b4 = ascii_bytes("\r\n------shiorifolioboundary--\r\n");
    append_bytes(&mut body, b4.as_slice());
    body
}

/// The recognised text, trimmed.
pub fn transcript_text(raw: &str) -> (r: TranscribeResult)
    ensures
        r.text@ == trim(raw@),
{
    let v = chars_of(raw);
    let t = trim_class_chars(v.as_slice(), CharClass::Whitespace);
    TranscribeResult { text: string_of(t.as_slice()) }
}

/// The greeting of the window's sample command.
pub fn greet(name: &str) -> (s: String)
    ensures
        s@ == "Hello, "@ + name@ + "! You've been greeted from Rust!"@,
{
    let mut s = String::from_str("Hello, ");
    s.append(name);
    s.append("! You've been greeted from Rust!");
    s
}

/// What a hotkey press does.
pub enum HotkeyAction {
    StartRecording,
    StopAndTranscribe,
}

/// A press starts recording when none is running, and otherwise stops it and
/// transcribes.
pub fn hotkey_action(is_recording: bool) -> (a: HotkeyAction)
    ensures
        !is_recording ==> a is StartRecording,
        is_recording ==> a is StopAndTranscribe,
{
    if is_recording {
        HotkeyAction::StopAndTranscribe
    } else {
        HotkeyAction::StartRecording
    }
}

/// How long speech recognition may stay idle before it is stopped (milliseconds).
pub const STT_IDLE_TIMEOUT_MS: u64 = 15000;

/// Speech recognition is stopped once it has been idle for the timeout.
pub fn stt_idle_expired(idle_ms: u64) -> (b: bool)
    ensures
        b == (idle_ms >= STT_IDLE_TIMEOUT_MS),
{
    idle_ms >= STT_IDLE_TIMEOUT_MS
}

} // verus!
