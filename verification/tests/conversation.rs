use shiori_folio::chat::{
    build_memo_guard_context, detected_mode, finalize_reply, hotkey_action, multipart_body, plan_memo,
    stt_idle_expired, transcript_text, turn_action, HotkeyAction, MemoOutcome, Turn, TurnAction,
    TOOL_CALL_MAX_ITERATIONS,
};
use shiori_folio::guards::{
    build_history_guard_context, build_identity_guard_context, build_passive_recall_context,
    fallback_plan, format_shelf_reference, plan_guard, search_tool_result, GuardPlan, IdentityCandidate,
    KnowledgeResultDto, HISTORY_GUARD_PREAMBLE, IDENTITY_GUARD_PREAMBLE, MEMO_GUARD_PREAMBLE,
    NOT_FOUND_MESSAGE, PASSIVE_RECALL_PREAMBLE,
};
use shiori_folio::text_transform::Rule;
use shiori_folio::tool_call::{tool_definitions, tool_query};
use shiori_folio::guards::{after_guard, guard_activity, is_history_question, is_identity_question, parse_memo_intent};
use shiori_folio::tool_call::parse_leaked_tool_call;

#[test]
fn history_guard_keyword_detection() {
    for text in [
        "詩織の声、前はどんな感じだったっけ",
        "以前はどういう構成だったの",
        "昔はもっとシンプルだった気がする",
        "かつての設計はどうなってたの",
    ] {
        assert!(is_history_question(text), "発話=\"{text}\": history_guardが発火していない");
    }
    for text in ["気持ちが変わった", "今日はいい天気だね", "詩織って何?"] {
        assert!(
            !is_history_question(text),
            "発話=\"{text}\": history_guardが誤爆している"
        );
    }
}

#[test]
fn parse_memo_intent_extracts_content() {
    assert_eq!(
        parse_memo_intent("huraru.comのベースカラーは#080C14ってメモして"),
        Some("huraru.comのベースカラーは#080C14って".to_string())
    );
    assert_eq!(
        parse_memo_intent("次のミーティングは来週水曜って記録して"),
        Some("次のミーティングは来週水曜って".to_string())
    );
    assert_eq!(
        parse_memo_intent("この設計判断の理由を覚えておいて"),
        Some("この設計判断の理由を".to_string())
    );
    assert_eq!(parse_memo_intent("メモして"), None);
    assert_eq!(parse_memo_intent("こんにちは、調子はどう？"), None);
}

#[test]
fn parse_leaked_tool_call_handles_both_formats() {
    let (name, args) = parse_leaked_tool_call(r#"search_knowledge {"query": "詩織の由来"}"#)
        .expect("パターン1を検知できていない");
    let args: serde_json::Value = serde_json::from_str(&args).unwrap();
    assert_eq!(name, "search_knowledge");
    assert_eq!(args["query"], "詩織の由来");

    let leaked = "啉\n{\"name\": \"search_knowledge\", \"arguments\": {\"query\": \"詩織の由来\"}}\n</tool_call>";
    let (name, args) = parse_leaked_tool_call(leaked).expect("パターン2を検知できていない");
    let args: serde_json::Value = serde_json::from_str(&args).unwrap();
    assert_eq!(name, "search_knowledge");
    assert_eq!(args["query"], "詩織の由来");

    assert!(parse_leaked_tool_call("こんにちは、調子はどうですか？").is_none());
}

#[test]
fn identity_guard_detects_keywords_in_any_order() {
    assert!(is_identity_question("詩織の由来って何だっけ"));
    assert!(is_identity_question("詩織ってなんでその名前なの"));
    assert!(is_identity_question("詩織はどのLLMを使ってるの？"));
    assert!(!is_identity_question("このライブラリ、まだ使ってる？"));
    assert!(!is_identity_question("最近のモデル、性能上がったよね"));
    assert!(!is_identity_question("今日の天気はどう？"));
}

#[test]
fn parse_memo_intent_trims_whitespace_and_punctuation() {
    assert_eq!(parse_memo_intent("  明日は雨。、 メモして "), Some("明日は雨".to_string()));
    assert_eq!(parse_memo_intent("メモして。"), None);
    assert_eq!(
        parse_memo_intent("Aをメモして、Bもメモして"),
        Some("Aを、Bもメモして".to_string())
    );
}

#[test]
fn parse_leaked_tool_call_accepts_parenthesised_call_and_rejects_unknown_tools() {
    let (name, args) =
        parse_leaked_tool_call("  search_knowledge ({\"query\":\"a\"})").expect("括弧付き");
    assert_eq!(name, "search_knowledge");
    assert_eq!(args, "{\"query\":\"a\"}");
    assert!(parse_leaked_tool_call("{\"name\": \"update_task\", \"arguments\": {}}").is_none());
    assert!(parse_leaked_tool_call("search_knowledge } {").is_none());
}


fn hit(id: &str, heading: &str) -> KnowledgeResultDto {
    KnowledgeResultDto {
        id: id.to_string(),
        text: "本文".to_string(),
        source: format!("{id}.md"),
        heading: heading.to_string(),
        source_category: "30-resources".to_string(),
    }
}

#[test]
fn guards_are_checked_in_order() {
    assert!(matches!(plan_guard("詩織の由来をメモして"), GuardPlan::Identity));
    assert!(matches!(plan_guard("前は赤だったってメモして"), GuardPlan::Memo(c) if c == "前は赤だったって"));
    assert!(matches!(plan_guard("前はどうだった?"), GuardPlan::History));
    assert!(matches!(plan_guard("こんにちは"), GuardPlan::PassiveRecall));
    // When the identity search cannot run, the other guards are tried in order.
    assert!(matches!(fallback_plan("詩織の由来をメモして"), GuardPlan::Memo(c) if c == "詩織の由来を"));
    assert!(matches!(fallback_plan("詩織の声、前はどうだった?"), GuardPlan::History));
    assert!(matches!(fallback_plan("詩織の由来は?"), GuardPlan::PassiveRecall));
}

#[test]
fn each_guard_gives_way_to_the_next_until_one_finds_something() {
    let text = "詩織の声、前はどうだった?";
    assert!(matches!(plan_guard(text), GuardPlan::Identity));
    assert_eq!(guard_activity(&GuardPlan::Identity), Some("search_knowledge".to_string()));
    let after = after_guard(text, &GuardPlan::Identity, false);
    assert!(matches!(after.next, Some(GuardPlan::History)));
    assert_eq!(after.recall_hit, None);
    assert_eq!(guard_activity(&GuardPlan::History), Some("search_knowledge".to_string()));
    let after = after_guard(text, &GuardPlan::History, false);
    assert!(matches!(after.next, Some(GuardPlan::PassiveRecall)));
    assert_eq!(guard_activity(&GuardPlan::PassiveRecall), None);
    let after = after_guard(text, &GuardPlan::PassiveRecall, false);
    assert!(after.next.is_none());
    assert_eq!(after.recall_hit, Some(false));

    assert!(after_guard(text, &GuardPlan::Identity, true).next.is_none());
    assert!(after_guard(text, &GuardPlan::History, true).next.is_none());
    assert_eq!(after_guard("こんにちは", &GuardPlan::PassiveRecall, true).recall_hit, Some(true));
    let memo = GuardPlan::Memo("牛乳".to_string());
    assert_eq!(guard_activity(&memo), Some("memo".to_string()));
    let after = after_guard("牛乳をメモして", &memo, true);
    assert!(after.next.is_none());
    assert_eq!(after.recall_hit, None);
    let after = after_guard("詩織の由来をメモして", &GuardPlan::Identity, false);
    assert!(matches!(after.next, Some(GuardPlan::Memo(c)) if c == "詩織の由来を"));
}

#[test]
fn shelf_contexts_name_only_where_notes_are() {
    assert_eq!(
        format_shelf_reference(&hit("a", "見出し")),
        "[a.md] 見出し(分類: 30-resources)"
    );
    let mut sources = None;
    assert!(build_passive_recall_context(vec![], &mut sources).is_none());
    assert!(sources.is_none());
    let ctx = build_passive_recall_context(vec![hit("a", "x"), hit("b", "y")], &mut sources).unwrap();
    assert_eq!(
        ctx,
        format!("{PASSIVE_RECALL_PREAMBLE}[a.md] x(分類: 30-resources)\n\n[b.md] y(分類: 30-resources)")
    );
    assert_eq!(sources.as_ref().map(|s| s.len()), Some(2));

    let mut sources = None;
    assert_eq!(search_tool_result(vec![], &mut sources), NOT_FOUND_MESSAGE);
    assert!(sources.is_none());
}

#[test]
fn identity_guard_keeps_only_headings_about_shiori_within_the_ceiling() {
    let cands = vec![
        IdentityCandidate { item: hit("a", "詩織の名前"), within_distance_ceiling: true },
        IdentityCandidate { item: hit("b", "別の話"), within_distance_ceiling: true },
        IdentityCandidate { item: hit("c", "詩織の声"), within_distance_ceiling: false },
    ];
    let mut sources = None;
    let ctx = build_identity_guard_context(cands, &mut sources);
    assert_eq!(ctx, format!("{IDENTITY_GUARD_PREAMBLE}[a.md] 詩織の名前(分類: 30-resources)"));
    assert_eq!(sources.unwrap()[0].id, "a");

    let mut sources = None;
    let ctx = build_identity_guard_context(vec![], &mut sources);
    assert_eq!(ctx, format!("{IDENTITY_GUARD_PREAMBLE}{NOT_FOUND_MESSAGE}"));
    assert!(sources.is_none());
}

#[test]
fn history_guard_keeps_at_most_five_results() {
    let hits: Vec<_> = (0..7).map(|i| hit(&format!("h{i}"), "経緯")).collect();
    let mut sources = None;
    let ctx = build_history_guard_context(hits, &mut sources);
    assert!(ctx.starts_with(HISTORY_GUARD_PREAMBLE));
    assert_eq!(ctx.matches("[h").count(), 5);
    assert_eq!(sources.unwrap().len(), 5);
}

#[test]
fn memo_is_planned_and_reported() {
    let p = plan_memo("今日魚を食べた", 1700000000, "2026-01-02");
    assert_eq!(p.file_name, "memo-1700000000.md");
    assert_eq!(p.chunk_id, "memo-memo-1700000000-0");
    assert_eq!(p.heading, "今日魚を食べた");
    assert_eq!(
        p.markdown,
        "---\ntype: メモ\ndate: 2026-01-02\ntags: []\n---\n\n## 今日魚を食べた\n\n今日魚を食べた\n"
    );
    let long: String = std::iter::repeat('あ').take(50).collect();
    assert_eq!(plan_memo(&long, -5, "d").heading.chars().count(), 40);
    assert_eq!(plan_memo("x", -5, "d").file_name, "memo--5.md");

    let mut sources = None;
    let ctx = build_memo_guard_context(plan_memo("m", 1, "d"), "m", MemoOutcome::Saved, &mut sources);
    assert_eq!(ctx, format!("{MEMO_GUARD_PREAMBLE}「m」という内容をメモとして保存しました。"));
    let s = sources.unwrap();
    assert_eq!((s[0].id.as_str(), s[0].source.as_str(), s[0].source_category.as_str()), ("memo-memo-1-0", "memo-1.md", "00-inbox"));

    let mut sources = None;
    let ctx = build_memo_guard_context(plan_memo("m", 1, "d"), "m", MemoOutcome::IndexFailed("E".to_string()), &mut sources);
    assert_eq!(
        ctx,
        format!("{MEMO_GUARD_PREAMBLE}メモファイル(memo-1.md)への保存はできましたが、検索用データベースへの即時登録に失敗しました: E")
    );
    assert!(sources.is_none());
    let ctx = build_memo_guard_context(plan_memo("m", 1, "d"), "m", MemoOutcome::WriteFailed("W".to_string()), &mut sources);
    assert_eq!(ctx, format!("{MEMO_GUARD_PREAMBLE}メモの保存に失敗しました: W"));
}

#[test]
fn reply_mode_and_fallbacks() {
    let search = Some("search_knowledge".to_string());
    let memo = Some("memo".to_string());
    assert_eq!(detected_mode(&search), "search");
    assert_eq!(detected_mode(&memo), "memo");
    assert_eq!(detected_mode(&None), "chat");
    assert_eq!(detected_mode(&Some("other".to_string())), "chat");
    assert_eq!(finalize_reply("答え", &search), "答え");
    assert_eq!(finalize_reply("  \n", &search), "調べてみたよ。");
    assert_eq!(finalize_reply("", &memo), "メモしておいたよ。");
    assert_eq!(finalize_reply("", &None), "うまく応答できなかったみたい、もう一度言ってもらえる?");
    assert!(matches!(turn_action(true, "x"), TurnAction::RunToolCalls));
    assert!(matches!(turn_action(false, "普通の答え"), TurnAction::Finish(c) if c == "普通の答え"));
    assert!(matches!(
        turn_action(false, "search_knowledge {\"query\": \"q\"}"),
        TurnAction::RunLeakedCall(n, a) if n == "search_knowledge" && a == "{\"query\":\"q\"}"
    ));
}

fn rule(id: &str, pattern: &str, replacement: &str) -> Rule {
    Rule { id: id.to_string(), pattern: pattern.to_string(), replacement: replacement.to_string() }
}

#[test]
fn a_turn_ends_with_an_answer_or_after_the_limit() {
    let mut t = Turn::new(None);
    assert!(t.wants_reply());
    assert!(matches!(t.on_reply(true, ""), TurnAction::RunToolCalls));
    t.on_tool_call("search_knowledge");
    assert!(t.wants_reply());
    assert!(matches!(t.on_reply(false, "詩織は元気です"), TurnAction::Finish(_)));
    assert!(!t.wants_reply());
    let rules = Ok(vec![rule("r1", "詩織は", "私は")]);
    let (reply, mode) = t.finish(&rules);
    assert_eq!(reply, "私は元気です");
    assert_eq!(mode, "search");

    let mut t = Turn::new(Some("memo".to_string()));
    let mut asked = 0;
    while t.wants_reply() {
        asked += 1;
        let _ = t.on_reply(false, "search_knowledge {\"query\": \"q\"}");
    }
    assert_eq!(asked, TOOL_CALL_MAX_ITERATIONS);
    let (reply, mode) = t.finish(&Err("no rules".to_string()));
    assert_eq!(reply, "調べてみたよ。");
    assert_eq!(mode, "search");

    let t = Turn::new(Some("memo".to_string()));
    let (reply, mode) = t.finish(&Err("no rules".to_string()));
    assert_eq!((reply.as_str(), mode.as_str()), ("メモしておいたよ。", "memo"));
}

#[test]
fn tool_calls_name_their_query() {
    assert_eq!(tool_query("search_knowledge", "{\"query\": \"由来\"}"), Ok("由来".to_string()));
    assert_eq!(tool_query("search_knowledge", "{}"), Ok(String::new()));
    assert_eq!(tool_query("search_knowledge", "{\"query\": 5}"), Ok(String::new()));
    assert_eq!(tool_query("search_knowledge", "not json"), Ok(String::new()));
    assert_eq!(tool_query("update_task", "{}"), Err("未知のツール: update_task".to_string()));
}

#[test]
fn speech_recognition_request_and_hotkey() {
    let body = multipart_body(b"RIFF");
    let text = String::from_utf8(body).unwrap();
    assert_eq!(
        text,
        "------shiorifolioboundary\r\nContent-Disposition: form-data; name=\"file\"; filename=\"audio.wav\"\r\nContent-Type: audio/wav\r\n\r\nRIFF\r\n------shiorifolioboundary--\r\n"
    );
    assert_eq!(transcript_text("  こんにちは \n").text, "こんにちは");
    assert!(matches!(hotkey_action(false), HotkeyAction::StartRecording));
    assert!(matches!(hotkey_action(true), HotkeyAction::StopAndTranscribe));
    assert!(!stt_idle_expired(14999));
    assert!(stt_idle_expired(15000));
}

#[test]
fn contexts_never_carry_note_bodies() {
    let mut a = hit("a", "見出し");
    a.text = "秘密の本文".to_string();
    let mut b = hit("a", "見出し");
    b.text = "別の本文".to_string();
    b.id = "other-id".to_string();
    let (mut s1, mut s2) = (None, None);
    let c1 = build_passive_recall_context(vec![a], &mut s1).unwrap();
    let c2 = build_passive_recall_context(vec![b], &mut s2).unwrap();
    assert_eq!(c1, c2);
    assert!(!c1.contains("秘密の本文"));
}

#[test]
fn tool_definitions_are_sent_as_one_array() {
    let texts = vec!["{ \"type\": \"function\",\n  \"name\": \"search_knowledge\" }".to_string(), "[1, 2]".to_string()];
    assert_eq!(
        tool_definitions(&texts),
        Ok("[{\"name\":\"search_knowledge\",\"type\":\"function\"},[1,2]]".to_string())
    );
    assert_eq!(tool_definitions(&[]), Ok("[]".to_string()));
    let texts = vec!["{}".to_string(), "{oops".to_string(), "also bad".to_string()];
    assert_eq!(tool_definitions(&texts), Err(1));
}
