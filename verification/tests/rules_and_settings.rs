use shiori_folio::config::{
    apply_config_update, config_update_members, default_true, llm_model_path_value,
    load_search_backend_config, validate_config_update, with_llm_model_path, AppConfig,
    ConfigUpdateCheck, ConfigWrite, CONFIG_PARSE_FAILED, EmbeddingConfig, LlmConfig, RagConfig, SttConfig, TtsConfig,
    UiConfig,
};
use shiori_folio::library::{heading_names, library_search_filter, LibraryFileHeading, LibraryFileItem};
use shiori_folio::numbers::{i64_to_decimal, parse_u32, parse_u64, u64_to_decimal};
use shiori_folio::recording::{start, stop_and_encode_wav, toggle_recording, HotkeyOutcome, RecordingState};
use shiori_folio::text_transform::{
    apply_rules, correct_third_person_self_reference, normalize_search_query, Rule,
};

fn rule(id: &str, pattern: &str, replacement: &str) -> Rule {
    Rule { id: id.to_string(), pattern: pattern.to_string(), replacement: replacement.to_string() }
}

#[test]
fn apply_rules_replaces_every_occurrence_in_order_and_names_fired_rules() {
    let rules = vec![rule("a", "詩織は", "私は"), rule("b", "詩織が", "私が"), rule("c", "無い", "x")];
    let (out, fired) = apply_rules("詩織は詩織が好き。詩織はね", &rules);
    assert_eq!(out, "私は私が好き。私はね");
    assert_eq!(fired, vec!["a".to_string(), "b".to_string()]);
}

#[test]
fn apply_rules_with_no_rules_changes_nothing() {
    let (out, fired) = apply_rules("そのまま", &[]);
    assert_eq!(out, "そのまま");
    assert!(fired.is_empty());
}

#[test]
fn apply_rules_in_two_steps_is_apply_rules_of_the_concatenation() {
    let a = vec![rule("1", "ab", "b")];
    let b = vec![rule("2", "bb", "c")];
    let text = "aabb";
    let (mid, f1) = apply_rules(text, &a);
    let (end, f2) = apply_rules(&mid, &b);
    let all: Vec<Rule> = a.iter().cloned().chain(b.iter().cloned()).collect();
    let (once, f) = apply_rules(text, &all);
    assert_eq!(end, once);
    assert_eq!([f1, f2].concat(), f);
    assert_eq!(once, "ac");
}

#[test]
fn rules_that_could_not_be_loaded_leave_the_text_alone() {
    let err: Result<Vec<Rule>, String> = Err("読み込み失敗".to_string());
    assert_eq!(normalize_search_query("しおりの由来", &err), "しおりの由来");
    let ok = Ok(vec![rule("n", "しおり", "詩織")]);
    assert_eq!(normalize_search_query("しおりの由来", &ok), "詩織の由来");
    let (t, fired) = correct_third_person_self_reference("詩織は", &err);
    assert_eq!(t, "詩織は");
    assert!(fired.is_empty());
    let (t, fired) = correct_third_person_self_reference("詩織は", &Ok(vec![rule("p", "詩織は", "私は")]));
    assert_eq!((t.as_str(), fired), ("私は", vec!["p".to_string()]));
}

#[test]
fn decimal_texts_round_trip() {
    for n in [0u64, 7, 10, 1234567890, u64::MAX] {
        let t = u64_to_decimal(n);
        assert_eq!(t, n.to_string());
        assert_eq!(parse_u64(&t), Some(n));
    }
    assert_eq!(i64_to_decimal(-42), "-42");
    assert_eq!(i64_to_decimal(i64::MIN), i64::MIN.to_string());
    assert_eq!(parse_u32("4294967295"), Some(u32::MAX));
    assert_eq!(parse_u32("4294967296"), None);
    assert_eq!(parse_u32(""), None);
    assert_eq!(parse_u32("+1"), Some(1));
    assert_eq!(parse_u32("+"), None);
    assert_eq!(parse_u32("-1"), None);
    assert_eq!(parse_u64("12a"), None);
}

fn unchanged() -> ConfigUpdateCheck {
    ConfigUpdateCheck {
        hotkey: None,
        llm_port: None,
        llm_context_size: None,
        embedding_port: None,
        stt_port: None,
        rag_port: None,
        passive_recall_threshold_in_range: None,
        length_scale_in_range: None,
        noise_scale_in_range: None,
        noise_w_in_range: None,
    }
}

fn no_writes() -> ConfigWrite {
    ConfigWrite {
        hotkey: None,
        llm_port: None,
        llm_context_size: None,
        embedding_port: None,
        stt_port: None,
        rag_port: None,
        passive_recall_threshold: None,
        length_scale: None,
        noise_scale: None,
        noise_w: None,
        show_year: None,
        show_month: None,
        show_day: None,
        show_weekday: None,
    }
}

fn member(section: &str, key: &str, value: &str) -> (String, String, String) {
    (section.to_string(), key.to_string(), value.to_string())
}

#[test]
fn a_settings_change_writes_its_members_in_order() {
    assert!(config_update_members(&no_writes()).is_empty());
    let w = ConfigWrite {
        hotkey: Some("Ctrl+\"Q\"".to_string()),
        llm_port: Some(8090),
        llm_context_size: Some(4096),
        embedding_port: Some(8091),
        stt_port: Some(8092),
        rag_port: Some(8093),
        passive_recall_threshold: Some("0.75".to_string()),
        length_scale: Some("1.2".to_string()),
        noise_scale: Some("0.5".to_string()),
        noise_w: Some("0.8".to_string()),
        show_year: Some(false),
        show_month: Some(true),
        show_day: Some(true),
        show_weekday: Some(true),
    };
    assert_eq!(
        config_update_members(&w),
        vec![
            member("", "hotkey", "\"Ctrl+\\\"Q\\\"\""),
            member("llm", "port", "8090"),
            member("llm", "contextSize", "4096"),
            member("embedding", "port", "8091"),
            member("stt", "port", "8092"),
            member("rag", "port", "8093"),
            member("rag", "passiveRecallThreshold", "0.75"),
            member("tts", "lengthScale", "1.2"),
            member("tts", "noiseScale", "0.5"),
            member("tts", "noiseW", "0.8"),
            member("ui", "showYear", "false"),
            member("ui", "showMonth", "true"),
            member("ui", "showDay", "true"),
            member("ui", "showWeekday", "true"),
        ]
    );
}

#[test]
fn a_settings_change_rewrites_config_json() {
    let text = r#"{"hotkey":"Ctrl+Alt+S","llm":{"port":8080,"modelPath":"./m.gguf"},"rag":{"port":8082}}"#;
    let mut w = no_writes();
    w.hotkey = Some("Ctrl+Q".to_string());
    w.llm_port = Some(9000);
    w.noise_w = Some("0.8".to_string());
    w.show_weekday = Some(true);
    let out = apply_config_update(text, &unchanged(), &config_update_members(&w)).unwrap();
    let expected: serde_json::Value = serde_json::from_str(
        r#"{"hotkey":"Ctrl+Q","llm":{"port":9000,"modelPath":"./m.gguf"},"rag":{"port":8082},"tts":{"noiseW":0.8},"ui":{"showWeekday":true}}"#,
    )
    .unwrap();
    assert_eq!(out, serde_json::to_string_pretty(&expected).unwrap());
    let value: serde_json::Value = serde_json::from_str(&out).unwrap();
    assert_eq!(value["llm"]["port"], 9000);
    assert_eq!(value["tts"]["noiseW"], 0.8);

    let mut bad = unchanged();
    bad.llm_port = Some(80);
    assert_eq!(
        apply_config_update(text, &bad, &config_update_members(&w)),
        Err("ポート番号は1024以上を指定してください(指定値: 80)".to_string())
    );
    assert_eq!(
        apply_config_update("{not json", &unchanged(), &config_update_members(&w)),
        Err(CONFIG_PARSE_FAILED.to_string())
    );
    assert_eq!(
        apply_config_update("{not json", &unchanged(), &[]),
        Err(CONFIG_PARSE_FAILED.to_string())
    );
    assert_eq!(apply_config_update("{\"a\":1}", &unchanged(), &[]), Ok("{\n  \"a\": 1\n}".to_string()));
    assert_eq!(
        apply_config_update(r#"{"llm":3}"#, &unchanged(), &[member("llm", "port", "9000")]),
        Err(CONFIG_PARSE_FAILED.to_string())
    );
}

#[test]
fn switching_the_model_rewrites_its_path() {
    let out = with_llm_model_path(r#"{"llm":{"port":8080,"modelPath":"./models/llm/a.gguf"}}"#, "b.gguf").unwrap();
    let value: serde_json::Value = serde_json::from_str(&out).unwrap();
    assert_eq!(value["llm"]["modelPath"], "./models/llm/b.gguf");
    assert_eq!(value["llm"]["port"], 8080);
    assert!(out.contains('\n'));
    assert_eq!(with_llm_model_path("[1]", "b.gguf"), None);
}

#[test]
fn settings_changes_are_checked_in_order() {
    assert_eq!(validate_config_update(&unchanged()), Ok(()));
    let mut c = unchanged();
    c.llm_port = Some(1023);
    c.rag_port = Some(80);
    assert_eq!(
        validate_config_update(&c),
        Err("ポート番号は1024以上を指定してください(指定値: 1023)".to_string())
    );
    let mut c = unchanged();
    c.rag_port = Some(80);
    c.passive_recall_threshold_in_range = Some(false);
    assert_eq!(
        validate_config_update(&c),
        Err("ポート番号は1024以上を指定してください(指定値: 80)".to_string())
    );
    let mut c = unchanged();
    c.passive_recall_threshold_in_range = Some(false);
    assert_eq!(
        validate_config_update(&c),
        Err("類似度しきい値は0.0〜2.0の範囲で指定してください".to_string())
    );
    let mut c = unchanged();
    c.llm_context_size = Some(511);
    assert_eq!(
        validate_config_update(&c),
        Err("コンテキストサイズは512〜32768の範囲で指定してください".to_string())
    );
    c.llm_context_size = Some(32768);
    assert_eq!(validate_config_update(&c), Ok(()));
    let mut c = unchanged();
    c.noise_w_in_range = Some(false);
    assert_eq!(
        validate_config_update(&c),
        Err("音素幅ノイズ(noise-w)は0.1〜3.0の範囲で指定してください".to_string())
    );
    c.length_scale_in_range = Some(false);
    assert_eq!(
        validate_config_update(&c),
        Err("発話速度(length-scale)は0.1〜3.0の範囲で指定してください".to_string())
    );
    let mut c = unchanged();
    c.hotkey = Some("   ".to_string());
    assert_eq!(validate_config_update(&c), Err("ホットキーを空にはできません".to_string()));
    c.hotkey = Some("Ctrl+Alt+S".to_string());
    assert_eq!(validate_config_update(&c), Ok(()));
}

#[test]
fn configuration_defaults_and_derived_values() {
    let ui = UiConfig::default();
    assert!(ui.show_year && ui.show_month && ui.show_day && !ui.show_weekday);
    assert!(default_true());
    assert_eq!(llm_model_path_value("q.gguf"), "./models/llm/q.gguf");
    let config = AppConfig {
        hotkey: "Ctrl+Alt+S".to_string(),
        llm: LlmConfig { model_path: "m".to_string(), port: 8080, context_size: None, gpu_layers: None },
        embedding: EmbeddingConfig { model_path: "e.gguf".to_string(), port: 8081, context_size: Some(512) },
        stt: SttConfig { model_path: "s".to_string(), port: 8090 },
        rag: RagConfig { port: 8000 },
        tts: TtsConfig { model_path: "t".to_string(), config_path: "t.json".to_string() },
        ui,
    };
    let b = load_search_backend_config(&config);
    assert_eq!((b.embedding_port, b.rag_port), (8081, 8000));
    assert_eq!(b.embedding_model_path, "e.gguf");
    assert_eq!(b.embedding_context_size, Some(512));
}

#[test]
fn library_filters_and_headings() {
    let none: Option<String> = None;
    assert!(library_search_filter(&none, &none, &none).is_none());
    let f = library_search_filter(&Some("ふらる".to_string()), &none, &Some("shiori".to_string())).unwrap();
    assert_eq!(f.author, Some("ふらる".to_string()));
    assert_eq!(f.kind, None);
    assert_eq!(f.project, Some("shiori".to_string()));
    let item = LibraryFileItem {
        source: "a.md".to_string(),
        source_category: "30-resources".to_string(),
        headings: vec![
            LibraryFileHeading { heading: "一".to_string() },
            LibraryFileHeading { heading: "二".to_string() },
        ],
    };
    assert_eq!(heading_names(&item), vec!["一".to_string(), "二".to_string()]);
}

#[test]
fn recorder_reports_and_encodes() {
    let mut state = RecordingState::new();
    assert!(!state.is_recording());
    assert_eq!(
        stop_and_encode_wav(&mut state, &[], 16000, 1),
        Err("録音していません".to_string())
    );
    assert_eq!(start(&mut state, Err("マイクが無い".to_string())), Err("マイクが無い".to_string()));
    assert!(!state.is_recording());
    assert_eq!(start(&mut state, Ok(())), Ok(()));
    assert!(state.is_recording());
    let wav = stop_and_encode_wav(&mut state, &[0, 1, -1, i16::MAX], 16000, 1).unwrap();
    assert!(!state.is_recording());
    let mut expected: Vec<u8> = Vec::new();
    expected.extend_from_slice(b"RIFF");
    expected.extend_from_slice(&(8u32 + 36).to_le_bytes());
    expected.extend_from_slice(b"WAVEfmt ");
    expected.extend_from_slice(&16u32.to_le_bytes());
    expected.extend_from_slice(&[1, 0, 1, 0]);
    expected.extend_from_slice(&16000u32.to_le_bytes());
    expected.extend_from_slice(&32000u32.to_le_bytes());
    expected.extend_from_slice(&[2, 0, 16, 0]);
    expected.extend_from_slice(b"data");
    expected.extend_from_slice(&8u32.to_le_bytes());
    expected.extend_from_slice(&[0, 0, 1, 0, 0xff, 0xff, 0xff, 0x7f]);
    assert_eq!(wav, expected);

    assert_eq!(start(&mut state, Ok(())), Ok(()));
    assert_eq!(
        stop_and_encode_wav(&mut state, &[1, 2, 3], 48000, 2),
        Err("WAV確定に失敗: The number of samples written is not a multiple of the number of channels.".to_string())
    );
    assert!(!state.is_recording());
    assert!(RecordingState::default().is_recording() == false);
}

#[test]
fn more_than_two_channels_use_the_extensible_header() {
    let mut state = RecordingState::new();
    assert_eq!(start(&mut state, Ok(())), Ok(()));
    let wav = stop_and_encode_wav(&mut state, &[1, -2, 3], 8000, 3).unwrap();
    let mut expected: Vec<u8> = Vec::new();
    expected.extend_from_slice(b"RIFF");
    expected.extend_from_slice(&(6u32 + 60).to_le_bytes());
    expected.extend_from_slice(b"WAVEfmt ");
    expected.extend_from_slice(&40u32.to_le_bytes());
    expected.extend_from_slice(&[0xfe, 0xff, 3, 0]);
    expected.extend_from_slice(&8000u32.to_le_bytes());
    expected.extend_from_slice(&48000u32.to_le_bytes());
    expected.extend_from_slice(&[6, 0, 16, 0, 22, 0, 16, 0]);
    expected.extend_from_slice(&7u32.to_le_bytes());
    expected.extend_from_slice(&[0x01, 0x00, 0x00, 0x00, 0x00, 0x00, 0x10, 0x00, 0x80, 0x00, 0x00, 0xaa, 0x00, 0x38, 0x9b, 0x71]);
    expected.extend_from_slice(b"data");
    expected.extend_from_slice(&6u32.to_le_bytes());
    expected.extend_from_slice(&[1, 0, 0xfe, 0xff, 3, 0]);
    assert_eq!(wav, expected);
}

#[test]
fn the_hotkey_starts_and_stops_the_recorder() {
    let mut state = RecordingState::new();
    match toggle_recording(&mut state, Err("マイクが無い".to_string()), &[], 16000, 1) {
        HotkeyOutcome::Started(r) => assert_eq!(r, Err("マイクが無い".to_string())),
        HotkeyOutcome::Stopped(_) => panic!("a press without a recording starts one"),
    }
    assert!(!state.is_recording());
    match toggle_recording(&mut state, Ok(()), &[], 16000, 1) {
        HotkeyOutcome::Started(r) => assert_eq!(r, Ok(())),
        HotkeyOutcome::Stopped(_) => panic!("a press without a recording starts one"),
    }
    assert!(state.is_recording());
    match toggle_recording(&mut state, Ok(()), &[5, 6], 16000, 1) {
        HotkeyOutcome::Stopped(r) => {
            let wav = r.unwrap();
            assert_eq!(wav.len(), 44 + 4);
            assert_eq!(&wav[44..], &[5, 0, 6, 0]);
        }
        HotkeyOutcome::Started(_) => panic!("a press during a recording stops it"),
    }
    assert!(!state.is_recording());
}

#[test]
fn an_empty_pattern_matches_between_every_character() {
    let (out, fired) = apply_rules("ab", &[rule("e", "", "-")]);
    assert_eq!(out, "-a-b-");
    assert_eq!(fired, vec!["e".to_string()]);
}
