use shiori_folio::pending::{
    inbox_item_listed, is_markdown_extension, pending_action_to_status, pending_projects,
    pending_resolution, pending_tags, validate_plain_filename, PendingResolution, YamlProjectEntry,
    YamlTagEntry,
};
use shiori_folio::yaml_edit::{
    find_yaml_list_item_range, remove_yaml_list_item, rewrite_inbox_review_status,
    rewrite_yaml_status,
};

const SAMPLE_TAGS_YAML: &str = "# ヘッダーコメント1行目\n# ヘッダーコメント2行目\ntags:\n  - canonical: 詩織\n    aliases: [shiori]\n    status: confirmed\n  - canonical: 新タグ\n    aliases: []\n    status: pending\n";

#[test]
fn rewrite_yaml_status_updates_only_target_entry() {
    let result = rewrite_yaml_status(SAMPLE_TAGS_YAML, "canonical", "新タグ", "confirmed").unwrap();
    assert!(result.contains("# ヘッダーコメント1行目"), "先頭コメントが保持されていない");
    assert!(
        result.contains("canonical: 詩織\n    aliases: [shiori]\n    status: confirmed"),
        "既存エントリが変化した"
    );
    assert!(
        result.contains("canonical: 新タグ\n    aliases: []\n    status: confirmed"),
        "対象エントリが書き換わっていない"
    );
}

#[test]
fn remove_yaml_list_item_removes_only_target_entry() {
    let result = remove_yaml_list_item(SAMPLE_TAGS_YAML, "canonical", "新タグ").unwrap();
    assert!(result.contains("# ヘッダーコメント1行目"), "先頭コメントが保持されていない");
    assert!(result.contains("canonical: 詩織"), "既存エントリが消えた");
    assert!(!result.contains("新タグ"), "対象エントリが削除されていない");
}

#[test]
fn rewrite_inbox_review_status_inserts_when_absent() {
    let content = "---\ntitle: テスト\nreason: タグが空でした\n---\n\n本文\n";
    let result = rewrite_inbox_review_status(content, "deferred").unwrap();
    assert!(result.contains("review_status: deferred"));
    assert!(result.contains("本文"), "本文が保持されていない");
}

#[test]
fn rewrite_inbox_review_status_replaces_when_present() {
    let content = "---\ntitle: テスト\nreview_status: deferred\n---\n\n本文\n";
    let result = rewrite_inbox_review_status(content, "confirmed").unwrap();
    assert!(result.contains("review_status: confirmed"));
    assert!(!result.contains("review_status: deferred"));
}

#[test]
fn rewrite_yaml_status_gives_exact_text_and_keeps_final_newline() {
    let result = rewrite_yaml_status(SAMPLE_TAGS_YAML, "canonical", "新タグ", "deferred").unwrap();
    assert_eq!(
        result,
        "# ヘッダーコメント1行目\n# ヘッダーコメント2行目\ntags:\n  - canonical: 詩織\n    aliases: [shiori]\n    status: confirmed\n  - canonical: 新タグ\n    aliases: []\n    status: deferred\n"
    );
    let no_newline = SAMPLE_TAGS_YAML.trim_end();
    let result = rewrite_yaml_status(no_newline, "canonical", "詩織", "pending").unwrap();
    assert!(!result.ends_with('\n'));
    assert!(result.contains("canonical: 詩織\n    aliases: [shiori]\n    status: pending"));
}

#[test]
fn rewrite_yaml_status_twice_is_the_same_as_once() {
    let once = rewrite_yaml_status(SAMPLE_TAGS_YAML, "canonical", "新タグ", "confirmed").unwrap();
    let twice = rewrite_yaml_status(&once, "canonical", "新タグ", "confirmed").unwrap();
    assert_eq!(once, twice);
}

#[test]
fn rewrite_yaml_status_reports_missing_entry_and_missing_status() {
    assert_eq!(
        rewrite_yaml_status(SAMPLE_TAGS_YAML, "canonical", "無いタグ", "confirmed"),
        Err("対象のエントリが見つかりませんでした。".to_string())
    );
    let no_status = "projects:\n  - id: alpha\n    name: A\n";
    assert_eq!(
        rewrite_yaml_status(no_status, "id", "alpha", "confirmed"),
        Err("statusフィールドが見つかりませんでした。".to_string())
    );
}

#[test]
fn remove_yaml_list_item_exact_text_and_missing_entry() {
    let result = remove_yaml_list_item(SAMPLE_TAGS_YAML, "canonical", "詩織").unwrap();
    assert_eq!(
        result,
        "# ヘッダーコメント1行目\n# ヘッダーコメント2行目\ntags:\n  - canonical: 新タグ\n    aliases: []\n    status: pending\n"
    );
    assert_eq!(
        remove_yaml_list_item(SAMPLE_TAGS_YAML, "canonical", "無いタグ"),
        Err("対象のエントリが見つかりませんでした。".to_string())
    );
}

#[test]
fn find_yaml_list_item_range_spans_up_to_next_item() {
    let lines: Vec<String> = SAMPLE_TAGS_YAML.lines().map(|l| l.to_string()).collect();
    assert_eq!(find_yaml_list_item_range(&lines, "canonical", "詩織"), Some((3, 6)));
    assert_eq!(find_yaml_list_item_range(&lines, "canonical", "新タグ"), Some((6, 9)));
    assert_eq!(find_yaml_list_item_range(&lines, "canonical", "無い"), None);
}

#[test]
fn rewrite_inbox_review_status_errors_and_idempotence() {
    assert_eq!(
        rewrite_inbox_review_status("本文だけ\n", "confirmed"),
        Err("frontmatterが見つかりませんでした。".to_string())
    );
    assert_eq!(
        rewrite_inbox_review_status("---\ntitle: x\n", "confirmed"),
        Err("frontmatterの終端が見つかりませんでした。".to_string())
    );
    let content = "---\ntitle: テスト\n---\n\n本文\n";
    let once = rewrite_inbox_review_status(content, "deferred").unwrap();
    assert_eq!(once, "---\ntitle: テスト\nreview_status: deferred\n---\n\n本文\n");
    let twice = rewrite_inbox_review_status(&once, "deferred").unwrap();
    assert_eq!(once, twice);
}

#[test]
fn pending_lists_keep_pending_and_deferred_in_order() {
    let tags = vec![
        YamlTagEntry { canonical: "a".to_string(), status: "pending".to_string() },
        YamlTagEntry { canonical: "b".to_string(), status: "confirmed".to_string() },
        YamlTagEntry { canonical: "c".to_string(), status: "deferred".to_string() },
    ];
    let out = pending_tags(tags);
    assert_eq!(out.len(), 2);
    assert_eq!(out[0].canonical, "a");
    assert_eq!(out[0].status, "pending");
    assert_eq!(out[1].canonical, "c");
    assert_eq!(out[1].status, "deferred");

    let projects = vec![
        YamlProjectEntry { id: "x".to_string(), status: "".to_string() },
        YamlProjectEntry { id: "y".to_string(), status: "pending".to_string() },
    ];
    let out = pending_projects(projects);
    assert_eq!(out.len(), 1);
    assert_eq!(out[0].id, "y");
}

#[test]
fn pending_actions_map_to_statuses_and_reject_unknown() {
    assert_eq!(pending_action_to_status("confirm"), Ok("confirmed"));
    assert_eq!(pending_action_to_status("defer"), Ok("deferred"));
    assert_eq!(pending_action_to_status("reject"), Err("不明なaction: reject".to_string()));
    assert!(matches!(pending_resolution("reject"), Ok(PendingResolution::Remove)));
    assert!(matches!(pending_resolution("confirm"), Ok(PendingResolution::SetStatus("confirmed"))));
    assert!(matches!(pending_resolution("defer"), Ok(PendingResolution::SetStatus("deferred"))));
    assert!(matches!(pending_resolution("other"), Err(e) if e == "不明なaction: other"));
}

#[test]
fn inbox_listing_rules_and_file_names() {
    assert!(inbox_item_listed(&None));
    assert!(inbox_item_listed(&Some("deferred".to_string())));
    assert!(!inbox_item_listed(&Some("confirmed".to_string())));
    assert!(is_markdown_extension(Some("md")));
    assert!(!is_markdown_extension(Some("txt")));
    assert!(!is_markdown_extension(None));
    assert_eq!(validate_plain_filename("memo-1.md"), Ok(()));
    for bad in ["", "a/b.md", "a\\b.md", ".."] {
        assert_eq!(validate_plain_filename(bad), Err("不正なファイル名です。".to_string()));
    }
}
