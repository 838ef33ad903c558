use shiori_folio::filing::{
    decide_destination, filed_note_text, filing_plan, normalize_tag, project_registered, project_registration_text,
    tag_registration_text, unique_destination, validate, yaml_scalar, Frontmatter, TagEntry,
};
use shiori_folio::frontmatter::{
    default_display_index, default_display_status, default_index, default_status,
    display_frontmatter_block, inbox_frontmatter_block, split_frontmatter, FrontmatterError,
};

fn s(x: &str) -> String {
    x.to_string()
}

fn fm(kind: Option<&str>, sub_kind: Option<&str>, category: Option<&str>, project: Option<&str>) -> Frontmatter {
    Frontmatter {
        title: Some(s("題")),
        kind: kind.map(s),
        sub_kind: sub_kind.map(s),
        category: category.map(s),
        tags: vec![s("t")],
        project: project.map(s),
    }
}

#[test]
fn validate_reports_each_missing_or_invalid_field() {
    let mut f = fm(Some("resource"), None, None, None);
    assert_eq!(validate(&f), None);
    f.title = Some(s("  "));
    assert_eq!(validate(&f), Some(s("titleが空です")));
    f.title = None;
    assert_eq!(validate(&f), Some(s("titleが空です")));
    let mut f = fm(Some("resource"), None, None, None);
    f.tags.clear();
    assert_eq!(validate(&f), Some(s("tagsが空です")));
    assert_eq!(
        validate(&fm(Some("memo"), None, None, None)),
        Some(s("typeが不正です(値: Some(\"memo\"), 許可値: [\"project\", \"area\", \"resource\", \"profile\", \"decision\", \"project-log\", \"task\", \"principle\", \"insight\", \"experience\", \"glossary\", \"reference\"])"))
    );
    assert_eq!(
        validate(&fm(None, None, None, None)),
        Some(s("typeが不正です(値: None, 許可値: [\"project\", \"area\", \"resource\", \"profile\", \"decision\", \"project-log\", \"task\", \"principle\", \"insight\", \"experience\", \"glossary\", \"reference\"])"))
    );
    assert_eq!(
        validate(&fm(Some("project"), Some("diary"), None, Some("p"))),
        Some(s("kindが不正です(値: Some(\"diary\"), 許可値: [\"journal\", \"resource\"]。typeがproject/areaの記事には必須です)"))
    );
    assert_eq!(
        validate(&fm(Some("area"), None, None, None)),
        Some(s("kindが不正です(値: None, 許可値: [\"journal\", \"resource\"]。typeがproject/areaの記事には必須です)"))
    );
    assert_eq!(validate(&fm(Some("profile"), None, None, None)), None);
    assert_eq!(validate(&fm(Some("profile"), None, Some("values"), None)), None);
    assert_eq!(
        validate(&fm(Some("profile"), None, Some("hobby"), None)),
        Some(s("categoryが不正です(値: \"hobby\", 許可値: [\"temperament-and-thinking\", \"values\", \"life-history\", \"relationships\", \"self-image\", \"daily-and-work\"])"))
    );
}

#[test]
fn decide_destination_by_type() {
    let root = vec![s("lib")];
    let p = decide_destination(&root, &fm(Some("project"), Some("journal"), None, Some(" shiori ")));
    assert_eq!(p.dir, vec![s("lib"), s("10-projects"), s("shiori"), s("journal")]);
    assert_eq!(p.register_project, Some(s("shiori")));
    let p = decide_destination(&root, &fm(Some("area"), Some("resource"), None, Some("health")));
    assert_eq!(p.dir, vec![s("lib"), s("20-areas"), s("health"), s("resource")]);
    let p = decide_destination(&root, &fm(Some("project"), Some("journal"), None, Some("  ")));
    assert_eq!(p.dir, vec![s("lib"), s("00-inbox")]);
    assert_eq!(p.register_project, None);
    let p = decide_destination(&root, &fm(Some("resource"), None, None, Some("x")));
    assert_eq!(p.dir, vec![s("lib"), s("30-resources")]);
    assert_eq!(p.register_project, None);
    let p = decide_destination(&root, &fm(Some("profile"), None, Some("values"), None));
    assert_eq!(p.dir, vec![s("lib"), s("40-profile"), s("values")]);
    let p = decide_destination(&root, &fm(Some("profile"), None, None, None));
    assert_eq!(p.dir, vec![s("lib"), s("40-profile")]);
    let p = decide_destination(&root, &fm(Some("glossary"), None, Some("writing"), None));
    assert_eq!(p.dir, vec![s("lib"), s("30-knowledge"), s("writing")]);
    assert_eq!(p.register_project, None);
}

#[test]
fn knowledge_notes_are_valid_and_filed_by_category() {
    for kind in ["decision", "project-log", "task", "principle", "insight", "experience", "glossary", "reference"] {
        assert_eq!(validate(&fm(Some(kind), None, None, None)), None, "{kind}");
    }
    let example = Frontmatter {
        title: Some(s("テスト")),
        kind: Some(s("insight")),
        sub_kind: None,
        category: None,
        tags: vec![s("動作確認")],
        project: None,
    };
    assert_eq!(validate(&example), None);
    let (plan, reason) = filing_plan(&[s("library")], &example);
    assert_eq!(plan.dir, vec![s("library"), s("30-knowledge"), s("general")]);
    assert_eq!(plan.register_project, None);
    assert_eq!(reason, None);
    assert_eq!(
        validate(&fm(Some("insight"), None, Some("../x"), None)),
        Some(s("categoryが不正です(値: \"../x\", フォルダ名にできません)"))
    );
    let (plan, reason) = filing_plan(&[s("library")], &fm(Some("insight"), None, Some(".."), None));
    assert_eq!(plan.dir, vec![s("library"), s("00-inbox")]);
    assert!(reason.unwrap().starts_with("categoryが不正です"));
}

#[test]
fn normalize_tag_uses_canonical_forms_and_registers_new_tags_once() {
    let entries = vec![
        TagEntry { canonical: s("詩織"), aliases: vec![s("shiori"), s("しおり")] },
        TagEntry { canonical: s("rust"), aliases: vec![] },
    ];
    let mut pending: Vec<String> = Vec::new();
    assert_eq!(normalize_tag(&entries, "shiori", &mut pending), (s("詩織"), false));
    assert_eq!(normalize_tag(&entries, "rust", &mut pending), (s("rust"), false));
    assert!(pending.is_empty());
    assert_eq!(normalize_tag(&entries, "verus", &mut pending), (s("verus"), true));
    assert_eq!(pending, vec![s("verus")]);
    assert_eq!(normalize_tag(&entries, "verus", &mut pending), (s("verus"), false));
    assert_eq!(pending, vec![s("verus")]);
}

#[test]
fn registration_lines_and_yaml_scalars() {
    assert_eq!(project_registration_text("alpha"), "  - id: alpha\n    status: pending\n");
    assert_eq!(
        tag_registration_text("新タグ"),
        "  - canonical: 新タグ\n    aliases: []\n    status: pending\n"
    );
    assert_eq!(yaml_scalar("plain"), Some(s("plain")));
    assert_eq!(yaml_scalar("true"), Some(s("'true'")));
    assert_eq!(yaml_scalar("a: b"), Some(s("'a: b'")));
    assert!(project_registered(&[s("a"), s("b")], "b"));
    assert!(!project_registered(&[s("a")], "c"));
}

#[test]
fn unique_destination_takes_the_first_free_name() {
    assert_eq!(unique_destination("note.md", &[]), Ok(s("note.md")));
    assert_eq!(unique_destination("note.md", &[s("other.md")]), Ok(s("note.md")));
    assert_eq!(unique_destination("note.md", &[s("note.md")]), Ok(s("note-2.md")));
    assert_eq!(
        unique_destination("note.md", &[s("note-2.md"), s("note.md"), s("note-3.md")]),
        Ok(s("note-4.md"))
    );
    assert_eq!(
        unique_destination("note.txt", &[]),
        Err(s("拡張子が.mdではありません: note.txt"))
    );
}

#[test]
fn split_frontmatter_handles_bom_crlf_and_errors() {
    assert_eq!(
        split_frontmatter("---\ntitle: a\n---\n本文\n"),
        Ok((s("title: a"), s("本文\n")))
    );
    assert_eq!(
        split_frontmatter("\u{feff}---\r\ntitle: a\r\n---\r\n本文"),
        Ok((s("title: a\r"), s("本文")))
    );
    assert_eq!(split_frontmatter("title: a\n---\n"), Err(FrontmatterError::MissingOpening));
    assert_eq!(split_frontmatter("---\ntitle: a\n"), Err(FrontmatterError::MissingClosing));
    assert_eq!(FrontmatterError::MissingOpening.message(), "frontmatter(先頭の---)が見つかりません");
    assert_eq!(FrontmatterError::MissingClosing.message(), "frontmatterの終端(---)が見つかりません");
    assert_eq!(display_frontmatter_block("---\ntype: メモ\n---\nx"), Ok(s("type: メモ")));
    assert_eq!(inbox_frontmatter_block("\u{feff}\u{feff}---\nreason: r\n---\n"), Some(s("\nreason: r")));
    assert_eq!(inbox_frontmatter_block("no frontmatter"), None);
    assert!(default_index() && default_display_index());
    assert_eq!(default_status(), "new");
    assert_eq!(default_display_status(), "new");
}

#[test]
fn every_note_gets_a_folder_and_incomplete_ones_go_to_the_inbox() {
    let root = vec![s("lib")];
    let (plan, reason) = filing_plan(&root, &fm(Some("memo"), None, None, Some("p")));
    assert_eq!(plan.dir, vec![s("lib"), s("00-inbox")]);
    assert_eq!(plan.register_project, None);
    assert!(reason.unwrap().starts_with("typeが不正です"));
    let (plan, reason) = filing_plan(&root, &fm(Some("project"), Some("journal"), None, Some("p")));
    assert_eq!(plan.dir, vec![s("lib"), s("10-projects"), s("p"), s("journal")]);
    assert_eq!(plan.register_project, Some(s("p")));
    assert_eq!(reason, None);
    assert_eq!(filed_note_text("title: a\n", "本文\n"), "---\ntitle: a\n---\n本文\n");
}
