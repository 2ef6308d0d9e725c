use ue_doctor::doctor::{diagnose, ProjectSnapshot};
use ue_doctor::finding::{finding, is_listed, shows_detail, Report, Severity};
use ue_doctor::layout::{ContentEntry, PluginFolder};
use ue_doctor::project_file::PluginProbe;
use ue_doctor::text::{contains_text, decimal_string, ends_with_text, join_texts, text_eq};

fn healthy() -> ProjectSnapshot {
    ProjectSnapshot {
        uproject: "{\"EngineAssociation\": \"5.3\", \"Modules\": [{\"Name\": \"Game\"}], \"Plugins\": [{\"Name\": \"P\", \"Enabled\": true}]}".to_string(),
        module_sources_present: vec!["Game".to_string()],
        source_exists: true,
        target_names: vec!["Game.Target.cs".to_string(), "GameEditor.Target.cs".to_string()],
        build_files: vec!["Source/Game/Game.Build.cs".to_string()],
        content_exists: true,
        config_exists: true,
        default_engine_ini: Some("GameDefaultMap=/Game/Main".to_string()),
        default_game_ini_exists: true,
        plugin_probes: vec![PluginProbe {
            name: "P".to_string(),
            dir_exists: true,
            descriptor_exists: true,
            descriptor_path: "Plugins/P/P.uplugin".to_string(),
        }],
        git_exists: true,
        gitignore: Some("Intermediate/\nSaved/\nDerivedDataCache/\n".to_string()),
        gitattributes: Some("*.uasset filter=lfs".to_string()),
        project_path: "/work/Game".to_string(),
        content_entries: vec![ContentEntry { name: "Maps".to_string(), is_dir: true, is_empty_dir: false }],
        starter_content_exists: false,
        config_entries: vec!["DefaultEngine.ini".to_string()],
        plugins_dir_exists: true,
        plugin_folders: vec![PluginFolder { name: "P".to_string(), is_dir: true, file_names: vec!["P.uplugin".to_string()] }],
        derived_data_cache_exists: true,
    }
}

#[test]
fn healthy_project_passes_every_rule() {
    let f = diagnose(&healthy());
    let ids: Vec<&str> = f.iter().map(|x| x.rule_id.as_str()).collect();
    assert_eq!(
        ids,
        vec!["P001", "P002", "M001", "T001", "B001", "D001", "D002", "C001", "C002", "A001", "A002", "C003"]
    );
    assert!(f.iter().all(|x| x.severity == Severity::Pass));
    let r = Report::new("/work/Game/Game.uproject".to_string(), f);
    assert_eq!((r.pass_count, r.warn_count, r.error_count), (12, 0, 0));
    assert!(!r.has_errors());
    assert_eq!(r.project, "/work/Game/Game.uproject");
}

#[test]
fn broken_project_fails() {
    let mut s = healthy();
    s.uproject = "not json".to_string();
    s.content_exists = false;
    s.content_entries = Vec::new();
    s.git_exists = false;
    let f = diagnose(&s);
    // First finding is always P001.
    assert_eq!(f[0].rule_id, "P001");
    assert_eq!(f[0].severity, Severity::Error);
    assert!(!f.iter().any(|x| x.rule_id == "P002" || x.rule_id.starts_with('M') || x.rule_id.starts_with("SC")));
    let r = Report::new("x".to_string(), f);
    assert_eq!(r.pass_count + r.warn_count + r.error_count, r.findings.len());
    assert_eq!(r.error_count, 2);
    assert!(r.has_errors());
}

#[test]
fn every_rule_id_is_documented() {
    let documented = [
        "P001", "P002", "M001", "M002", "T001", "T002", "T003", "B001", "D001", "D002", "D003", "C001", "C002",
        "C003", "C004", "PL001", "PL002", "PL003", "SC001", "SC002", "SC003", "SC004", "A001", "A002", "A003", "A004",
    ];
    let mut s = healthy();
    s.gitignore = None;
    s.starter_content_exists = true;
    s.config_entries.push("old.ini.bak".to_string());
    s.plugin_folders.push(PluginFolder { name: "Q".to_string(), is_dir: true, file_names: Vec::new() });
    let f = diagnose(&s);
    assert!(f.iter().all(|x| documented.contains(&x.rule_id.as_str())));
}

#[test]
fn counts_partition_findings() {
    let f = vec![
        finding("A", Severity::Pass, "", ""),
        finding("B", Severity::Error, "", ""),
        finding("C", Severity::Warning, "", ""),
        finding("D", Severity::Error, "", ""),
    ];
    let r = Report::new("p".to_string(), f);
    assert_eq!((r.pass_count, r.warn_count, r.error_count), (1, 1, 2));
    assert_eq!(r.pass_count + r.warn_count + r.error_count, 4);
}

#[test]
fn listing_and_details() {
    let pass = finding("A001", Severity::Pass, "ok", "hidden");
    let warn = finding("A002", Severity::Warning, "bad", "names");
    let bare = finding("C001", Severity::Warning, "missing", "");
    assert!(is_listed(&pass, false));
    assert!(!is_listed(&pass, true));
    assert!(is_listed(&warn, true));
    assert!(!shows_detail(&pass));
    assert!(shows_detail(&warn));
    assert!(!shows_detail(&bare));
    assert_eq!(Severity::Pass.label(), "PASS");
    assert_eq!(Severity::Warning.label(), "WARN");
    assert_eq!(Severity::Error.label(), "FAIL");
}

#[test]
fn finding_keeps_its_parts() {
    let f = finding("X1", Severity::Warning, "msg", "det");
    assert_eq!(f.rule_id, "X1");
    assert_eq!(f.severity, Severity::Warning);
    assert_eq!(f.message, "msg");
    assert_eq!(f.detail, "det");
}

#[test]
fn text_helpers() {
    assert!(contains_text("abcEditor.Target.cs", "Editor.Target"));
    assert!(!contains_text("Edit", "Editor"));
    assert!(contains_text("x", ""));
    assert!(ends_with_text("a.ini.bak", ".ini.bak"));
    assert!(!ends_with_text("bak", ".ini.bak"));
    assert!(text_eq("é", "é"));
    assert!(!text_eq("a", "ab"));
    assert_eq!(decimal_string(0), "0");
    assert_eq!(decimal_string(7), "7");
    assert_eq!(decimal_string(10), "10");
    assert_eq!(decimal_string(12345), "12345");
    assert_eq!(decimal_string(usize::MAX), usize::MAX.to_string());
    let items = vec!["a".to_string(), "b".to_string(), "c".to_string()];
    assert_eq!(join_texts(&items, ", "), "a, b, c");
    assert_eq!(join_texts(&Vec::new(), ", "), "");
}
