use ue_doctor::finding::{Finding, Severity};
use ue_doctor::layout::{
    check_binary_config_files, check_build_cs_files, check_config_dir, check_content_dir_exists,
    check_content_naming, check_default_engine_ini, check_default_game_ini, check_default_map_set,
    check_derived_data_cache, check_empty_folders, check_git_lfs, check_gitignore,
    check_no_starter_content, check_plugin_uplugin_files, check_spaces_in_path, check_target_files,
    ContentEntry, PluginFolder,
};

fn parts(f: &[Finding]) -> Vec<(String, Severity, String, String)> {
    f.iter()
        .map(|x| (x.rule_id.clone(), x.severity, x.message.clone(), x.detail.clone()))
        .collect()
}

fn one(id: &str, sev: Severity, msg: &str, detail: &str) -> (String, Severity, String, String) {
    (id.to_string(), sev, msg.to_string(), detail.to_string())
}

fn strings(v: &[&str]) -> Vec<String> {
    v.iter().map(|s| s.to_string()).collect()
}

fn entry(name: &str, is_dir: bool, is_empty_dir: bool) -> ContentEntry {
    ContentEntry { name: name.to_string(), is_dir, is_empty_dir }
}

#[test]
fn targets_editor_and_game_pass_with_count() {
    let t = strings(&["Game.Target.cs", "GameEditor.Target.cs", "GameServer.Target.cs"]);
    let mut f = Vec::new();
    check_target_files(true, &t, &mut f);
    assert_eq!(parts(&f), vec![one("T001", Severity::Pass, "3 target(s)", "")]);
}

#[test]
fn targets_classified_by_file_name_only() {
    // A project in the folder `/w/Editor.Target` with the single target
    // `Source/Game.Target.cs`: a game target exists, an editor target does not.
    let mut f = Vec::new();
    check_target_files(true, &strings(&["Game.Target.cs"]), &mut f);
    assert_eq!(parts(&f), vec![one("T002", Severity::Warning, "No Editor .Target.cs found", "")]);
}

#[test]
fn targets_none_is_an_error() {
    let mut f = Vec::new();
    check_target_files(true, &Vec::new(), &mut f);
    assert_eq!(
        parts(&f),
        vec![one("T001", Severity::Error, "No .Target.cs files in Source/", "Need at least GameTarget and EditorTarget")]
    );
}

#[test]
fn targets_missing_editor_and_game() {
    let mut f = Vec::new();
    check_target_files(true, &strings(&["GameServer.Target.cs"]), &mut f);
    assert_eq!(
        parts(&f),
        vec![
            one("T002", Severity::Warning, "No Editor .Target.cs found", ""),
            one("T003", Severity::Warning, "No Game .Target.cs found", ""),
        ]
    );
}

#[test]
fn targets_without_source_folder_report_nothing() {
    let mut f = Vec::new();
    check_target_files(false, &Vec::new(), &mut f);
    check_build_cs_files(false, &Vec::new(), &mut f);
    assert!(f.is_empty());
}

#[test]
fn build_files_counted() {
    let mut f = Vec::new();
    check_build_cs_files(true, &strings(&["a.Build.cs"; 12]), &mut f);
    check_build_cs_files(true, &Vec::new(), &mut f);
    assert_eq!(
        parts(&f),
        vec![
            one("B001", Severity::Pass, "12 Build.cs file(s)", ""),
            one("B001", Severity::Error, "No .Build.cs files found", "Each module needs a Build.cs"),
        ]
    );
}

#[test]
fn standard_folders_and_ini_files() {
    let mut f = Vec::new();
    check_content_dir_exists(false, &mut f);
    check_config_dir(true, &mut f);
    check_default_engine_ini(false, &mut f);
    check_default_game_ini(false, &mut f);
    check_no_starter_content(true, &mut f);
    assert_eq!(
        parts(&f),
        vec![
            one("D001", Severity::Error, "Content/ missing", "Every UE project needs Content/"),
            one("D002", Severity::Pass, "Config/ exists", ""),
            one("C001", Severity::Warning, "DefaultEngine.ini missing", ""),
            one("C002", Severity::Warning, "DefaultGame.ini missing", "Needed for packaging"),
            one("A003", Severity::Warning, "StarterContent still present", "Remove before packaging to reduce size"),
        ]
    );
}

#[test]
fn gitignore_missing_entries() {
    let mut f = Vec::new();
    check_gitignore(true, &Some("Binaries/\nSaved/\n".to_string()), &mut f);
    assert_eq!(
        parts(&f),
        vec![
            one("SC002", Severity::Warning, "'Intermediate' not in .gitignore", "Should not be committed"),
            one("SC002", Severity::Warning, "'DerivedDataCache' not in .gitignore", "Should not be committed"),
        ]
    );
}

#[test]
fn gitignore_absent_and_no_repository() {
    let mut f = Vec::new();
    check_gitignore(true, &None, &mut f);
    check_gitignore(false, &None, &mut f);
    check_git_lfs(false, &None, &mut f);
    assert_eq!(
        parts(&f),
        vec![one("SC001", Severity::Warning, ".gitignore missing", "Intermediate/, Saved/, DerivedDataCache/ should be ignored")]
    );
}

#[test]
fn git_lfs_rules() {
    let mut f = Vec::new();
    check_git_lfs(true, &None, &mut f);
    check_git_lfs(true, &Some("*.umap filter=lfs".to_string()), &mut f);
    check_git_lfs(true, &Some("*.uasset filter=lfs".to_string()), &mut f);
    assert_eq!(
        parts(&f),
        vec![
            one("SC003", Severity::Warning, "No .gitattributes (no Git LFS)", "Binary assets should use Git LFS"),
            one("SC004", Severity::Warning, ".gitattributes doesn't track .uasset with LFS", "Add: *.uasset filter=lfs diff=lfs merge=lfs -text"),
        ]
    );
}

#[test]
fn spaces_in_path() {
    let mut f = Vec::new();
    check_spaces_in_path("/home/me/My Game", &mut f);
    check_spaces_in_path("/home/me/MyGame", &mut f);
    assert_eq!(
        parts(&f),
        vec![
            one("A001", Severity::Warning, "Project path contains spaces", "/home/me/My Game -- can cause build issues"),
            one("A001", Severity::Pass, "No spaces in project path", ""),
        ]
    );
}

#[test]
fn content_naming_lists_bad_names() {
    let entries = vec![entry("Maps", true, false), entry("My Assets", true, false), entry(".DS_Store", false, false), entry("a.b", false, false)];
    let mut f = Vec::new();
    check_content_naming(true, &entries, &mut f);
    check_content_naming(true, &vec![entry("Maps", true, false)], &mut f);
    check_content_naming(false, &entries, &mut f);
    assert_eq!(
        parts(&f),
        vec![
            one("A002", Severity::Warning, "2 content folders with bad names", "My Assets, .DS_Store"),
            one("A002", Severity::Pass, "Content/ naming is clean", ""),
        ]
    );
}

#[test]
fn default_map_rule() {
    let mut f = Vec::new();
    check_default_map_set(&None, &mut f);
    check_default_map_set(&Some("[/Script/EngineSettings.GameMapsSettings]\nEditorStartupMap=/Game/Main".to_string()), &mut f);
    check_default_map_set(&Some("".to_string()), &mut f);
    assert_eq!(
        parts(&f),
        vec![
            one("C003", Severity::Pass, "Default map configured", ""),
            one("C003", Severity::Warning, "No default map set", "Set GameDefaultMap in DefaultEngine.ini"),
        ]
    );
}

#[test]
fn stale_config_backups() {
    let mut f = Vec::new();
    check_binary_config_files(true, &strings(&["DefaultEngine.ini", "DefaultEngine.ini.bak", "x.ini.old", "ini.bak", "a.ini.bak2"]), &mut f);
    check_binary_config_files(false, &strings(&["y.ini.bak"]), &mut f);
    assert_eq!(
        parts(&f),
        vec![
            one("C004", Severity::Warning, "Stale config backup: Config/DefaultEngine.ini.bak", "Remove .bak/.old files"),
            one("C004", Severity::Warning, "Stale config backup: Config/x.ini.old", "Remove .bak/.old files"),
        ]
    );
}

#[test]
fn empty_folders_listed() {
    let entries = vec![entry("A", true, true), entry("B", true, false), entry("C", false, false), entry("D", true, true)];
    let mut f = Vec::new();
    check_empty_folders(true, &entries, &mut f);
    check_empty_folders(true, &vec![entry("B", true, false)], &mut f);
    assert_eq!(
        parts(&f),
        vec![one("A004", Severity::Warning, "2 empty folder(s) in Content/", "A, D")]
    );
}

#[test]
fn plugin_folders_need_descriptor() {
    let folders = vec![
        PluginFolder { name: "Good".to_string(), is_dir: true, file_names: strings(&["Good.uplugin", "Source"]) },
        PluginFolder { name: "Bad".to_string(), is_dir: true, file_names: strings(&["README.md"]) },
        PluginFolder { name: "file.txt".to_string(), is_dir: false, file_names: Vec::new() },
    ];
    let mut f = Vec::new();
    check_plugin_uplugin_files(true, &folders, &mut f);
    check_plugin_uplugin_files(false, &folders, &mut f);
    assert_eq!(
        parts(&f),
        vec![one("PL003", Severity::Error, "Plugin 'Bad' has no .uplugin", "Expected: Plugins/Bad/Bad.uplugin")]
    );
}

#[test]
fn derived_data_cache_rule() {
    let mut f = Vec::new();
    check_derived_data_cache(true, true, "Saved/\n", &mut f);
    check_derived_data_cache(true, true, "DerivedDataCache/\n", &mut f);
    check_derived_data_cache(true, false, "", &mut f);
    check_derived_data_cache(false, true, "", &mut f);
    assert_eq!(
        parts(&f),
        vec![one("D003", Severity::Warning, "DerivedDataCache/ exists and may not be gitignored", "Build cache should not be committed")]
    );
}
