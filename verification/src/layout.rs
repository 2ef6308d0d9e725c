//! The rules read from the project's folders and files: targets and build
//! files, the standard folders and config files, source control, and the
//! contents of `Content/`, `Config/` and `Plugins/`. Each rule takes what the
//! file system showed as plain values.
use vstd::prelude::*;

use crate::finding::{finding, fv, push_finding, views, Finding, FindingView, Severity};
use crate::seq_lemmas::{lemma_concat_assoc, lemma_concat_empty, lemma_take_drop_last};
use crate::text::{
    cat, contains_char, contains_text, decimal, decimal_string, ends_with_text, has_substring,
    has_suffix, join_texts, joined, starts_with_char, starts_with_char_spec, string_views,
};

verus! {

// ---------------------------------------------------------------------------
// Inputs
// ---------------------------------------------------------------------------

/// One entry of the `Content/` folder.
pub struct ContentEntry {
    /// The entry's file name.
    pub name: String,
    /// The entry is a folder.
    pub is_dir: bool,
    /// The entry is a folder that could be read and holds nothing.
    pub is_empty_dir: bool,
}

/// One entry of the `Plugins/` folder.
pub struct PluginFolder {
    /// The entry's file name.
    pub name: String,
    /// The entry is a folder.
    pub is_dir: bool,
    /// The file names inside the folder (none when it could not be read).
    pub file_names: Vec<String>,
}

// ---------------------------------------------------------------------------
// Specifications
// ---------------------------------------------------------------------------

/// Some target file name names an editor target.
pub open spec fn has_editor_target(targets: Seq<Seq<char>>) -> bool {
    exists|i: int| 0 <= i < targets.len() && has_substring(#[trigger] targets[i], "Editor.Target"@)
}

/// A target file name that names neither an editor nor a server target.
pub open spec fn is_game_target(t: Seq<char>) -> bool {
    !has_substring(t, "Editor.Target"@) && !has_substring(t, "Server.Target"@)
}

/// Some target file name names a game target.
pub open spec fn has_game_target(targets: Seq<Seq<char>>) -> bool {
    exists|i: int| 0 <= i < targets.len() && is_game_target(#[trigger] targets[i])
}

/// T001/T002/T003 for the file names of the `*.Target.cs` files found
/// directly in `Source/`. Only the file names are classified, so the folder
/// the project sits in cannot make a game target look like an editor or
/// server target.
pub open spec fn target_findings(source_exists: bool, targets: Seq<Seq<char>>) -> Seq<
    FindingView,
> {
    if !source_exists {
        Seq::empty()
    } else if targets.len() == 0 {
        seq![
            fv(
                "T001"@,
                Severity::Error,
                "No .Target.cs files in Source/"@,
                "Need at least GameTarget and EditorTarget"@,
            ),
        ]
    } else {
        (if !has_editor_target(targets) {
            seq![fv("T002"@, Severity::Warning, "No Editor .Target.cs found"@, ""@)]
        } else {
            Seq::empty()
        }) + (if !has_game_target(targets) {
            seq![fv("T003"@, Severity::Warning, "No Game .Target.cs found"@, ""@)]
        } else {
            Seq::empty()
        }) + (if has_editor_target(targets) && has_game_target(targets) {
            seq![fv("T001"@, Severity::Pass, decimal(targets.len()) + " target(s)"@, ""@)]
        } else {
            Seq::empty()
        })
    }
}

/// B001 for the `*.Build.cs` paths found anywhere under `Source/`.
pub open spec fn build_cs_findings(source_exists: bool, count: nat) -> Seq<FindingView> {
    if !source_exists {
        Seq::empty()
    } else if count == 0 {
        seq![
            fv(
                "B001"@,
                Severity::Error,
                "No .Build.cs files found"@,
                "Each module needs a Build.cs"@,
            ),
        ]
    } else {
        seq![fv("B001"@, Severity::Pass, decimal(count) + " Build.cs file(s)"@, ""@)]
    }
}

/// D001: `Content/` exists.
pub open spec fn content_dir_findings(exists: bool) -> Seq<FindingView> {
    if exists {
        seq![fv("D001"@, Severity::Pass, "Content/ exists"@, ""@)]
    } else {
        seq![fv("D001"@, Severity::Error, "Content/ missing"@, "Every UE project needs Content/"@)]
    }
}

/// D002: `Config/` exists.
pub open spec fn config_dir_findings(exists: bool) -> Seq<FindingView> {
    if exists {
        seq![fv("D002"@, Severity::Pass, "Config/ exists"@, ""@)]
    } else {
        seq![fv("D002"@, Severity::Error, "Config/ missing"@, "Project config files required"@)]
    }
}

/// C001: `Config/DefaultEngine.ini` exists.
pub open spec fn default_engine_ini_findings(exists: bool) -> Seq<FindingView> {
    if exists {
        seq![fv("C001"@, Severity::Pass, "DefaultEngine.ini exists"@, ""@)]
    } else {
        seq![fv("C001"@, Severity::Warning, "DefaultEngine.ini missing"@, ""@)]
    }
}

/// C002: `Config/DefaultGame.ini` exists.
pub open spec fn default_game_ini_findings(exists: bool) -> Seq<FindingView> {
    if exists {
        seq![fv("C002"@, Severity::Pass, "DefaultGame.ini exists"@, ""@)]
    } else {
        seq![fv("C002"@, Severity::Warning, "DefaultGame.ini missing"@, "Needed for packaging"@)]
    }
}

/// SC002 for one folder that `.gitignore` does not mention.
pub open spec fn ignore_entry_finding(gitignore: Seq<char>, dir: Seq<char>) -> Seq<FindingView> {
    if has_substring(gitignore, dir) {
        Seq::empty()
    } else {
        seq![
            fv(
                "SC002"@,
                Severity::Warning,
                "'"@ + dir + "' not in .gitignore"@,
                "Should not be committed"@,
            ),
        ]
    }
}

/// SC001/SC002 for a git repository: `.gitignore` exists and mentions
/// `Intermediate`, `Saved` and `DerivedDataCache`.
pub open spec fn gitignore_findings(git_exists: bool, gitignore: Option<Seq<char>>) -> Seq<
    FindingView,
> {
    if !git_exists {
        Seq::empty()
    } else {
        match gitignore {
            None => seq![
                fv(
                    "SC001"@,
                    Severity::Warning,
                    ".gitignore missing"@,
                    "Intermediate/, Saved/, DerivedDataCache/ should be ignored"@,
                ),
            ],
            Some(text) => ignore_entry_finding(text, "Intermediate"@) + ignore_entry_finding(
                text,
                "Saved"@,
            ) + ignore_entry_finding(text, "DerivedDataCache"@),
        }
    }
}

/// SC003/SC004 for a git repository: `.gitattributes` exists and mentions
/// `uasset`.
pub open spec fn git_lfs_findings(git_exists: bool, gitattributes: Option<Seq<char>>) -> Seq<
    FindingView,
> {
    if !git_exists {
        Seq::empty()
    } else {
        match gitattributes {
            None => seq![
                fv(
                    "SC003"@,
                    Severity::Warning,
                    "No .gitattributes (no Git LFS)"@,
                    "Binary assets should use Git LFS"@,
                ),
            ],
            Some(text) => if has_substring(text, "uasset"@) {
                Seq::empty()
            } else {
                seq![
                    fv(
                        "SC004"@,
                        Severity::Warning,
                        ".gitattributes doesn't track .uasset with LFS"@,
                        "Add: *.uasset filter=lfs diff=lfs merge=lfs -text"@,
                    ),
                ]
            },
        }
    }
}

/// A001: the project path has no space.
pub open spec fn spaces_in_path_findings(path: Seq<char>) -> Seq<FindingView> {
    if path.contains(' ') {
        seq![
            fv(
                "A001"@,
                Severity::Warning,
                "Project path contains spaces"@,
                path + " -- can cause build issues"@,
            ),
        ]
    } else {
        seq![fv("A001"@, Severity::Pass, "No spaces in project path"@, ""@)]
    }
}

/// A `Content/` entry name with a space or a leading dot.
pub open spec fn is_bad_content_name(name: Seq<char>) -> bool {
    name.contains(' ') || starts_with_char_spec(name, '.')
}

/// The bad names among `entries`, in order.
pub open spec fn bad_content_names(entries: Seq<ContentEntry>) -> Seq<Seq<char>>
    decreases entries.len(),
{
    if entries.len() == 0 {
        Seq::empty()
    } else {
        bad_content_names(entries.drop_last()) + if is_bad_content_name(entries.last().name@) {
            seq![entries.last().name@]
        } else {
            Seq::empty()
        }
    }
}

/// A002: no entry of `Content/` has a bad name.
pub open spec fn content_naming_findings(content_exists: bool, entries: Seq<ContentEntry>) -> Seq<
    FindingView,
> {
    if !content_exists {
        Seq::empty()
    } else if bad_content_names(entries).len() == 0 {
        seq![fv("A002"@, Severity::Pass, "Content/ naming is clean"@, ""@)]
    } else {
        seq![
            fv(
                "A002"@,
                Severity::Warning,
                decimal(bad_content_names(entries).len()) + " content folders with bad names"@,
                joined(bad_content_names(entries), ", "@),
            ),
        ]
    }
}

/// C003: `DefaultEngine.ini`, when it exists, sets a default map.
pub open spec fn default_map_findings(engine_ini: Option<Seq<char>>) -> Seq<FindingView> {
    match engine_ini {
        None => Seq::empty(),
        Some(text) => if has_substring(text, "GameDefaultMap"@) || has_substring(
            text,
            "EditorStartupMap"@,
        ) {
            seq![fv("C003"@, Severity::Pass, "Default map configured"@, ""@)]
        } else {
            seq![
                fv(
                    "C003"@,
                    Severity::Warning,
                    "No default map set"@,
                    "Set GameDefaultMap in DefaultEngine.ini"@,
                ),
            ]
        },
    }
}

/// A003: `Content/StarterContent` is gone.
pub open spec fn starter_content_findings(exists: bool) -> Seq<FindingView> {
    if exists {
        seq![
            fv(
                "A003"@,
                Severity::Warning,
                "StarterContent still present"@,
                "Remove before packaging to reduce size"@,
            ),
        ]
    } else {
        Seq::empty()
    }
}

/// A stale backup of a config file.
pub open spec fn is_stale_config_name(name: Seq<char>) -> bool {
    has_suffix(name, ".ini.bak"@) || has_suffix(name, ".ini.old"@)
}

/// C004 for each stale backup among the `Config/` entry names, in order.
pub open spec fn stale_config_findings(names: Seq<Seq<char>>) -> Seq<FindingView>
    decreases names.len(),
{
    if names.len() == 0 {
        Seq::empty()
    } else {
        stale_config_findings(names.drop_last()) + if is_stale_config_name(names.last()) {
            seq![
                fv(
                    "C004"@,
                    Severity::Warning,
                    "Stale config backup: Config/"@ + names.last(),
                    "Remove .bak/.old files"@,
                ),
            ]
        } else {
            Seq::empty()
        }
    }
}

/// C004 when `Config/` exists.
pub open spec fn binary_config_findings(config_exists: bool, names: Seq<Seq<char>>) -> Seq<
    FindingView,
> {
    if config_exists {
        stale_config_findings(names)
    } else {
        Seq::empty()
    }
}

/// The names of the empty folders among `entries`, in order.
pub open spec fn empty_folder_names(entries: Seq<ContentEntry>) -> Seq<Seq<char>>
    decreases entries.len(),
{
    if entries.len() == 0 {
        Seq::empty()
    } else {
        empty_folder_names(entries.drop_last()) + if entries.last().is_dir
            && entries.last().is_empty_dir {
            seq![entries.last().name@]
        } else {
            Seq::empty()
        }
    }
}

/// A004: `Content/` holds no empty folder.
pub open spec fn empty_folder_findings(content_exists: bool, entries: Seq<ContentEntry>) -> Seq<
    FindingView,
> {
    if !content_exists || empty_folder_names(entries).len() == 0 {
        Seq::empty()
    } else {
        seq![
            fv(
                "A004"@,
                Severity::Warning,
                decimal(empty_folder_names(entries).len()) + " empty folder(s) in Content/"@,
                joined(empty_folder_names(entries), ", "@),
            ),
        ]
    }
}

/// Some file name ends with `.uplugin`.
pub open spec fn has_descriptor(file_names: Seq<Seq<char>>) -> bool {
    exists|i: int| 0 <= i < file_names.len() && has_suffix(#[trigger] file_names[i], ".uplugin"@)
}

/// PL003 for one entry of `Plugins/`: a folder without a descriptor.
pub open spec fn plugin_folder_finding(p: PluginFolder) -> Seq<FindingView> {
    if p.is_dir && !has_descriptor(string_views(p.file_names@)) {
        seq![
            fv(
                "PL003"@,
                Severity::Error,
                "Plugin '"@ + p.name@ + "' has no .uplugin"@,
                "Expected: Plugins/"@ + p.name@ + "/"@ + p.name@ + ".uplugin"@,
            ),
        ]
    } else {
        Seq::empty()
    }
}

/// PL003 for each entry of `Plugins/`, in order.
pub open spec fn plugin_folder_findings(folders: Seq<PluginFolder>) -> Seq<FindingView>
    decreases folders.len(),
{
    if folders.len() == 0 {
        Seq::empty()
    } else {
        plugin_folder_findings(folders.drop_last()) + plugin_folder_finding(folders.last())
    }
}

/// PL003 when `Plugins/` exists.
pub open spec fn plugin_uplugin_findings(plugins_exists: bool, folders: Seq<PluginFolder>) -> Seq<
    FindingView,
> {
    if plugins_exists {
        plugin_folder_findings(folders)
    } else {
        Seq::empty()
    }
}

/// D003: a `DerivedDataCache/` folder in a git repository is mentioned by
/// `.gitignore`.
pub open spec fn derived_data_cache_findings(
    ddc_exists: bool,
    git_exists: bool,
    gitignore: Seq<char>,
) -> Seq<FindingView> {
    if ddc_exists && git_exists && !has_substring(gitignore, "DerivedDataCache"@) {
        seq![
            fv(
                "D003"@,
                Severity::Warning,
                "DerivedDataCache/ exists and may not be gitignored"@,
                "Build cache should not be committed"@,
            ),
        ]
    } else {
        Seq::empty()
    }
}

/// The view of an optional text.
pub open spec fn opt_view(o: Option<String>) -> Option<Seq<char>> {
    match o {
        Some(s) => Some(s@),
        None => None,
    }
}




// ---------------------------------------------------------------------------
// Rules
// ---------------------------------------------------------------------------

/// T001/T002/T003: with `target_names` the file names of the `*.Target.cs`
/// files directly in `Source/`, reports a missing target set as an error, a missing editor or
/// game target as a warning, and the number of targets when both are there.
/// Reports nothing when `Source/` does not exist.
pub fn check_target_files(source_exists: bool, target_names: &Vec<String>, f: &mut Vec<Finding>)
    ensures
        views(final(f)@) == views(old(f)@) + target_findings(source_exists, string_views(target_names@)),
{
    let ghost start = views(f@);
    let ghost ts = string_views(target_names@);
    if !source_exists {
        proof { lemma_concat_empty(start); }
        return ;
    }
    if target_names.len() == 0 {
        push_finding(
            f,
            finding(
                "T001",
                Severity::Error,
                "No .Target.cs files in Source/",
                "Need at least GameTarget and EditorTarget",
            ),
        );
        return ;
    }
    let mut has_editor = false;
    let mut has_game = false;
    let mut i: usize = 0;
    while i < target_names.len()
        invariant
            ts == string_views(target_names@),
            i <= target_names@.len(),
            has_editor == exists|k: int| 0 <= k < i && has_substring(#[trigger] ts[k], "Editor.Target"@),
            has_game == exists|k: int| 0 <= k < i && is_game_target(#[trigger] ts[k]),
        decreases target_names@.len() - i,
    {
        let t = target_names[i].as_str();
        let editor = contains_text(t, "Editor.Target");
        let server = contains_text(t, "Server.Target");
        assert(ts[i as int] == t@);
        if editor {
            has_editor = true;
        }
        if !editor && !server {
            has_game = true;
        }
        i = i + 1;
    }
    let ghost mid = views(f@);
    if !has_editor {
        push_finding(f, finding("T002", Severity::Warning, "No Editor .Target.cs found", ""));
    } else {
        proof { lemma_concat_empty(mid); }
    }
    let ghost mid2 = views(f@);
    if !has_game {
        push_finding(f, finding("T003", Severity::Warning, "No Game .Target.cs found", ""));
    } else {
        proof { lemma_concat_empty(mid2); }
    }
    let ghost mid3 = views(f@);
    if has_editor && has_game {
        let count = decimal_string(target_names.len());
        let msg = cat(count.as_str(), " target(s)");
        push_finding(f, finding("T001", Severity::Pass, msg.as_str(), ""));
    } else {
        proof { lemma_concat_empty(mid3); }
    }
    assert(views(f@) =~= start + target_findings(source_exists, ts));
}

/// B001: with `build_files` the `*.Build.cs` paths anywhere under
/// `Source/`, reports none as an error and otherwise their number. Reports
/// nothing when `Source/` does not exist.
pub fn check_build_cs_files(source_exists: bool, build_files: &Vec<String>, f: &mut Vec<Finding>)
    ensures
        views(final(f)@) == views(old(f)@) + build_cs_findings(source_exists, build_files@.len()),
{
    if !source_exists {
        proof { lemma_concat_empty(views(f@)); }
        return ;
    }
    if build_files.len() == 0 {
        push_finding(
            f,
            finding("B001", Severity::Error, "No .Build.cs files found", "Each module needs a Build.cs"),
        );
    } else {
        let count = decimal_string(build_files.len());
        let msg = cat(count.as_str(), " Build.cs file(s)");
        push_finding(f, finding("B001", Severity::Pass, msg.as_str(), ""));
    }
}

/// D001: reports whether `Content/` exists.
pub fn check_content_dir_exists(exists: bool, f: &mut Vec<Finding>)
    ensures
        views(final(f)@) == views(old(f)@) + content_dir_findings(exists),
{
    if exists {
        push_finding(f, finding("D001", Severity::Pass, "Content/ exists", ""));
    } else {
        push_finding(
            f,
            finding("D001", Severity::Error, "Content/ missing", "Every UE project needs Content/"),
        );
    }
}

/// D002: reports whether `Config/` exists.
pub fn check_config_dir(exists: bool, f: &mut Vec<Finding>)
    ensures
        views(final(f)@) == views(old(f)@) + config_dir_findings(exists),
{
    if exists {
        push_finding(f, finding("D002", Severity::Pass, "Config/ exists", ""));
    } else {
        push_finding(
            f,
            finding("D002", Severity::Error, "Config/ missing", "Project config files required"),
        );
    }
}

/// C001: reports whether `Config/DefaultEngine.ini` exists.
pub fn check_default_engine_ini(exists: bool, f: &mut Vec<Finding>)
    ensures
        views(final(f)@) == views(old(f)@) + default_engine_ini_findings(exists),
{
    if exists {
        push_finding(f, finding("C001", Severity::Pass, "DefaultEngine.ini exists", ""));
    } else {
        push_finding(f, finding("C001", Severity::Warning, "DefaultEngine.ini missing", ""));
    }
}

/// C002: reports whether `Config/DefaultGame.ini` exists.
pub fn check_default_game_ini(exists: bool, f: &mut Vec<Finding>)
    ensures
        views(final(f)@) == views(old(f)@) + default_game_ini_findings(exists),
{
    if exists {
        push_finding(f, finding("C002", Severity::Pass, "DefaultGame.ini exists", ""));
    } else {
        push_finding(
            f,
            finding("C002", Severity::Warning, "DefaultGame.ini missing", "Needed for packaging"),
        );
    }
}

/// SC002 for one folder name missing from `.gitignore`.
fn check_ignore_entry(gitignore: &str, dir: &str, f: &mut Vec<Finding>)
    ensures
        views(final(f)@) == views(old(f)@) + ignore_entry_finding(gitignore@, dir@),
{
    if contains_text(gitignore, dir) {
        proof { lemma_concat_empty(views(f@)); }
    } else {
        let m1 = cat("'", dir);
        let msg = cat(m1.as_str(), "' not in .gitignore");
        push_finding(f, finding("SC002", Severity::Warning, msg.as_str(), "Should not be committed"));
    }
}

/// SC001/SC002: in a git repository (`git_exists`), reports a missing
/// `.gitignore` (`None`), or each of `Intermediate`, `Saved` and
/// `DerivedDataCache` that its text does not mention.
pub fn check_gitignore(git_exists: bool, gitignore: &Option<String>, f: &mut Vec<Finding>)
    ensures
        views(final(f)@) == views(old(f)@) + gitignore_findings(git_exists, opt_view(*gitignore)),
{
    let ghost start = views(f@);
    if !git_exists {
        proof { lemma_concat_empty(start); }
        return ;
    }
    match gitignore {
        None => {
            push_finding(
                f,
                finding(
                    "SC001",
                    Severity::Warning,
                    ".gitignore missing",
                    "Intermediate/, Saved/, DerivedDataCache/ should be ignored",
                ),
            );
        },
        Some(text) => {
            check_ignore_entry(text.as_str(), "Intermediate", f);
            check_ignore_entry(text.as_str(), "Saved", f);
            check_ignore_entry(text.as_str(), "DerivedDataCache", f);
            assert(views(f@) =~= start + gitignore_findings(git_exists, opt_view(*gitignore)));
        },
    }
}

/// SC003/SC004: in a git repository, reports a missing `.gitattributes`
/// (`None`), or one whose text does not mention `uasset`.
pub fn check_git_lfs(git_exists: bool, gitattributes: &Option<String>, f: &mut Vec<Finding>)
    ensures
        views(final(f)@) == views(old(f)@) + git_lfs_findings(git_exists, opt_view(*gitattributes)),
{
    if !git_exists {
        proof { lemma_concat_empty(views(f@)); }
        return ;
    }
    match gitattributes {
        None => {
            push_finding(
                f,
                finding(
                    "SC003",
                    Severity::Warning,
                    "No .gitattributes (no Git LFS)",
                    "Binary assets should use Git LFS",
                ),
            );
        },
        Some(text) => {
            if !contains_text(text.as_str(), "uasset") {
                push_finding(
                    f,
                    finding(
                        "SC004",
                        Severity::Warning,
                        ".gitattributes doesn't track .uasset with LFS",
                        "Add: *.uasset filter=lfs diff=lfs merge=lfs -text",
                    ),
                );
            } else {
                proof { lemma_concat_empty(views(f@)); }
            }
        },
    }
}

/// A001: reports whether the project path, as displayed, holds a space.
pub fn check_spaces_in_path(path: &str, f: &mut Vec<Finding>)
    ensures
        views(final(f)@) == views(old(f)@) + spaces_in_path_findings(path@),
{
    if contains_char(path, ' ') {
        let detail = cat(path, " -- can cause build issues");
        push_finding(
            f,
            finding("A001", Severity::Warning, "Project path contains spaces", detail.as_str()),
        );
    } else {
        push_finding(f, finding("A001", Severity::Pass, "No spaces in project path", ""));
    }
}

/// The bad names among `entries`.
fn collect_bad_names(entries: &Vec<ContentEntry>) -> (r: Vec<String>)
    ensures
        string_views(r@) == bad_content_names(entries@),
{
    let mut r: Vec<String> = Vec::new();
    let mut i: usize = 0;
    while i < entries.len()
        invariant
            i <= entries@.len(),
            string_views(r@) == bad_content_names(entries@.take(i as int)),
        decreases entries@.len() - i,
    {
        proof { lemma_take_drop_last(entries@, i as int); }
        let ghost before = string_views(r@);
        let name = entries[i].name.as_str();
        if contains_char(name, ' ') || starts_with_char(name, '.') {
            r.push(name.to_owned());
            assert(string_views(r@) =~= before + seq![name@]);
        } else {
            assert(before + Seq::<Seq<char>>::empty() =~= before);
        }
        i = i + 1;
    }
    assert(entries@.take(entries@.len() as int) =~= entries@);
    r
}

/// A002: with `entries` the entries of `Content/`, reports the names with a
/// space or a leading dot, or that there are none. Reports nothing when
/// `Content/` does not exist.
pub fn check_content_naming(content_exists: bool, entries: &Vec<ContentEntry>, f: &mut Vec<Finding>)
    ensures
        views(final(f)@) == views(old(f)@) + content_naming_findings(content_exists, entries@),
{
    if !content_exists {
        proof { lemma_concat_empty(views(f@)); }
        return ;
    }
    let bad = collect_bad_names(entries);
    if bad.len() == 0 {
        push_finding(f, finding("A002", Severity::Pass, "Content/ naming is clean", ""));
    } else {
        let count = decimal_string(bad.len());
        let msg = cat(count.as_str(), " content folders with bad names");
        let detail = join_texts(&bad, ", ");
        push_finding(f, finding("A002", Severity::Warning, msg.as_str(), detail.as_str()));
    }
}

/// C003: with `engine_ini` the text of `Config/DefaultEngine.ini` when it
/// exists, reports whether it mentions `GameDefaultMap` or
/// `EditorStartupMap`.
pub fn check_default_map_set(engine_ini: &Option<String>, f: &mut Vec<Finding>)
    ensures
        views(final(f)@) == views(old(f)@) + default_map_findings(opt_view(*engine_ini)),
{
    match engine_ini {
        None => {
            proof { lemma_concat_empty(views(f@)); }
        },
        Some(text) => {
            if contains_text(text.as_str(), "GameDefaultMap") || contains_text(
                text.as_str(),
                "EditorStartupMap",
            ) {
                push_finding(f, finding("C003", Severity::Pass, "Default map configured", ""));
            } else {
                push_finding(
                    f,
                    finding(
                        "C003",
                        Severity::Warning,
                        "No default map set",
                        "Set GameDefaultMap in DefaultEngine.ini",
                    ),
                );
            }
        },
    }
}

/// A003: reports `Content/StarterContent` when it exists.
pub fn check_no_starter_content(exists: bool, f: &mut Vec<Finding>)
    ensures
        views(final(f)@) == views(old(f)@) + starter_content_findings(exists),
{
    if exists {
        push_finding(
            f,
            finding(
                "A003",
                Severity::Warning,
                "StarterContent still present",
                "Remove before packaging to reduce size",
            ),
        );
    } else {
        proof { lemma_concat_empty(views(f@)); }
    }
}

/// C004: with `names` the entry names of `Config/`, reports each that ends
/// with `.ini.bak` or `.ini.old`. Reports nothing when `Config/` does not
/// exist.
pub fn check_binary_config_files(config_exists: bool, names: &Vec<String>, f: &mut Vec<Finding>)
    ensures
        views(final(f)@) == views(old(f)@) + binary_config_findings(
            config_exists,
            string_views(names@),
        ),
{
    let ghost start = views(f@);
    let ghost ns = string_views(names@);
    if !config_exists {
        proof { lemma_concat_empty(start); }
        return ;
    }
    let mut i: usize = 0;
    while i < names.len()
        invariant
            ns == string_views(names@),
            i <= names@.len(),
            views(f@) == start + stale_config_findings(ns.take(i as int)),
        decreases names@.len() - i,
    {
        proof { lemma_take_drop_last(ns, i as int); }
        let ghost before = views(f@);
        let name = names[i].as_str();
        assert(ns[i as int] == name@);
        if ends_with_text(name, ".ini.bak") || ends_with_text(name, ".ini.old") {
            let msg = cat("Stale config backup: Config/", name);
            push_finding(f, finding("C004", Severity::Warning, msg.as_str(), "Remove .bak/.old files"));
        } else {
            proof { lemma_concat_empty(before); }
        }
        proof {
            lemma_concat_assoc(
                start,
                stale_config_findings(ns.take(i as int)),
                if is_stale_config_name(ns[i as int]) {
                    seq![
                        fv(
                            "C004"@,
                            Severity::Warning,
                            "Stale config backup: Config/"@ + ns[i as int],
                            "Remove .bak/.old files"@,
                        ),
                    ]
                } else {
                    Seq::empty()
                },
            );
        }
        i = i + 1;
    }
    assert(ns.take(names@.len() as int) =~= ns);
}

/// The names of the empty folders among `entries`.
fn collect_empty_folders(entries: &Vec<ContentEntry>) -> (r: Vec<String>)
    ensures
        string_views(r@) == empty_folder_names(entries@),
{
    let mut r: Vec<String> = Vec::new();
    let mut i: usize = 0;
    while i < entries.len()
        invariant
            i <= entries@.len(),
            string_views(r@) == empty_folder_names(entries@.take(i as int)),
        decreases entries@.len() - i,
    {
        proof { lemma_take_drop_last(entries@, i as int); }
        let ghost before = string_views(r@);
        if entries[i].is_dir && entries[i].is_empty_dir {
            r.push(entries[i].name.as_str().to_owned());
            assert(string_views(r@) =~= before + seq![entries@[i as int].name@]);
        } else {
            assert(before + Seq::<Seq<char>>::empty() =~= before);
        }
        i = i + 1;
    }
    assert(entries@.take(entries@.len() as int) =~= entries@);
    r
}

/// A004: with `entries` the entries of `Content/`, reports the empty
/// folders among them, if any. Reports nothing when `Content/` does not
/// exist.
pub fn check_empty_folders(content_exists: bool, entries: &Vec<ContentEntry>, f: &mut Vec<Finding>)
    ensures
        views(final(f)@) == views(old(f)@) + empty_folder_findings(content_exists, entries@),
{
    if !content_exists {
        proof { lemma_concat_empty(views(f@)); }
        return ;
    }
    let empty = collect_empty_folders(entries);
    if empty.len() == 0 {
        proof { lemma_concat_empty(views(f@)); }
    } else {
        let count = decimal_string(empty.len());
        let msg = cat(count.as_str(), " empty folder(s) in Content/");
        let detail = join_texts(&empty, ", ");
        push_finding(f, finding("A004", Severity::Warning, msg.as_str(), detail.as_str()));
    }
}

/// Whether some file name ends with `.uplugin`.
fn any_descriptor(file_names: &Vec<String>) -> (r: bool)
    ensures
        r == has_descriptor(string_views(file_names@)),
{
    let ghost ns = string_views(file_names@);
    let mut i: usize = 0;
    while i < file_names.len()
        invariant
            ns == string_views(file_names@),
            i <= file_names@.len(),
            forall|k: int| 0 <= k < i ==> !has_suffix(#[trigger] ns[k], ".uplugin"@),
        decreases file_names@.len() - i,
    {
        assert(ns[i as int] == file_names[i as int]@);
        if ends_with_text(file_names[i].as_str(), ".uplugin") {
            return true;
        }
        i = i + 1;
    }
    false
}

/// PL003: with `folders` the entries of `Plugins/`, reports each folder
/// that holds no file ending with `.uplugin`. Reports nothing when
/// `Plugins/` does not exist.
pub fn check_plugin_uplugin_files(plugins_exists: bool, folders: &Vec<PluginFolder>, f: &mut Vec<Finding>)
    ensures
        views(final(f)@) == views(old(f)@) + plugin_uplugin_findings(plugins_exists, folders@),
{
    let ghost start = views(f@);
    if !plugins_exists {
        proof { lemma_concat_empty(start); }
        return ;
    }
    let mut i: usize = 0;
    while i < folders.len()
        invariant
            i <= folders@.len(),
            views(f@) == start + plugin_folder_findings(folders@.take(i as int)),
        decreases folders@.len() - i,
    {
        proof { lemma_take_drop_last(folders@, i as int); }
        let ghost before = views(f@);
        let p = &folders[i];
        if p.is_dir && !any_descriptor(&p.file_names) {
            let name = p.name.as_str();
            let m1 = cat("Plugin '", name);
            let msg = cat(m1.as_str(), "' has no .uplugin");
            let d1 = cat("Expected: Plugins/", name);
            let d2 = cat(d1.as_str(), "/");
            let d3 = cat(d2.as_str(), name);
            let detail = cat(d3.as_str(), ".uplugin");
            push_finding(f, finding("PL003", Severity::Error, msg.as_str(), detail.as_str()));
        } else {
            proof { lemma_concat_empty(before); }
        }
        proof {
            lemma_concat_assoc(
                start,
                plugin_folder_findings(folders@.take(i as int)),
                plugin_folder_finding(folders@[i as int]),
            );
        }
        i = i + 1;
    }
    assert(folders@.take(folders@.len() as int) =~= folders@);
}

/// D003: reports a `DerivedDataCache/` folder in a git repository whose
/// `.gitignore` text (empty when it cannot be read) does not mention it.
pub fn check_derived_data_cache(ddc_exists: bool, git_exists: bool, gitignore: &str, f: &mut Vec<Finding>)
    ensures
        views(final(f)@) == views(old(f)@) + derived_data_cache_findings(
            ddc_exists,
            git_exists,
            gitignore@,
        ),
{
    if !ddc_exists || !git_exists {
        proof { lemma_concat_empty(views(f@)); }
        return ;
    }
    if !contains_text(gitignore, "DerivedDataCache") {
        push_finding(
            f,
            finding(
                "D003",
                Severity::Warning,
                "DerivedDataCache/ exists and may not be gitignored",
                "Build cache should not be committed",
            ),
        );
    } else {
        proof { lemma_concat_empty(views(f@)); }
    }
}

} // verus!
