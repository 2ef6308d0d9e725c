//! A whole run: every rule, in the order the report lists them, over what
//! was read from one project.
use vstd::prelude::*;

use crate::finding::{views, Finding, FindingView};
use crate::layout::{
    binary_config_findings, build_cs_findings, check_binary_config_files, check_build_cs_files,
    check_config_dir, check_content_dir_exists, check_content_naming, check_default_engine_ini,
    check_default_game_ini, check_default_map_set, check_derived_data_cache, check_empty_folders,
    check_git_lfs, check_gitignore, check_no_starter_content, check_plugin_uplugin_files,
    check_spaces_in_path, check_target_files, config_dir_findings, content_dir_findings,
    content_naming_findings, default_engine_ini_findings, default_game_ini_findings,
    default_map_findings, derived_data_cache_findings, empty_folder_findings, git_lfs_findings,
    gitignore_findings, opt_view, plugin_uplugin_findings, spaces_in_path_findings,
    starter_content_findings, target_findings, ContentEntry, PluginFolder,
};
use crate::project_file::{
    check_duplicate_plugins, check_engine_association, check_modules_listed, check_plugins_valid,
    check_uproject_valid, duplicate_findings, engine_association_findings, listed_plugins,
    modules_listed_findings, plugin_names_of, plugins_valid_findings, uproject_valid_findings,
    PluginProbe,
};
use crate::seq_lemmas::{lemma_concat_empty, lemma_flatten_alt_prefixes};
use crate::text::string_views;

verus! {

/// What was read from a project: the `.uproject` text and what the file
/// system showed around it.
pub struct ProjectSnapshot {
    /// The text of the `.uproject` file (empty when it could not be read).
    pub uproject: String,
    /// The listed module names whose `Source/<name>` folder exists.
    pub module_sources_present: Vec<String>,
    /// `Source/` exists.
    pub source_exists: bool,
    /// The file names of the `*.Target.cs` files directly in `Source/`.
    pub target_names: Vec<String>,
    /// The `*.Build.cs` paths anywhere under `Source/`.
    pub build_files: Vec<String>,
    /// `Content/` exists.
    pub content_exists: bool,
    /// `Config/` exists.
    pub config_exists: bool,
    /// The text of `Config/DefaultEngine.ini` when it exists (empty when it
    /// cannot be read).
    pub default_engine_ini: Option<String>,
    /// `Config/DefaultGame.ini` exists.
    pub default_game_ini_exists: bool,
    /// The local folders of the enabled plugins.
    pub plugin_probes: Vec<PluginProbe>,
    /// `.git` exists.
    pub git_exists: bool,
    /// The text of `.gitignore` when it exists (empty when it cannot be read).
    pub gitignore: Option<String>,
    /// The text of `.gitattributes` when it exists (empty when it cannot be
    /// read).
    pub gitattributes: Option<String>,
    /// The project folder as displayed.
    pub project_path: String,
    /// The entries of `Content/`.
    pub content_entries: Vec<ContentEntry>,
    /// `Content/StarterContent` exists.
    pub starter_content_exists: bool,
    /// The entry names of `Config/`.
    pub config_entries: Vec<String>,
    /// `Plugins/` exists.
    pub plugins_dir_exists: bool,
    /// The entries of `Plugins/`.
    pub plugin_folders: Vec<PluginFolder>,
    /// `DerivedDataCache/` exists.
    pub derived_data_cache_exists: bool,
}

/// The text of `.gitignore` as the cache rule reads it: empty when absent.
pub open spec fn gitignore_text(s: ProjectSnapshot) -> Seq<char> {
    match s.gitignore {
        Some(t) => t@,
        None => Seq::empty(),
    }
}

/// All findings of a run, rule by rule in the report's order.
pub open spec fn diagnosis(s: ProjectSnapshot) -> Seq<FindingView> {
    uproject_valid_findings(s.uproject@) + engine_association_findings(s.uproject@)
        + modules_listed_findings(s.uproject@, string_views(s.module_sources_present@))
        + target_findings(s.source_exists, string_views(s.target_names@)) + build_cs_findings(
        s.source_exists,
        s.build_files@.len(),
    ) + content_dir_findings(s.content_exists) + config_dir_findings(s.config_exists)
        + default_engine_ini_findings(s.default_engine_ini is Some) + default_game_ini_findings(
        s.default_game_ini_exists,
    ) + plugins_valid_findings(listed_plugins(s.uproject@), s.plugin_probes@) + duplicate_findings(
        plugin_names_of(listed_plugins(s.uproject@)),
    ) + gitignore_findings(s.git_exists, opt_view(s.gitignore)) + git_lfs_findings(
        s.git_exists,
        opt_view(s.gitattributes),
    ) + spaces_in_path_findings(s.project_path@) + content_naming_findings(
        s.content_exists,
        s.content_entries@,
    ) + default_map_findings(opt_view(s.default_engine_ini)) + starter_content_findings(
        s.starter_content_exists,
    ) + binary_config_findings(s.config_exists, string_views(s.config_entries@))
        + empty_folder_findings(s.content_exists, s.content_entries@) + plugin_uplugin_findings(
        s.plugins_dir_exists,
        s.plugin_folders@,
    ) + derived_data_cache_findings(s.derived_data_cache_exists, s.git_exists, gitignore_text(s))
}

/// The findings of a run, one sequence per rule, in the report's order.
pub open spec fn diagnosis_parts(s: ProjectSnapshot) -> Seq<Seq<FindingView>> {
    seq![
        uproject_valid_findings(s.uproject@),
        engine_association_findings(s.uproject@),
        modules_listed_findings(s.uproject@, string_views(s.module_sources_present@)),
        target_findings(s.source_exists, string_views(s.target_names@)),
        build_cs_findings(s.source_exists, s.build_files@.len()),
        content_dir_findings(s.content_exists),
        config_dir_findings(s.config_exists),
        default_engine_ini_findings(s.default_engine_ini is Some),
        default_game_ini_findings(s.default_game_ini_exists),
        plugins_valid_findings(listed_plugins(s.uproject@), s.plugin_probes@),
        duplicate_findings(plugin_names_of(listed_plugins(s.uproject@))),
        gitignore_findings(s.git_exists, opt_view(s.gitignore)),
        git_lfs_findings(s.git_exists, opt_view(s.gitattributes)),
        spaces_in_path_findings(s.project_path@),
        content_naming_findings(s.content_exists, s.content_entries@),
        default_map_findings(opt_view(s.default_engine_ini)),
        starter_content_findings(s.starter_content_exists),
        binary_config_findings(s.config_exists, string_views(s.config_entries@)),
        empty_folder_findings(s.content_exists, s.content_entries@),
        plugin_uplugin_findings(s.plugins_dir_exists, s.plugin_folders@),
        derived_data_cache_findings(s.derived_data_cache_exists, s.git_exists, gitignore_text(s)),
    ]
}

/// A run's findings are its rules' findings joined in order.
pub proof fn lemma_diagnosis_parts(s: ProjectSnapshot)
    ensures
        diagnosis_parts(s).len() == 21,
        diagnosis(s) == diagnosis_parts(s).flatten_alt(),
{
    let parts = diagnosis_parts(s);
    assert(parts.take(0) =~= Seq::<Seq<FindingView>>::empty());
    lemma_concat_empty(parts[0]);
    lemma_flatten_alt_prefixes(parts);
    assert(parts.take(21) =~= parts);
}

/// Runs every rule over `snap`, in the report's order.
pub fn diagnose(snap: &ProjectSnapshot) -> (r: Vec<Finding>)
    ensures
        views(r@) == diagnosis(*snap),
{
    let mut f: Vec<Finding> = Vec::new();
    let content = snap.uproject.as_str();
    check_uproject_valid(content, &mut f);
    assert(views(f@) =~= uproject_valid_findings(content@));
    check_engine_association(content, &mut f);
    check_modules_listed(content, &snap.module_sources_present, &mut f);
    check_target_files(snap.source_exists, &snap.target_names, &mut f);
    check_build_cs_files(snap.source_exists, &snap.build_files, &mut f);
    check_content_dir_exists(snap.content_exists, &mut f);
    check_config_dir(snap.config_exists, &mut f);
    check_default_engine_ini(snap.default_engine_ini.is_some(), &mut f);
    check_default_game_ini(snap.default_game_ini_exists, &mut f);
    check_plugins_valid(content, &snap.plugin_probes, &mut f);
    check_duplicate_plugins(content, &mut f);
    check_gitignore(snap.git_exists, &snap.gitignore, &mut f);
    check_git_lfs(snap.git_exists, &snap.gitattributes, &mut f);
    check_spaces_in_path(snap.project_path.as_str(), &mut f);
    check_content_naming(snap.content_exists, &snap.content_entries, &mut f);
    check_default_map_set(&snap.default_engine_ini, &mut f);
    check_no_starter_content(snap.starter_content_exists, &mut f);
    check_binary_config_files(snap.config_exists, &snap.config_entries, &mut f);
    check_empty_folders(snap.content_exists, &snap.content_entries, &mut f);
    check_plugin_uplugin_files(snap.plugins_dir_exists, &snap.plugin_folders, &mut f);
    let gitignore: &str = match &snap.gitignore {
        Some(t) => t.as_str(),
        None => "",
    };
    proof {
        reveal_strlit("");
    }
    assert(gitignore@ == gitignore_text(*snap));
    check_derived_data_cache(snap.derived_data_cache_exists, snap.git_exists, gitignore, &mut f);
    assert(views(f@) =~= diagnosis(*snap));
    f
}

} // verus!
