//! Properties of a whole run and of the rules read from the `.uproject`.
use vstd::multiset::Multiset;
use vstd::prelude::*;

use crate::doctor::{diagnosis, diagnosis_parts, lemma_diagnosis_parts, ProjectSnapshot};
use crate::seq_lemmas::lemma_concat_empty;
use crate::finding::{FindingView, Severity};
use crate::json::{json_parse, JsonValue};
use crate::layout::{plugin_folder_findings, stale_config_findings, PluginFolder};
use crate::project_file::{
    duplicate_findings, engine_association_findings, listed_modules, listed_plugins,
    missing_module_findings, module_name, module_names_of, modules_listed_findings,
    plugin_names_of, plugins_valid_findings, PluginProbe,
};

verus! {

/// One of the rule ids that the rule table of README.md lists.
pub open spec fn is_documented_rule(id: Seq<char>) -> bool {
    ||| id == "P001"@
    ||| id == "P002"@
    ||| id == "M001"@
    ||| id == "M002"@
    ||| id == "T001"@
    ||| id == "T002"@
    ||| id == "T003"@
    ||| id == "B001"@
    ||| id == "D001"@
    ||| id == "D002"@
    ||| id == "D003"@
    ||| id == "C001"@
    ||| id == "C002"@
    ||| id == "C003"@
    ||| id == "C004"@
    ||| id == "PL001"@
    ||| id == "PL002"@
    ||| id == "PL003"@
    ||| id == "SC001"@
    ||| id == "SC002"@
    ||| id == "SC003"@
    ||| id == "SC004"@
    ||| id == "A001"@
    ||| id == "A002"@
    ||| id == "A003"@
    ||| id == "A004"@
}

/// Every finding of `s` carries the rule id `id`.
pub open spec fn all_with_id(s: Seq<FindingView>, id: Seq<char>) -> bool {
    forall|i: int| 0 <= i < s.len() ==> (#[trigger] s[i]).rule_id == id
}

/// Every finding of `s` carries a documented rule id.
pub open spec fn all_documented(s: Seq<FindingView>) -> bool {
    forall|i: int| 0 <= i < s.len() ==> is_documented_rule((#[trigger] s[i]).rule_id)
}

proof fn lemma_append_same_id(a: Seq<FindingView>, b: Seq<FindingView>, id: Seq<char>)
    requires
        all_with_id(a, id),
        all_with_id(b, id),
    ensures
        all_with_id(a + b, id),
{
    assert forall|i: int| 0 <= i < (a + b).len() implies (#[trigger] (a + b)[i]).rule_id == id by {
        if i < a.len() {
            assert((a + b)[i] == a[i]);
        } else {
            assert((a + b)[i] == b[i - a.len()]);
        }
    }
}

proof fn lemma_append_documented(a: Seq<FindingView>, b: Seq<FindingView>)
    requires
        all_documented(a),
        all_documented(b),
    ensures
        all_documented(a + b),
{
    assert forall|i: int| 0 <= i < (a + b).len() implies is_documented_rule(
        (#[trigger] (a + b)[i]).rule_id,
    ) by {
        if i < a.len() {
            assert((a + b)[i] == a[i]);
        } else {
            assert((a + b)[i] == b[i - a.len()]);
        }
    }
}

proof fn lemma_missing_modules_id(mods: Seq<JsonValue>, present: Seq<Seq<char>>)
    ensures
        all_with_id(missing_module_findings(mods, present), "M002"@),
    decreases mods.len(),
{
    if mods.len() > 0 {
        lemma_missing_modules_id(mods.drop_last(), present);
        lemma_append_same_id(
            missing_module_findings(mods.drop_last(), present),
            crate::project_file::missing_module_finding(mods.last(), present),
            "M002"@,
        );
    }
}

proof fn lemma_plugins_valid_id(ps: Seq<JsonValue>, probes: Seq<PluginProbe>)
    ensures
        all_with_id(plugins_valid_findings(ps, probes), "PL001"@),
    decreases ps.len(),
{
    if ps.len() > 0 {
        lemma_plugins_valid_id(ps.drop_last(), probes);
        lemma_append_same_id(
            plugins_valid_findings(ps.drop_last(), probes),
            crate::project_file::plugin_descriptor_finding(ps.last(), probes),
            "PL001"@,
        );
    }
}

proof fn lemma_duplicates_id(names: Seq<Seq<char>>)
    ensures
        all_with_id(duplicate_findings(names), "PL002"@),
    decreases names.len(),
{
    if names.len() > 0 {
        lemma_duplicates_id(names.drop_last());
        let tail = if names.drop_last().contains(names.last()) {
            seq![
                crate::finding::fv(
                    "PL002"@,
                    Severity::Warning,
                    "Duplicate plugin entry: '"@ + names.last() + "'"@,
                    ""@,
                ),
            ]
        } else {
            Seq::empty()
        };
        lemma_append_same_id(duplicate_findings(names.drop_last()), tail, "PL002"@);
    }
}

proof fn lemma_stale_config_id(names: Seq<Seq<char>>)
    ensures
        all_with_id(stale_config_findings(names), "C004"@),
    decreases names.len(),
{
    if names.len() > 0 {
        lemma_stale_config_id(names.drop_last());
        let tail = if crate::layout::is_stale_config_name(names.last()) {
            seq![
                crate::finding::fv(
                    "C004"@,
                    Severity::Warning,
                    "Stale config backup: Config/"@ + names.last(),
                    "Remove .bak/.old files"@,
                ),
            ]
        } else {
            Seq::empty()
        };
        lemma_append_same_id(stale_config_findings(names.drop_last()), tail, "C004"@);
    }
}

proof fn lemma_plugin_folders_id(folders: Seq<PluginFolder>)
    ensures
        all_with_id(plugin_folder_findings(folders), "PL003"@),
    decreases folders.len(),
{
    if folders.len() > 0 {
        lemma_plugin_folders_id(folders.drop_last());
        lemma_append_same_id(
            plugin_folder_findings(folders.drop_last()),
            crate::layout::plugin_folder_finding(folders.last()),
            "PL003"@,
        );
    }
}

proof fn lemma_id_documented(s: Seq<FindingView>, id: Seq<char>)
    requires
        all_with_id(s, id),
        is_documented_rule(id),
    ensures
        all_documented(s),
{
}

/// Each rule's findings in a run carry documented rule ids.
proof fn lemma_parts_documented(s: ProjectSnapshot)
    ensures
        forall|k: int|
            0 <= k < diagnosis_parts(s).len() ==> all_documented(#[trigger] diagnosis_parts(s)[k]),
{
    let c = s.uproject@;
    let p0 = crate::project_file::uproject_valid_findings(c);
    assert(all_documented(p0));
    let p1 = engine_association_findings(c);
    assert(all_documented(p1));
    let p2 = modules_listed_findings(c, crate::text::string_views(s.module_sources_present@));
    match listed_modules(c) {
        Some(mods) => {
            if mods.len() > 0 {
                let present = crate::text::string_views(s.module_sources_present@);
                lemma_missing_modules_id(mods, present);
                let last = seq![
                    crate::finding::fv(
                        "M001"@,
                        Severity::Pass,
                        crate::text::decimal(mods.len()) + " module(s) listed"@,
                        ""@,
                    ),
                ];
                assert(all_documented(last));
                lemma_append_documented(missing_module_findings(mods, present), last);
            }
        },
        None => {},
    }
    assert(all_documented(p2));
    let p3 = crate::layout::target_findings(s.source_exists, crate::text::string_views(s.target_names@));
    if s.source_exists && s.target_names@.len() > 0 {
        let ts = crate::text::string_views(s.target_names@);
        let x = if !crate::layout::has_editor_target(ts) {
            seq![crate::finding::fv("T002"@, Severity::Warning, "No Editor .Target.cs found"@, ""@)]
        } else {
            Seq::empty()
        };
        let y = if !crate::layout::has_game_target(ts) {
            seq![crate::finding::fv("T003"@, Severity::Warning, "No Game .Target.cs found"@, ""@)]
        } else {
            Seq::empty()
        };
        let z = if crate::layout::has_editor_target(ts) && crate::layout::has_game_target(ts) {
            seq![crate::finding::fv("T001"@, Severity::Pass, crate::text::decimal(ts.len()) + " target(s)"@, ""@)]
        } else {
            Seq::empty()
        };
        assert(all_documented(x));
        assert(all_documented(y));
        assert(all_documented(z));
        lemma_append_documented(x, y);
        lemma_append_documented(x + y, z);
    }
    assert(all_documented(p3));
    let p4 = crate::layout::build_cs_findings(s.source_exists, s.build_files@.len());
    assert(all_documented(p4));
    let p5 = crate::layout::content_dir_findings(s.content_exists);
    assert(all_documented(p5));
    let p6 = crate::layout::config_dir_findings(s.config_exists);
    assert(all_documented(p6));
    let p7 = crate::layout::default_engine_ini_findings(s.default_engine_ini is Some);
    assert(all_documented(p7));
    let p8 = crate::layout::default_game_ini_findings(s.default_game_ini_exists);
    assert(all_documented(p8));
    let p9 = plugins_valid_findings(listed_plugins(c), s.plugin_probes@);
    lemma_plugins_valid_id(listed_plugins(c), s.plugin_probes@);
    lemma_id_documented(p9, "PL001"@);
    let p10 = duplicate_findings(plugin_names_of(listed_plugins(c)));
    lemma_duplicates_id(plugin_names_of(listed_plugins(c)));
    lemma_id_documented(p10, "PL002"@);
    let p11 = crate::layout::gitignore_findings(s.git_exists, crate::layout::opt_view(s.gitignore));
    match s.gitignore {
        Some(t) => {
            if s.git_exists {
                let a = crate::layout::ignore_entry_finding(t@, "Intermediate"@);
                let b = crate::layout::ignore_entry_finding(t@, "Saved"@);
                let d = crate::layout::ignore_entry_finding(t@, "DerivedDataCache"@);
                assert(all_with_id(a, "SC002"@));
                assert(all_with_id(b, "SC002"@));
                assert(all_with_id(d, "SC002"@));
                lemma_append_same_id(a, b, "SC002"@);
                lemma_append_same_id(a + b, d, "SC002"@);
                lemma_id_documented(a + b + d, "SC002"@);
            }
        },
        None => {},
    }
    assert(all_documented(p11));
    let p12 = crate::layout::git_lfs_findings(s.git_exists, crate::layout::opt_view(s.gitattributes));
    assert(all_documented(p12));
    let p13 = crate::layout::spaces_in_path_findings(s.project_path@);
    assert(all_documented(p13));
    let p14 = crate::layout::content_naming_findings(s.content_exists, s.content_entries@);
    assert(all_documented(p14));
    let p15 = crate::layout::default_map_findings(crate::layout::opt_view(s.default_engine_ini));
    assert(all_documented(p15));
    let p16 = crate::layout::starter_content_findings(s.starter_content_exists);
    assert(all_documented(p16));
    let p17 = crate::layout::binary_config_findings(s.config_exists, crate::text::string_views(s.config_entries@));
    lemma_stale_config_id(crate::text::string_views(s.config_entries@));
    lemma_id_documented(crate::layout::stale_config_findings(crate::text::string_views(s.config_entries@)), "C004"@);
    assert(all_documented(p17));
    let p18 = crate::layout::empty_folder_findings(s.content_exists, s.content_entries@);
    assert(all_documented(p18));
    let p19 = crate::layout::plugin_uplugin_findings(s.plugins_dir_exists, s.plugin_folders@);
    lemma_plugin_folders_id(s.plugin_folders@);
    lemma_id_documented(plugin_folder_findings(s.plugin_folders@), "PL003"@);
    assert(all_documented(p19));
    let p20 = crate::layout::derived_data_cache_findings(s.derived_data_cache_exists, s.git_exists, crate::doctor::gitignore_text(s));
    assert(all_documented(p20));
    let parts = diagnosis_parts(s);
    assert forall|k: int| 0 <= k < parts.len() implies all_documented(#[trigger] parts[k]) by {
        if k == 0 {
            assert(parts[0] == p0);
        } else if k == 1 {
            assert(parts[1] == p1);
        } else if k == 2 {
            assert(parts[2] == p2);
        } else if k == 3 {
            assert(parts[3] == p3);
        } else if k == 4 {
            assert(parts[4] == p4);
        } else if k == 5 {
            assert(parts[5] == p5);
        } else if k == 6 {
            assert(parts[6] == p6);
        } else if k == 7 {
            assert(parts[7] == p7);
        } else if k == 8 {
            assert(parts[8] == p8);
        } else if k == 9 {
            assert(parts[9] == p9);
        } else if k == 10 {
            assert(parts[10] == p10);
        } else if k == 11 {
            assert(parts[11] == p11);
        } else if k == 12 {
            assert(parts[12] == p12);
        } else if k == 13 {
            assert(parts[13] == p13);
        } else if k == 14 {
            assert(parts[14] == p14);
        } else if k == 15 {
            assert(parts[15] == p15);
        } else if k == 16 {
            assert(parts[16] == p16);
        } else if k == 17 {
            assert(parts[17] == p17);
        } else if k == 18 {
            assert(parts[18] == p18);
        } else if k == 19 {
            assert(parts[19] == p19);
        } else if k == 20 {
            assert(parts[20] == p20);
        }
    }
}

/// Joining sequences whose findings carry documented rule ids gives such a
/// sequence.
proof fn lemma_flatten_documented(parts: Seq<Seq<FindingView>>)
    requires
        forall|k: int| 0 <= k < parts.len() ==> all_documented(#[trigger] parts[k]),
    ensures
        all_documented(parts.flatten_alt()),
    decreases parts.len(),
{
    if parts.len() > 0 {
        lemma_flatten_documented(parts.drop_last());
        lemma_append_documented(parts.drop_last().flatten_alt(), parts.last());
    }
}

/// The first finding of a join is the first finding of its first part.
proof fn lemma_flatten_first(parts: Seq<Seq<FindingView>>)
    requires
        parts.len() > 0,
        parts[0].len() > 0,
    ensures
        parts.flatten_alt().len() > 0,
        parts.flatten_alt()[0] == parts[0][0],
    decreases parts.len(),
{
    if parts.len() == 1 {
        assert(parts.drop_last().len() == 0);
        assert(parts.drop_last().flatten_alt() == Seq::<FindingView>::empty());
        lemma_concat_empty(parts[0]);
        assert(parts.flatten_alt() == parts[0]);
    } else {
        assert(parts.drop_last()[0] == parts[0]);
        lemma_flatten_first(parts.drop_last());
        assert(parts.flatten_alt() == parts.drop_last().flatten_alt() + parts.last());
    }
}

/// Every finding of a run carries one of the rule ids of the rule table of
/// README.md.
pub proof fn lemma_findings_use_documented_rules(s: ProjectSnapshot)
    ensures
        all_documented(diagnosis(s)),
{
    lemma_diagnosis_parts(s);
    lemma_parts_documented(s);
    lemma_flatten_documented(diagnosis_parts(s));
}

/// The first finding of every run is P001, and it passes exactly when the
/// `.uproject` text is JSON.
pub proof fn lemma_first_finding_is_json_check(s: ProjectSnapshot)
    ensures
        diagnosis(s).len() > 0,
        diagnosis(s)[0].rule_id == "P001"@,
        diagnosis(s)[0].severity == Severity::Pass <==> json_parse(s.uproject@) is Ok,
{
    lemma_diagnosis_parts(s);
    let parts = diagnosis_parts(s);
    assert(parts[0] == crate::project_file::uproject_valid_findings(s.uproject@));
    lemma_flatten_first(parts);
}

/// A `.uproject` that is not JSON makes every rule that reads it, other
/// than P001, report nothing.
pub proof fn lemma_invalid_uproject_silences_json_rules(
    content: Seq<char>,
    present: Seq<Seq<char>>,
    probes: Seq<PluginProbe>,
)
    requires
        json_parse(content) is Err,
    ensures
        engine_association_findings(content) == Seq::<FindingView>::empty(),
        modules_listed_findings(content, present) == Seq::<FindingView>::empty(),
        plugins_valid_findings(listed_plugins(content), probes) == Seq::<FindingView>::empty(),
        duplicate_findings(plugin_names_of(listed_plugins(content))) == Seq::<FindingView>::empty(),
{
    assert(plugin_names_of(listed_plugins(content)) =~= Seq::<Seq<char>>::empty());
}

/// Each plugin name is reported as a duplicate once for every occurrence
/// after its first: the warnings and the distinct names together number
/// the entries.
pub proof fn lemma_duplicate_count(names: Seq<Seq<char>>)
    ensures
        duplicate_findings(names).len() + names.to_set().len() == names.len(),
    decreases names.len(),
{
    broadcast use vstd::seq_lib::group_seq_properties;
    broadcast use vstd::set::group_set_axioms;

    if names.len() == 0 {
        assert(names.to_set() =~= Set::<Seq<char>>::empty());
    } else {
        let init = names.drop_last();
        let x = names.last();
        lemma_duplicate_count(init);
        assert(names =~= init.push(x));
        init.lemma_push_to_set_commute(x);
        vstd::seq_lib::seq_to_set_is_finite(init);
        assert(init.contains(x) <==> init.to_set().contains(x));
    }
}

/// No module is reported missing exactly when every named module's source
/// folder is present.
pub proof fn lemma_no_missing_modules(mods: Seq<JsonValue>, present: Seq<Seq<char>>)
    ensures
        missing_module_findings(mods, present).len() == 0 <==> forall|i: int|
            0 <= i < module_names_of(mods).len() ==> present.contains(
                #[trigger] module_names_of(mods)[i],
            ),
    decreases mods.len(),
{
    if mods.len() > 0 {
        let init = mods.drop_last();
        lemma_no_missing_modules(init, present);
        let names = module_names_of(mods);
        let prev = module_names_of(init);
        match module_name(mods.last()) {
            Some(n) => {
                assert(names == prev + seq![n]);
                assert(names[prev.len() as int] == n);
                assert forall|i: int| 0 <= i < prev.len() implies names[i] == prev[i] by {}
            },
            None => {
                assert(names =~= prev);
            },
        }
    }
}

/// The warning PL002 gives for a repeated plugin name.
pub open spec fn duplicate_warning(name: Seq<char>) -> FindingView {
    crate::finding::fv(
        "PL002"@,
        Severity::Warning,
        "Duplicate plugin entry: '"@ + name + "'"@,
        ""@,
    )
}

/// Different names give different warnings.
proof fn lemma_duplicate_warning_injective(x: Seq<char>, y: Seq<char>)
    requires
        duplicate_warning(x) == duplicate_warning(y),
    ensures
        x == y,
{
    let pre = "Duplicate plugin entry: '"@;
    let post = "'"@;
    let mx = pre + x + post;
    let my = pre + y + post;
    assert(mx == my);
    assert(x.len() == y.len());
    assert forall|i: int| 0 <= i < x.len() implies x[i] == y[i] by {
        assert(mx[pre.len() + i] == x[i]);
        assert(my[pre.len() + i] == y[i]);
    }
    assert(x =~= y);
}

/// How often `x` occurs beyond its first occurrence.
pub open spec fn repeats(m: Multiset<Seq<char>>, x: Seq<char>) -> nat {
    if m.count(x) > 0 {
        (m.count(x) - 1) as nat
    } else {
        0
    }
}

/// The duplicate warnings, counted: one per repeat of each name, and no
/// other finding.
proof fn lemma_duplicate_multiset(names: Seq<Seq<char>>)
    ensures
        forall|x: Seq<char>|
            #[trigger] duplicate_findings(names).to_multiset().count(duplicate_warning(x))
                == repeats(names.to_multiset(), x),
        forall|w: FindingView|
            #[trigger] duplicate_findings(names).to_multiset().count(w) > 0 ==> exists|x: Seq<char>|
                w == #[trigger] duplicate_warning(x),
    decreases names.len(),
{
    broadcast use vstd::seq_lib::group_to_multiset_ensures;
    broadcast use vstd::multiset::group_multiset_axioms;

    if names.len() == 0 {
        assert(duplicate_findings(names) =~= Seq::<FindingView>::empty());
        assert(names.to_multiset() =~= Multiset::<Seq<char>>::empty());
        assert(duplicate_findings(names).to_multiset() =~= Multiset::<FindingView>::empty());
    } else {
        let init = names.drop_last();
        let l = names.last();
        lemma_duplicate_multiset(init);
        assert(names =~= init.push(l));
        let d0 = duplicate_findings(init);
        let m0 = init.to_multiset();
        assert(names.to_multiset() == m0.insert(l));
        if init.contains(l) {
            assert(duplicate_findings(names) =~= d0.push(duplicate_warning(l)));
            assert(duplicate_findings(names).to_multiset() == d0.to_multiset().insert(
                duplicate_warning(l),
            ));
            assert(m0.count(l) > 0);
            assert forall|x: Seq<char>|
                #[trigger] duplicate_findings(names).to_multiset().count(duplicate_warning(x))
                    == repeats(names.to_multiset(), x) by {
                if x != l {
                    if duplicate_warning(x) == duplicate_warning(l) {
                        lemma_duplicate_warning_injective(x, l);
                    }
                    assert(d0.to_multiset().count(duplicate_warning(x)) == repeats(m0, x));
                } else {
                    assert(d0.to_multiset().count(duplicate_warning(l)) == repeats(m0, l));
                }
            }
            assert forall|w: FindingView|
                #[trigger] duplicate_findings(names).to_multiset().count(w) > 0 implies exists|
                    x: Seq<char>,
                | w == #[trigger] duplicate_warning(x) by {
                if w != duplicate_warning(l) {
                    assert(d0.to_multiset().count(w) > 0);
                }
            }
        } else {
            assert(duplicate_findings(names) =~= d0);
            assert(m0.count(l) == 0);
            assert forall|x: Seq<char>|
                #[trigger] duplicate_findings(names).to_multiset().count(duplicate_warning(x))
                    == repeats(names.to_multiset(), x) by {
                assert(d0.to_multiset().count(duplicate_warning(x)) == repeats(m0, x));
            }
        }
    }
}

/// Reordering the plugin names only reorders the duplicate warnings: the
/// same warnings come out, as many times each.
pub proof fn lemma_duplicates_reorder(names1: Seq<Seq<char>>, names2: Seq<Seq<char>>)
    requires
        names1.to_multiset() == names2.to_multiset(),
    ensures
        duplicate_findings(names1).to_multiset() == duplicate_findings(names2).to_multiset(),
        duplicate_findings(names1).len() == duplicate_findings(names2).len(),
{
    broadcast use vstd::seq_lib::group_to_multiset_ensures;

    lemma_duplicate_multiset(names1);
    lemma_duplicate_multiset(names2);
    let d1 = duplicate_findings(names1).to_multiset();
    let d2 = duplicate_findings(names2).to_multiset();
    assert forall|w: FindingView| d1.count(w) == d2.count(w) by {
        if d1.count(w) > 0 || d2.count(w) > 0 {
            let x = choose|x: Seq<char>| w == #[trigger] duplicate_warning(x);
            assert(d1.count(duplicate_warning(x)) == repeats(names1.to_multiset(), x));
            assert(d2.count(duplicate_warning(x)) == repeats(names2.to_multiset(), x));
        }
    }
    assert(d1 =~= d2);
    assert(duplicate_findings(names1).len() == d1.len());
    assert(duplicate_findings(names2).len() == d2.len());
}

/// Mapping two sequences with the same elements gives sequences with the
/// same elements.
proof fn lemma_map_same_elements<A, B>(s: Seq<A>, t: Seq<A>, f: spec_fn(A) -> B)
    requires
        s.to_multiset() == t.to_multiset(),
    ensures
        s.map_values(f).to_multiset() == t.map_values(f).to_multiset(),
    decreases s.len(),
{
    broadcast use vstd::seq_lib::group_to_multiset_ensures;
    broadcast use vstd::multiset::group_multiset_axioms;

    if s.len() == 0 {
        assert(s.to_multiset().len() == 0);
        assert(t.to_multiset().len() == t.len());
        assert(t.len() == 0);
        assert(s.map_values(f) =~= t.map_values(f));
    } else {
        let x = s.last();
        let s0 = s.drop_last();
        assert(s =~= s0.push(x));
        assert(s.to_multiset().count(x) > 0);
        assert(t.contains(x));
        let i = choose|i: int| 0 <= i < t.len() && t[i] == x;
        let t0 = t.remove(i);
        assert(t0.to_multiset() =~= s0.to_multiset());
        lemma_map_same_elements(s0, t0, f);
        assert(s.map_values(f) =~= s0.map_values(f).push(f(x)));
        let tm = t.map_values(f);
        assert(tm.remove(i) =~= t0.map_values(f));
        assert(tm[i] == f(x));
        assert(tm.to_multiset().count(f(x)) > 0);
        assert(tm.to_multiset() =~= t0.map_values(f).to_multiset().insert(f(x)));
    }
}

/// Reordering the plugin entries of a `.uproject` only reorders the
/// duplicate warnings: the same warnings come out, as many times each.
pub proof fn lemma_plugin_reorder(ps1: Seq<JsonValue>, ps2: Seq<JsonValue>)
    requires
        ps1.to_multiset() == ps2.to_multiset(),
    ensures
        duplicate_findings(plugin_names_of(ps1)).to_multiset() == duplicate_findings(
            plugin_names_of(ps2),
        ).to_multiset(),
        duplicate_findings(plugin_names_of(ps1)).len() == duplicate_findings(
            plugin_names_of(ps2),
        ).len(),
{
    lemma_map_same_elements(ps1, ps2, |p: JsonValue| crate::project_file::plugin_name(p));
    lemma_duplicates_reorder(plugin_names_of(ps1), plugin_names_of(ps2));
}

} // verus!
