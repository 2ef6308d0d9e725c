//! What each rule reports, stated over the rule's inputs: which texts,
//! names and entries lead to which findings.
use vstd::prelude::*;

use crate::finding::{fv, FindingView, Severity};
use crate::layout::{
    has_descriptor, plugin_folder_findings, plugin_uplugin_findings, ContentEntry, PluginFolder,
    config_dir_findings, content_dir_findings, default_engine_ini_findings,
    default_game_ini_findings, default_map_findings, derived_data_cache_findings,
    git_lfs_findings, gitignore_findings, spaces_in_path_findings, starter_content_findings,
};
use crate::json::{as_items, as_text, json_get, JsonValue};
use crate::project_file::{
    doc_engine_association_findings, doc_modules_listed_findings, missing_module_findings,
    plugin_enabled, plugin_name, plugins_valid_findings, probe_for, PluginProbe,
};
use crate::text::{has_substring, has_suffix, string_views};

verus! {

// ---------------------------------------------------------------------------
// Text
// ---------------------------------------------------------------------------

/// `needle` occurs in `hay` exactly when `hay` is some text, `needle`, then
/// some text.
pub proof fn lemma_substring_is_infix(hay: Seq<char>, needle: Seq<char>)
    ensures
        has_substring(hay, needle) <==> exists|a: Seq<char>, b: Seq<char>|
            hay == #[trigger] (a + needle + b),
{
    if has_substring(hay, needle) {
        let i = choose|i: int|
            0 <= i && i + needle.len() <= hay.len() && #[trigger] hay.subrange(
                i,
                i + needle.len(),
            ) == needle;
        let a = hay.subrange(0, i);
        let b = hay.subrange(i + needle.len(), hay.len() as int);
        assert(hay =~= a + needle + b);
    }
    if exists|a: Seq<char>, b: Seq<char>| hay == #[trigger] (a + needle + b) {
        let (a, b) = choose|a: Seq<char>, b: Seq<char>| hay == #[trigger] (a + needle + b);
        let i = a.len() as int;
        assert(hay.subrange(i, i + needle.len()) =~= needle);
    }
}

/// `hay` ends with `suffix` exactly when it is some text followed by
/// `suffix`.
pub proof fn lemma_suffix_is_tail(hay: Seq<char>, suffix: Seq<char>)
    ensures
        has_suffix(hay, suffix) <==> exists|a: Seq<char>| hay == #[trigger] (a + suffix),
{
    if has_suffix(hay, suffix) {
        let a = hay.subrange(0, hay.len() - suffix.len());
        assert(hay =~= a + suffix);
    }
    if exists|a: Seq<char>| hay == #[trigger] (a + suffix) {
        let a = choose|a: Seq<char>| hay == #[trigger] (a + suffix);
        assert(hay.subrange(hay.len() - suffix.len(), hay.len() as int) =~= suffix);
    }
}

/// The number that a text of decimal digits spells.
pub open spec fn digits_value(t: Seq<char>) -> int
    decreases t.len(),
{
    if t.len() == 0 {
        0
    } else {
        digits_value(t.drop_last()) * 10 + (t.last() as int - '0' as int)
    }
}

proof fn lemma_digit_text(d: nat)
    requires
        d < 10,
    ensures
        crate::text::digit_text(d).len() == 1,
        crate::text::digit_text(d)[0] as int == '0' as int + d,
{
    reveal_strlit("0");
    reveal_strlit("1");
    reveal_strlit("2");
    reveal_strlit("3");
    reveal_strlit("4");
    reveal_strlit("5");
    reveal_strlit("6");
    reveal_strlit("7");
    reveal_strlit("8");
    reveal_strlit("9");
}

/// A count is written in decimal: every character is a digit, the first is
/// `0` only for zero itself, and the digits spell the count.
pub proof fn lemma_decimal_spells_count(n: nat)
    ensures
        crate::text::decimal(n).len() > 0,
        forall|k: int|
            0 <= k < crate::text::decimal(n).len() ==> '0' <= #[trigger] crate::text::decimal(
                n,
            )[k] <= '9',
        n > 0 ==> crate::text::decimal(n)[0] != '0',
        digits_value(crate::text::decimal(n)) == n,
    decreases n,
{
    let t = crate::text::decimal(n);
    if n < 10 {
        lemma_digit_text(n);
        assert(t.drop_last() =~= Seq::<char>::empty());
        assert(digits_value(t.drop_last()) == 0);
    } else {
        let q = n / 10;
        let r = n % 10;
        lemma_decimal_spells_count(q);
        lemma_digit_text(r);
        let h = crate::text::decimal(q);
        assert(t == h + crate::text::digit_text(r));
        assert(t.drop_last() =~= h);
        assert(t.last() == crate::text::digit_text(r)[0]);
        assert forall|k: int| 0 <= k < t.len() implies '0' <= #[trigger] t[k] <= '9' by {
            if k < h.len() {
                assert(t[k] == h[k]);
            }
        }
        assert(t[0] == h[0]);
        assert(digits_value(t) == digits_value(h) * 10 + r);
    }
}

/// Some text, `d`, then some text holds `d`.
proof fn lemma_infix_found(a: Seq<char>, d: Seq<char>, b: Seq<char>)
    ensures
        has_substring(a + d + b, d),
{
    lemma_substring_is_infix(a + d + b, d);
}

/// A text that is not some text, `d`, then some text does not hold `d`.
proof fn lemma_infix_absent(t: Seq<char>, d: Seq<char>)
    requires
        forall|a: Seq<char>, b: Seq<char>| t != #[trigger] (a + d + b),
    ensures
        !has_substring(t, d),
{
    lemma_substring_is_infix(t, d);
}

/// Quoted folder names in different SC002 messages differ.
proof fn lemma_quoted_injective(x: Seq<char>, y: Seq<char>, post: Seq<char>)
    requires
        "'"@ + x + post == "'"@ + y + post,
    ensures
        x == y,
{
    let mx = "'"@ + x + post;
    let my = "'"@ + y + post;
    assert(mx == my);
    assert(mx.len() == my.len());
    assert(x.len() == y.len());
    assert forall|i: int| 0 <= i < x.len() implies x[i] == y[i] by {
        assert(mx["'"@.len() + i] == x[i]);
        assert(my["'"@.len() + i] == y[i]);
    }
    assert(x =~= y);
}

// ---------------------------------------------------------------------------
// Folders, config files and the project path
// ---------------------------------------------------------------------------

/// D001, D002, C001, C002 and A003 report what exists: a present folder or
/// file passes, a missing one is an error (folders) or a warning (config
/// files), and StarterContent is reported exactly when it is present.
pub proof fn lemma_presence_rules(exists: bool)
    ensures
        exists ==> content_dir_findings(exists) == seq![
            fv("D001"@, Severity::Pass, "Content/ exists"@, ""@),
        ],
        !exists ==> content_dir_findings(exists) == seq![
            fv("D001"@, Severity::Error, "Content/ missing"@, "Every UE project needs Content/"@),
        ],
        exists ==> config_dir_findings(exists) == seq![
            fv("D002"@, Severity::Pass, "Config/ exists"@, ""@),
        ],
        !exists ==> config_dir_findings(exists) == seq![
            fv("D002"@, Severity::Error, "Config/ missing"@, "Project config files required"@),
        ],
        exists ==> default_engine_ini_findings(exists) == seq![
            fv("C001"@, Severity::Pass, "DefaultEngine.ini exists"@, ""@),
        ],
        !exists ==> default_engine_ini_findings(exists) == seq![
            fv("C001"@, Severity::Warning, "DefaultEngine.ini missing"@, ""@),
        ],
        exists ==> default_game_ini_findings(exists) == seq![
            fv("C002"@, Severity::Pass, "DefaultGame.ini exists"@, ""@),
        ],
        !exists ==> default_game_ini_findings(exists) == seq![
            fv("C002"@, Severity::Warning, "DefaultGame.ini missing"@, "Needed for packaging"@),
        ],
        exists ==> starter_content_findings(exists) == seq![
            fv(
                "A003"@,
                Severity::Warning,
                "StarterContent still present"@,
                "Remove before packaging to reduce size"@,
            ),
        ],
        !exists ==> starter_content_findings(exists).len() == 0,
{
}

/// A001: a path with a space anywhere is a warning that quotes the path.
pub proof fn lemma_space_in_path_warns(path: Seq<char>, i: int)
    requires
        0 <= i < path.len(),
        path[i] == ' ',
    ensures
        spaces_in_path_findings(path) == seq![
            fv(
                "A001"@,
                Severity::Warning,
                "Project path contains spaces"@,
                path + " -- can cause build issues"@,
            ),
        ],
{
    assert(path.contains(' '));
}

/// A001: a path without any space passes.
pub proof fn lemma_path_without_space_passes(path: Seq<char>)
    requires
        forall|i: int| 0 <= i < path.len() ==> path[i] != ' ',
    ensures
        spaces_in_path_findings(path) == seq![
            fv("A001"@, Severity::Pass, "No spaces in project path"@, ""@),
        ],
{
}

/// The SC002 warning for a folder missing from `.gitignore`.
pub open spec fn not_ignored_warning(d: Seq<char>) -> FindingView {
    fv("SC002"@, Severity::Warning, "'"@ + d + "' not in .gitignore"@, "Should not be committed"@)
}

/// One of the folders that `.gitignore` should mention.
pub open spec fn is_ignorable_folder(d: Seq<char>) -> bool {
    d == "Intermediate"@ || d == "Saved"@ || d == "DerivedDataCache"@
}

/// SC002: in a git repository, a `.gitignore` whose text holds one of
/// `Intermediate`, `Saved`, `DerivedDataCache` anywhere is never warned
/// about for that folder.
pub proof fn lemma_mentioned_folder_not_reported(
    a: Seq<char>,
    d: Seq<char>,
    b: Seq<char>,
)
    requires
        is_ignorable_folder(d),
    ensures
        !gitignore_findings(true, Some(a + d + b)).contains(not_ignored_warning(d)),
{
    let t = a + d + b;
    lemma_infix_found(a, d, b);
    let w = not_ignored_warning(d);
    let x = crate::layout::ignore_entry_finding(t, "Intermediate"@);
    let y = crate::layout::ignore_entry_finding(t, "Saved"@);
    let z = crate::layout::ignore_entry_finding(t, "DerivedDataCache"@);
    lemma_entry_not_warning(t, "Intermediate"@, d);
    lemma_entry_not_warning(t, "Saved"@, d);
    lemma_entry_not_warning(t, "DerivedDataCache"@, d);
    let fs = gitignore_findings(true, Some(t));
    assert(fs == x + y + z);
    if fs.contains(w) {
        let k = choose|k: int| 0 <= k < fs.len() && fs[k] == w;
        if k < x.len() {
            assert(x[k] == w);
        } else if k < x.len() + y.len() {
            assert(y[k - x.len()] == w);
        } else {
            assert(z[k - x.len() - y.len()] == w);
        }
    }
}

/// The SC002 entry for folder `e` never carries the warning for another
/// folder `d`, nor for `d` itself when the text holds `d`.
proof fn lemma_entry_not_warning(t: Seq<char>, e: Seq<char>, d: Seq<char>)
    requires
        e == d ==> has_substring(t, d),
    ensures
        !crate::layout::ignore_entry_finding(t, e).contains(not_ignored_warning(d)),
{
    let fs = crate::layout::ignore_entry_finding(t, e);
    if fs.contains(not_ignored_warning(d)) {
        assert(fs[0] == not_ignored_warning(d));
        lemma_quoted_injective(e, d, "' not in .gitignore"@);
    }
}

/// SC002: in a git repository, a `.gitignore` whose text nowhere holds one
/// of `Intermediate`, `Saved`, `DerivedDataCache` is warned about for that
/// folder.
pub proof fn lemma_unmentioned_folder_reported(t: Seq<char>, d: Seq<char>)
    requires
        is_ignorable_folder(d),
        forall|a: Seq<char>, b: Seq<char>| t != #[trigger] (a + d + b),
    ensures
        gitignore_findings(true, Some(t)).contains(not_ignored_warning(d)),
{
    lemma_infix_absent(t, d);
    let fs = gitignore_findings(true, Some(t));
    let x = crate::layout::ignore_entry_finding(t, "Intermediate"@);
    let y = crate::layout::ignore_entry_finding(t, "Saved"@);
    let z = crate::layout::ignore_entry_finding(t, "DerivedDataCache"@);
    if d == "Intermediate"@ {
        assert(fs[0] == not_ignored_warning(d));
    } else if d == "Saved"@ {
        assert(fs[x.len() as int] == not_ignored_warning(d));
    } else {
        assert(fs[(x.len() + y.len()) as int] == not_ignored_warning(d));
    }
}

/// SC001: in a git repository without `.gitignore`, the missing file is
/// reported and nothing else; outside a repository nothing is reported.
pub proof fn lemma_gitignore_presence(git_exists: bool, t: Option<Seq<char>>)
    ensures
        !git_exists ==> gitignore_findings(git_exists, t) == Seq::<FindingView>::empty(),
        git_exists && t is None ==> gitignore_findings(git_exists, t) == seq![
            fv(
                "SC001"@,
                Severity::Warning,
                ".gitignore missing"@,
                "Intermediate/, Saved/, DerivedDataCache/ should be ignored"@,
            ),
        ],
{
}

/// SC003/SC004: in a git repository, a missing `.gitattributes` is SC003; a
/// present one holding `uasset` anywhere is fine, and one that nowhere
/// holds it is SC004.
pub proof fn lemma_git_lfs(t: Seq<char>)
    ensures
        git_lfs_findings(true, None) == seq![
            fv(
                "SC003"@,
                Severity::Warning,
                "No .gitattributes (no Git LFS)"@,
                "Binary assets should use Git LFS"@,
            ),
        ],
        (exists|a: Seq<char>, b: Seq<char>| t == #[trigger] (a + "uasset"@ + b)) ==> git_lfs_findings(
            true,
            Some(t),
        ) == Seq::<FindingView>::empty(),
        (forall|a: Seq<char>, b: Seq<char>| t != #[trigger] (a + "uasset"@ + b)) ==> git_lfs_findings(
            true,
            Some(t),
        ) == seq![
            fv(
                "SC004"@,
                Severity::Warning,
                ".gitattributes doesn't track .uasset with LFS"@,
                "Add: *.uasset filter=lfs diff=lfs merge=lfs -text"@,
            ),
        ],
        git_lfs_findings(false, Some(t)) == Seq::<FindingView>::empty(),
{
    lemma_substring_is_infix(t, "uasset"@);
}

/// C003: an existing `DefaultEngine.ini` whose text holds `GameDefaultMap`
/// or `EditorStartupMap` anywhere passes; one that holds neither is a
/// warning; without the file nothing is reported.
pub proof fn lemma_default_map(t: Seq<char>)
    ensures
        (exists|a: Seq<char>, b: Seq<char>| t == #[trigger] (a + "GameDefaultMap"@ + b)) || (exists|
            a: Seq<char>,
            b: Seq<char>,
        | t == #[trigger] (a + "EditorStartupMap"@ + b)) ==> default_map_findings(Some(t)) == seq![
            fv("C003"@, Severity::Pass, "Default map configured"@, ""@),
        ],
        (forall|a: Seq<char>, b: Seq<char>| t != #[trigger] (a + "GameDefaultMap"@ + b)) && (forall|
            a: Seq<char>,
            b: Seq<char>,
        | t != #[trigger] (a + "EditorStartupMap"@ + b)) ==> default_map_findings(Some(t)) == seq![
            fv(
                "C003"@,
                Severity::Warning,
                "No default map set"@,
                "Set GameDefaultMap in DefaultEngine.ini"@,
            ),
        ],
        default_map_findings(None) == Seq::<FindingView>::empty(),
{
    lemma_substring_is_infix(t, "GameDefaultMap"@);
    lemma_substring_is_infix(t, "EditorStartupMap"@);
}

/// D003: a `DerivedDataCache/` folder in a git repository is reported
/// exactly when the `.gitignore` text nowhere holds `DerivedDataCache`.
pub proof fn lemma_derived_data_cache(ddc_exists: bool, git_exists: bool, t: Seq<char>)
    ensures
        !ddc_exists || !git_exists ==> derived_data_cache_findings(ddc_exists, git_exists, t)
            == Seq::<FindingView>::empty(),
        (exists|a: Seq<char>, b: Seq<char>| t == #[trigger] (a + "DerivedDataCache"@ + b))
            ==> derived_data_cache_findings(ddc_exists, git_exists, t) == Seq::<
            FindingView,
        >::empty(),
        ddc_exists && git_exists && (forall|a: Seq<char>, b: Seq<char>| t != #[trigger] (a
            + "DerivedDataCache"@ + b)) ==> derived_data_cache_findings(ddc_exists, git_exists, t)
            == seq![
            fv(
                "D003"@,
                Severity::Warning,
                "DerivedDataCache/ exists and may not be gitignored"@,
                "Build cache should not be committed"@,
            ),
        ],
{
    lemma_substring_is_infix(t, "DerivedDataCache"@);
}

// ---------------------------------------------------------------------------
// Targets and build files
// ---------------------------------------------------------------------------

/// Every finding of `s` carries a rule id other than `id`.
pub open spec fn none_with_id(s: Seq<FindingView>, id: Seq<char>) -> bool {
    forall|k: int| 0 <= k < s.len() ==> (#[trigger] s[k]).rule_id != id
}

/// The three target rule ids differ.
proof fn lemma_target_ids_differ()
    ensures
        "T001"@ != "T002"@,
        "T001"@ != "T003"@,
        "T002"@ != "T003"@,
{
    reveal_strlit("T001");
    reveal_strlit("T002");
    reveal_strlit("T003");
    assert("T001"@[3] != "T002"@[3]);
    assert("T001"@[3] != "T003"@[3]);
    assert("T002"@[3] != "T003"@[3]);
}

/// A join of three parts holds no finding with `id` when none of the parts
/// does.
proof fn lemma_three_none_with_id(
    x: Seq<FindingView>,
    y: Seq<FindingView>,
    z: Seq<FindingView>,
    id: Seq<char>,
)
    requires
        none_with_id(x, id),
        none_with_id(y, id),
        none_with_id(z, id),
    ensures
        none_with_id(x + y + z, id),
{
    let s = x + y + z;
    assert forall|k: int| 0 <= k < s.len() implies (#[trigger] s[k]).rule_id != id by {
        if k < x.len() {
            assert(s[k] == x[k]);
        } else if k < x.len() + y.len() {
            assert(s[k] == y[k - x.len()]);
        } else {
            assert(s[k] == z[k - x.len() - y.len()]);
        }
    }
}

/// T003: when some target file name holds neither `Editor.Target` nor
/// `Server.Target`, a game target exists and T003 is not reported.
pub proof fn lemma_game_target_counts(names: Seq<Seq<char>>, i: int)
    requires
        0 <= i < names.len(),
        forall|a: Seq<char>, b: Seq<char>| names[i] != #[trigger] (a + "Editor.Target"@ + b),
        forall|a: Seq<char>, b: Seq<char>| names[i] != #[trigger] (a + "Server.Target"@ + b),
    ensures
        none_with_id(crate::layout::target_findings(true, names), "T003"@),
{
    lemma_infix_absent(names[i], "Editor.Target"@);
    lemma_infix_absent(names[i], "Server.Target"@);
    assert(crate::layout::is_game_target(names[i]));
    assert(crate::layout::has_game_target(names));
    lemma_target_ids_differ();
    let x = if !crate::layout::has_editor_target(names) {
        seq![fv("T002"@, Severity::Warning, "No Editor .Target.cs found"@, ""@)]
    } else {
        Seq::empty()
    };
    let z = if crate::layout::has_editor_target(names) {
        seq![fv("T001"@, Severity::Pass, crate::text::decimal(names.len()) + " target(s)"@, ""@)]
    } else {
        Seq::empty()
    };
    assert forall|k: int| 0 <= k < x.len() implies (#[trigger] x[k]).rule_id != "T003"@ by {
        assert(x[k].rule_id == "T002"@);
    }
    assert forall|k: int| 0 <= k < z.len() implies (#[trigger] z[k]).rule_id != "T003"@ by {
        assert(z[k].rule_id == "T001"@);
    }
    lemma_three_none_with_id(x, Seq::empty(), z, "T003"@);
    assert(crate::layout::target_findings(true, names) == x + Seq::<FindingView>::empty() + z);
}

/// T002: when some target file name holds `Editor.Target`, an editor
/// target exists and T002 is not reported.
pub proof fn lemma_editor_target_counts(names: Seq<Seq<char>>, i: int, a: Seq<char>, b: Seq<char>)
    requires
        0 <= i < names.len(),
        names[i] == a + "Editor.Target"@ + b,
    ensures
        none_with_id(crate::layout::target_findings(true, names), "T002"@),
{
    lemma_infix_found(a, "Editor.Target"@, b);
    assert(crate::layout::has_editor_target(names));
    lemma_target_ids_differ();
    let y = if !crate::layout::has_game_target(names) {
        seq![fv("T003"@, Severity::Warning, "No Game .Target.cs found"@, ""@)]
    } else {
        Seq::empty()
    };
    let z = if crate::layout::has_game_target(names) {
        seq![fv("T001"@, Severity::Pass, crate::text::decimal(names.len()) + " target(s)"@, ""@)]
    } else {
        Seq::empty()
    };
    assert forall|k: int| 0 <= k < y.len() implies (#[trigger] y[k]).rule_id != "T002"@ by {
        assert(y[k].rule_id == "T003"@);
    }
    assert forall|k: int| 0 <= k < z.len() implies (#[trigger] z[k]).rule_id != "T002"@ by {
        assert(z[k].rule_id == "T001"@);
    }
    lemma_three_none_with_id(Seq::empty(), y, z, "T002"@);
    assert(crate::layout::target_findings(true, names) == Seq::<FindingView>::empty() + y + z);
}

/// T001: with both an editor target and a game target, the only finding is
/// the pass that counts the targets.
pub proof fn lemma_both_targets_pass(
    names: Seq<Seq<char>>,
    i: int,
    a: Seq<char>,
    b: Seq<char>,
    j: int,
)
    requires
        0 <= i < names.len(),
        names[i] == a + "Editor.Target"@ + b,
        0 <= j < names.len(),
        forall|c: Seq<char>, d: Seq<char>| names[j] != #[trigger] (c + "Editor.Target"@ + d),
        forall|c: Seq<char>, d: Seq<char>| names[j] != #[trigger] (c + "Server.Target"@ + d),
    ensures
        crate::layout::target_findings(true, names) == seq![
            fv("T001"@, Severity::Pass, crate::text::decimal(names.len()) + " target(s)"@, ""@),
        ],
{
    lemma_infix_found(a, "Editor.Target"@, b);
    assert(crate::layout::has_editor_target(names));
    lemma_infix_absent(names[j], "Editor.Target"@);
    lemma_infix_absent(names[j], "Server.Target"@);
    assert(crate::layout::is_game_target(names[j]));
    assert(crate::layout::has_game_target(names));
    assert(crate::layout::target_findings(true, names) =~= seq![
        fv("T001"@, Severity::Pass, crate::text::decimal(names.len()) + " target(s)"@, ""@),
    ]);
}

/// T003: when every target file name holds `Editor.Target` or
/// `Server.Target`, there is no game target and T003 is reported.
pub proof fn lemma_no_game_target_warns(names: Seq<Seq<char>>)
    requires
        names.len() > 0,
        forall|i: int|
            0 <= i < names.len() ==> (exists|a: Seq<char>, b: Seq<char>| #[trigger] names[i] == a
                + "Editor.Target"@ + b) || (exists|a: Seq<char>, b: Seq<char>| names[i] == a
                + "Server.Target"@ + b),
    ensures
        crate::layout::target_findings(true, names).contains(
            fv("T003"@, Severity::Warning, "No Game .Target.cs found"@, ""@),
        ),
{
    assert forall|i: int| 0 <= i < names.len() implies !crate::layout::is_game_target(
        #[trigger] names[i],
    ) by {
        lemma_substring_is_infix(names[i], "Editor.Target"@);
        lemma_substring_is_infix(names[i], "Server.Target"@);
    }
    let tf = crate::layout::target_findings(true, names);
    let x = if !crate::layout::has_editor_target(names) {
        seq![fv("T002"@, Severity::Warning, "No Editor .Target.cs found"@, ""@)]
    } else {
        Seq::empty()
    };
    assert(tf[x.len() as int] == fv("T003"@, Severity::Warning, "No Game .Target.cs found"@, ""@));
}

/// T002: when no target file name holds `Editor.Target`, T002 is reported.
pub proof fn lemma_no_editor_target_warns(names: Seq<Seq<char>>)
    requires
        names.len() > 0,
        forall|i: int, a: Seq<char>, b: Seq<char>|
            #![trigger names[i], a + "Editor.Target"@ + b]
            0 <= i < names.len() ==> names[i] != a + "Editor.Target"@ + b,
    ensures
        crate::layout::target_findings(true, names)[0] == fv(
            "T002"@,
            Severity::Warning,
            "No Editor .Target.cs found"@,
            ""@,
        ),
{
    assert forall|i: int| 0 <= i < names.len() implies !has_substring(
        #[trigger] names[i],
        "Editor.Target"@,
    ) by {
        lemma_substring_is_infix(names[i], "Editor.Target"@);
    }
}

/// T001/B001: no `*.Target.cs` or `*.Build.cs` file at all is an error;
/// without `Source/` nothing is reported; build files are counted.
pub proof fn lemma_target_and_build_edges(names: Seq<Seq<char>>, count: nat)
    ensures
        crate::layout::target_findings(false, names).len() == 0,
        crate::layout::build_cs_findings(false, count).len() == 0,
        names.len() == 0 ==> crate::layout::target_findings(true, names) == seq![
            fv(
                "T001"@,
                Severity::Error,
                "No .Target.cs files in Source/"@,
                "Need at least GameTarget and EditorTarget"@,
            ),
        ],
        count == 0 ==> crate::layout::build_cs_findings(true, count) == seq![
            fv("B001"@, Severity::Error, "No .Build.cs files found"@, "Each module needs a Build.cs"@),
        ],
        count > 0 ==> crate::layout::build_cs_findings(true, count) == seq![
            fv("B001"@, Severity::Pass, crate::text::decimal(count) + " Build.cs file(s)"@, ""@),
        ],
{
}

// ---------------------------------------------------------------------------
// Modules
// ---------------------------------------------------------------------------

/// The M002 error for a module whose source folder is missing.
pub open spec fn missing_module_error(name: Seq<char>) -> FindingView {
    fv("M002"@, Severity::Error, "Module '"@ + name + "' listed but Source/"@ + name + " missing"@, ""@)
}

/// Module entry `i` of `mods` is named `name`, and `name` has no source
/// folder among `present`.
pub open spec fn is_absent_module(
    mods: Seq<JsonValue>,
    present: Seq<Seq<char>>,
    i: int,
    name: Seq<char>,
) -> bool {
    &&& 0 <= i < mods.len()
    &&& as_text(json_get(mods[i], "Name"@)) == Some(name)
    &&& !present.contains(name)
}

proof fn lemma_missing_modules_complete(
    mods: Seq<JsonValue>,
    present: Seq<Seq<char>>,
    i: int,
    name: Seq<char>,
)
    requires
        is_absent_module(mods, present, i, name),
    ensures
        missing_module_findings(mods, present).contains(missing_module_error(name)),
    decreases mods.len(),
{
    let init = mods.drop_last();
    let s = missing_module_findings(mods, present);
    let head = missing_module_findings(init, present);
    if i == mods.len() - 1 {
        assert(s[head.len() as int] == missing_module_error(name));
    } else {
        assert(init[i] == mods[i]);
        lemma_missing_modules_complete(init, present, i, name);
        let k = choose|k: int| 0 <= k < head.len() && head[k] == missing_module_error(name);
        assert(s[k] == missing_module_error(name));
    }
}

proof fn lemma_missing_modules_sound(mods: Seq<JsonValue>, present: Seq<Seq<char>>, k: int)
    requires
        0 <= k < missing_module_findings(mods, present).len(),
    ensures
        exists|i: int, name: Seq<char>|
            is_absent_module(mods, present, i, name) && #[trigger] missing_module_findings(
                mods,
                present,
            )[k] == missing_module_error(name),
    decreases mods.len(),
{
    let init = mods.drop_last();
    let s = missing_module_findings(mods, present);
    let head = missing_module_findings(init, present);
    if k < head.len() {
        lemma_missing_modules_sound(init, present, k);
        let (i, name) = choose|i: int, name: Seq<char>|
            is_absent_module(init, present, i, name) && #[trigger] missing_module_findings(
                init,
                present,
            )[k] == missing_module_error(name);
        assert(init[i] == mods[i]);
        assert(s[k] == head[k]);
        assert(is_absent_module(mods, present, i, name));
    } else {
        let name = as_text(json_get(mods.last(), "Name"@))->0;
        assert(s[k] == missing_module_error(name));
        assert(is_absent_module(mods, present, mods.len() - 1, name));
    }
}

/// M002: every listed module entry with a string `Name` whose source folder
/// is not among `present` is reported, whatever else the list holds.
pub proof fn lemma_every_missing_module_reported(
    doc: JsonValue,
    present: Seq<Seq<char>>,
    i: int,
    name: Seq<char>,
)
    requires
        as_items(json_get(doc, "Modules"@)) is Some,
        is_absent_module(as_items(json_get(doc, "Modules"@))->0, present, i, name),
    ensures
        doc_modules_listed_findings(doc, present).contains(missing_module_error(name)),
{
    let mods = as_items(json_get(doc, "Modules"@))->0;
    lemma_missing_modules_complete(mods, present, i, name);
    let head = missing_module_findings(mods, present);
    let k = choose|k: int| 0 <= k < head.len() && head[k] == missing_module_error(name);
    let s = doc_modules_listed_findings(doc, present);
    assert(s[k] == missing_module_error(name));
}

/// M002: every M002 finding names a listed module whose source folder is
/// not among `present`.
pub proof fn lemma_module_errors_name_missing_modules(
    doc: JsonValue,
    present: Seq<Seq<char>>,
    k: int,
)
    requires
        as_items(json_get(doc, "Modules"@)) is Some,
        0 <= k < doc_modules_listed_findings(doc, present).len(),
        doc_modules_listed_findings(doc, present)[k].rule_id == "M002"@,
    ensures
        exists|i: int, name: Seq<char>|
            #[trigger] is_absent_module(as_items(json_get(doc, "Modules"@))->0, present, i, name)
                && doc_modules_listed_findings(doc, present)[k] == missing_module_error(name),
{
    let mods = as_items(json_get(doc, "Modules"@))->0;
    let s = doc_modules_listed_findings(doc, present);
    reveal_strlit("M001");
    reveal_strlit("M002");
    assert("M001"@[3] != "M002"@[3]);
    let head = missing_module_findings(mods, present);
    if mods.len() > 0 && k < head.len() {
        lemma_missing_modules_sound(mods, present, k);
        let (i, name) = choose|i: int, name: Seq<char>|
            is_absent_module(mods, present, i, name) && #[trigger] missing_module_findings(
                mods,
                present,
            )[k] == missing_module_error(name);
        assert(s[k] == head[k]);
        assert(s[k] == missing_module_error(name));
    }
}

/// Entry `i` of `mods` has a string `Name` with no source folder among
/// `present`.
pub open spec fn module_absent_at(mods: Seq<JsonValue>, present: Seq<Seq<char>>, i: int) -> bool {
    &&& 0 <= i < mods.len()
    &&& as_text(json_get(mods[i], "Name"@)) is Some
    &&& !present.contains(as_text(json_get(mods[i], "Name"@))->0)
}

/// The positions of the listed modules whose source folder is missing.
pub open spec fn absent_module_positions(mods: Seq<JsonValue>, present: Seq<Seq<char>>) -> Set<
    int,
> {
    Set::new(|i: int| module_absent_at(mods, present, i))
}

proof fn lemma_missing_module_total(mods: Seq<JsonValue>, present: Seq<Seq<char>>)
    ensures
        absent_module_positions(mods, present).finite(),
        missing_module_findings(mods, present).len() == absent_module_positions(
            mods,
            present,
        ).len(),
    decreases mods.len(),
{
    let b = absent_module_positions(mods, present);
    if mods.len() == 0 {
        assert(b =~= Set::<int>::empty());
    } else {
        let init = mods.drop_last();
        lemma_missing_module_total(init, present);
        let a = absent_module_positions(init, present);
        let last = mods.len() - 1;
        assert forall|i: int| 0 <= i < last implies #[trigger] mods[i] == init[i] by {}
        if module_absent_at(mods, present, last) {
            assert(b =~= a.insert(last));
        } else {
            assert(b =~= a);
        }
    }
}

/// M002: there are exactly as many M002 errors as listed modules with a
/// string `Name` whose source folder is missing, one for each position.
pub proof fn lemma_module_error_count(doc: JsonValue, present: Seq<Seq<char>>)
    requires
        as_items(json_get(doc, "Modules"@)) is Some,
        as_items(json_get(doc, "Modules"@))->0.len() > 0,
    ensures
        ({
            let mods = as_items(json_get(doc, "Modules"@))->0;
            &&& absent_module_positions(mods, present).finite()
            &&& doc_modules_listed_findings(doc, present).len() == absent_module_positions(
                mods,
                present,
            ).len() + 1
        }),
{
    lemma_missing_module_total(as_items(json_get(doc, "Modules"@))->0, present);
}

/// M001: a non-empty module list ends with the pass that counts every entry;
/// an empty one is the single warning.
pub proof fn lemma_module_count(doc: JsonValue, present: Seq<Seq<char>>)
    requires
        as_items(json_get(doc, "Modules"@)) is Some,
    ensures
        ({
            let mods = as_items(json_get(doc, "Modules"@))->0;
            let s = doc_modules_listed_findings(doc, present);
            &&& mods.len() == 0 ==> s == seq![
                fv("M001"@, Severity::Warning, "No modules listed in .uproject"@, ""@),
            ]
            &&& mods.len() > 0 ==> s.len() > 0 && s.last() == fv(
                "M001"@,
                Severity::Pass,
                crate::text::decimal(mods.len()) + " module(s) listed"@,
                ""@,
            )
        }),
{
}

// ---------------------------------------------------------------------------
// Engine association and listed plugins
// ---------------------------------------------------------------------------

/// P002: one finding, which passes exactly when the document has a string
/// `EngineAssociation`, and warns otherwise.
pub proof fn lemma_engine_association(doc: JsonValue)
    ensures
        doc_engine_association_findings(doc).len() == 1,
        doc_engine_association_findings(doc)[0].rule_id == "P002"@,
        (doc_engine_association_findings(doc)[0].severity == Severity::Pass) <==> (as_text(
            json_get(doc, "EngineAssociation"@),
        ) is Some),
        (doc_engine_association_findings(doc)[0].severity == Severity::Warning) <==> (as_text(
            json_get(doc, "EngineAssociation"@),
        ) is None),
{
}

/// The PL001 error for an enabled plugin whose folder has no descriptor.
pub open spec fn plugin_descriptor_error(name: Seq<char>, path: Seq<char>) -> FindingView {
    fv(
        "PL001"@,
        Severity::Error,
        "Plugin '"@ + name + "' dir exists but .uplugin missing"@,
        "Expected: "@ + path,
    )
}

/// Plugin entry `i` is enabled, and the first probe for its name shows its
/// folder but no descriptor.
pub open spec fn enabled_without_descriptor(
    ps: Seq<JsonValue>,
    probes: Seq<PluginProbe>,
    i: int,
) -> bool {
    &&& 0 <= i < ps.len()
    &&& plugin_enabled(ps[i])
    &&& probe_for(probes, plugin_name(ps[i])) is Some
    &&& probe_for(probes, plugin_name(ps[i]))->0.dir_exists
    &&& !probe_for(probes, plugin_name(ps[i]))->0.descriptor_exists
}

/// The positions of the enabled plugin entries whose descriptor is missing.
pub open spec fn descriptorless_positions(ps: Seq<JsonValue>, probes: Seq<PluginProbe>) -> Set<
    int,
> {
    Set::new(|i: int| enabled_without_descriptor(ps, probes, i))
}

/// PL001: every enabled plugin entry whose folder exists without its
/// descriptor is reported, with the descriptor's path.
pub proof fn lemma_missing_descriptor_reported(
    ps: Seq<JsonValue>,
    probes: Seq<PluginProbe>,
    i: int,
)
    requires
        enabled_without_descriptor(ps, probes, i),
    ensures
        plugins_valid_findings(ps, probes).contains(
            plugin_descriptor_error(
                plugin_name(ps[i]),
                probe_for(probes, plugin_name(ps[i]))->0.descriptor_path@,
            ),
        ),
    decreases ps.len(),
{
    let init = ps.drop_last();
    let all = plugins_valid_findings(ps, probes);
    let head = plugins_valid_findings(init, probes);
    let e = plugin_descriptor_error(
        plugin_name(ps[i]),
        probe_for(probes, plugin_name(ps[i]))->0.descriptor_path@,
    );
    if i == ps.len() - 1 {
        assert(all[head.len() as int] == e);
    } else {
        assert(init[i] == ps[i]);
        lemma_missing_descriptor_reported(init, probes, i);
        let k = choose|k: int| 0 <= k < head.len() && head[k] == e;
        assert(all[k] == e);
    }
}

/// PL001: there is exactly one finding for each enabled plugin entry whose
/// folder exists without its descriptor, and no other.
pub proof fn lemma_missing_descriptor_count(ps: Seq<JsonValue>, probes: Seq<PluginProbe>)
    ensures
        descriptorless_positions(ps, probes).finite(),
        plugins_valid_findings(ps, probes).len() == descriptorless_positions(ps, probes).len(),
    decreases ps.len(),
{
    let b = descriptorless_positions(ps, probes);
    if ps.len() == 0 {
        assert(b =~= Set::<int>::empty());
    } else {
        let init = ps.drop_last();
        lemma_missing_descriptor_count(init, probes);
        let a = descriptorless_positions(init, probes);
        let last = ps.len() - 1;
        assert forall|i: int| 0 <= i < last implies #[trigger] ps[i] == init[i] by {}
        if enabled_without_descriptor(ps, probes, last) {
            assert(b =~= a.insert(last));
        } else {
            assert(b =~= a);
        }
    }
}

// ---------------------------------------------------------------------------
// Plugin folders
// ---------------------------------------------------------------------------

/// The PL003 error for a plugin folder without a descriptor.
pub open spec fn missing_descriptor_error(name: Seq<char>) -> FindingView {
    fv(
        "PL003"@,
        Severity::Error,
        "Plugin '"@ + name + "' has no .uplugin"@,
        "Expected: Plugins/"@ + name + "/"@ + name + ".uplugin"@,
    )
}

/// Entry `i` of `folders` is a folder in which no file name, at any
/// position, ends with `.uplugin`.
pub open spec fn lacks_descriptor(folders: Seq<PluginFolder>, i: int) -> bool {
    &&& 0 <= i < folders.len()
    &&& folders[i].is_dir
    &&& forall|j: int, a: Seq<char>|
        #![trigger folders[i].file_names@[j], a + ".uplugin"@]
        0 <= j < folders[i].file_names@.len() ==> folders[i].file_names@[j]@ != a + ".uplugin"@
}

proof fn lemma_lacks_descriptor_iff(folders: Seq<PluginFolder>, i: int)
    requires
        0 <= i < folders.len(),
    ensures
        lacks_descriptor(folders, i) <==> folders[i].is_dir && !has_descriptor(
            string_views(folders[i].file_names@),
        ),
{
    let ns = string_views(folders[i].file_names@);
    assert forall|j: int| 0 <= j < ns.len() implies (has_suffix(#[trigger] ns[j], ".uplugin"@)
        <==> exists|a: Seq<char>| ns[j] == #[trigger] (a + ".uplugin"@)) by {
        lemma_suffix_is_tail(ns[j], ".uplugin"@);
    }
    if folders[i].is_dir && has_descriptor(ns) {
        let j = choose|j: int| 0 <= j < ns.len() && has_suffix(#[trigger] ns[j], ".uplugin"@);
        let a = choose|a: Seq<char>| ns[j] == #[trigger] (a + ".uplugin"@);
        assert(folders[i].file_names@[j]@ == a + ".uplugin"@);
    }
    if folders[i].is_dir && !has_descriptor(ns) && !lacks_descriptor(folders, i) {
        let (j, a) = choose|j: int, a: Seq<char>|
            #![trigger folders[i].file_names@[j], a + ".uplugin"@]
            0 <= j < folders[i].file_names@.len() && folders[i].file_names@[j]@ == a + ".uplugin"@;
        assert(ns[j] == a + ".uplugin"@);
    }
}

proof fn lemma_plugin_folders_complete(folders: Seq<PluginFolder>, i: int)
    requires
        lacks_descriptor(folders, i),
    ensures
        plugin_folder_findings(folders).contains(missing_descriptor_error(folders[i].name@)),
    decreases folders.len(),
{
    let init = folders.drop_last();
    let s = plugin_folder_findings(folders);
    let head = plugin_folder_findings(init);
    if i == folders.len() - 1 {
        lemma_lacks_descriptor_iff(folders, i);
        assert(s[head.len() as int] == missing_descriptor_error(folders[i].name@));
    } else {
        assert(init[i] == folders[i]);
        assert(lacks_descriptor(init, i));
        lemma_plugin_folders_complete(init, i);
        let k = choose|k: int|
            0 <= k < head.len() && head[k] == missing_descriptor_error(folders[i].name@);
        assert(s[k] == missing_descriptor_error(folders[i].name@));
    }
}

proof fn lemma_plugin_folders_sound(folders: Seq<PluginFolder>, k: int)
    requires
        0 <= k < plugin_folder_findings(folders).len(),
    ensures
        exists|i: int|
            #[trigger] lacks_descriptor(folders, i) && plugin_folder_findings(folders)[k]
                == missing_descriptor_error(folders[i].name@),
    decreases folders.len(),
{
    let init = folders.drop_last();
    let s = plugin_folder_findings(folders);
    let head = plugin_folder_findings(init);
    if k < head.len() {
        lemma_plugin_folders_sound(init, k);
        let i = choose|i: int|
            #[trigger] lacks_descriptor(init, i) && plugin_folder_findings(init)[k]
                == missing_descriptor_error(init[i].name@);
        assert(init[i] == folders[i]);
        assert(s[k] == head[k]);
        assert(lacks_descriptor(folders, i));
    } else {
        let i = folders.len() - 1;
        lemma_lacks_descriptor_iff(folders, i);
        assert(s[k] == missing_descriptor_error(folders[i].name@));
    }
}

/// PL003: every folder of `Plugins/` in which no file name ends with
/// `.uplugin` is reported.
pub proof fn lemma_folder_without_descriptor_reported(folders: Seq<PluginFolder>, i: int)
    requires
        lacks_descriptor(folders, i),
    ensures
        plugin_uplugin_findings(true, folders).contains(missing_descriptor_error(folders[i].name@)),
{
    lemma_plugin_folders_complete(folders, i);
}

/// PL003: every finding names a folder of `Plugins/` in which no file name,
/// at any position, ends with `.uplugin`; so a folder holding such a file is
/// never the reason for a finding.
pub proof fn lemma_reported_folders_lack_descriptor(folders: Seq<PluginFolder>, k: int)
    requires
        0 <= k < plugin_uplugin_findings(true, folders).len(),
    ensures
        exists|i: int|
            #[trigger] lacks_descriptor(folders, i) && plugin_uplugin_findings(true, folders)[k]
                == missing_descriptor_error(folders[i].name@),
{
    lemma_plugin_folders_sound(folders, k);
}

/// PL003: without `Plugins/` nothing is reported.
pub proof fn lemma_no_plugins_folder(folders: Seq<PluginFolder>)
    ensures
        plugin_uplugin_findings(false, folders).len() == 0,
{
}

// ---------------------------------------------------------------------------
// Content/ names, empty folders, stale config backups
// ---------------------------------------------------------------------------

/// Entry `i` of `entries` exists and is named `n`.
pub open spec fn named_at(entries: Seq<ContentEntry>, i: int, n: Seq<char>) -> bool {
    0 <= i < entries.len() && entries[i].name@ == n
}

/// Entry `i` of `entries` is an empty folder named `n`.
pub open spec fn empty_folder_at(entries: Seq<ContentEntry>, i: int, n: Seq<char>) -> bool {
    named_at(entries, i, n) && entries[i].is_dir && entries[i].is_empty_dir
}

/// A name with a space at some position, or a dot first.
pub open spec fn is_badly_named(name: Seq<char>) -> bool {
    (exists|k: int| 0 <= k < name.len() && #[trigger] name[k] == ' ') || (name.len() > 0 && name[0]
        == '.')
}

proof fn lemma_bad_name_iff(name: Seq<char>)
    ensures
        crate::layout::is_bad_content_name(name) <==> is_badly_named(name),
{
    if name.contains(' ') {
        let k = choose|k: int| 0 <= k < name.len() && name[k] == ' ';
        assert(name[k] == ' ');
    }
}

/// A002: the name of every entry of `Content/` with a space or a leading dot
/// is listed among the bad names, and every listed name is the name of such
/// an entry.
pub proof fn lemma_bad_names_exact(entries: Seq<ContentEntry>)
    ensures
        forall|i: int|
            0 <= i < entries.len() && is_badly_named(#[trigger] entries[i].name@)
                ==> crate::layout::bad_content_names(entries).contains(entries[i].name@),
        forall|k: int|
            0 <= k < crate::layout::bad_content_names(entries).len() ==> is_badly_named(
                #[trigger] crate::layout::bad_content_names(entries)[k],
            ) && exists|i: int|
                #[trigger] named_at(entries, i, crate::layout::bad_content_names(entries)[k]),
    decreases entries.len(),
{
    if entries.len() == 0 {
        assert(crate::layout::bad_content_names(entries).len() == 0);
    } else {
        let init = entries.drop_last();
        lemma_bad_names_exact(init);
        let head = crate::layout::bad_content_names(init);
        let all = crate::layout::bad_content_names(entries);
        lemma_bad_name_iff(entries.last().name@);
        assert forall|i: int|
            0 <= i < entries.len() && is_badly_named(#[trigger] entries[i].name@) implies all.contains(
            entries[i].name@,
        ) by {
            if i == entries.len() - 1 {
                assert(all[head.len() as int] == entries[i].name@);
            } else {
                assert(init[i] == entries[i]);
                let k = choose|k: int| 0 <= k < head.len() && head[k] == entries[i].name@;
                assert(all[k] == head[k]);
            }
        }
        assert forall|k: int| 0 <= k < all.len() implies is_badly_named(#[trigger] all[k])
            && exists|i: int| #[trigger] named_at(entries, i, all[k]) by {
            if k < head.len() {
                let i = choose|i: int| #[trigger] named_at(init, i, head[k]);
                assert(init[i] == entries[i]);
                assert(all[k] == head[k]);
                assert(named_at(entries, i, all[k]));
            } else {
                assert(named_at(entries, entries.len() - 1, all[k]));
            }
        }
    }
}

/// A002: with some entry of `Content/` named with a space or a leading dot,
/// the single A002 finding is a warning; with none, it is the pass.
pub proof fn lemma_content_naming_decision(entries: Seq<ContentEntry>)
    ensures
        (exists|i: int| 0 <= i < entries.len() && is_badly_named(#[trigger] entries[i].name@))
            ==> ({
            let s = crate::layout::content_naming_findings(true, entries);
            s.len() == 1 && s[0].rule_id == "A002"@ && s[0].severity == Severity::Warning
        }),
        (forall|i: int| 0 <= i < entries.len() ==> !is_badly_named(#[trigger] entries[i].name@))
            ==> crate::layout::content_naming_findings(true, entries) == seq![
            fv("A002"@, Severity::Pass, "Content/ naming is clean"@, ""@),
        ],
        crate::layout::content_naming_findings(false, entries).len() == 0,
{
    lemma_bad_names_exact(entries);
    let bad = crate::layout::bad_content_names(entries);
    if bad.len() > 0 {
        assert(bad[0] == bad[0]);
    }
}

/// A004: the name of every entry of `Content/` that is an empty folder is
/// listed, and every listed name is the name of such an entry.
pub proof fn lemma_empty_folders_exact(entries: Seq<ContentEntry>)
    ensures
        forall|i: int|
            0 <= i < entries.len() && (#[trigger] entries[i]).is_dir && entries[i].is_empty_dir
                ==> crate::layout::empty_folder_names(entries).contains(entries[i].name@),
        forall|n: Seq<char>|
            #[trigger] crate::layout::empty_folder_names(entries).contains(n) ==> exists|i: int|
                #[trigger] empty_folder_at(entries, i, n),
    decreases entries.len(),
{
    if entries.len() == 0 {
        assert(crate::layout::empty_folder_names(entries).len() == 0);
    } else {
        let init = entries.drop_last();
        lemma_empty_folders_exact(init);
        let head = crate::layout::empty_folder_names(init);
        let all = crate::layout::empty_folder_names(entries);
        assert forall|i: int|
            0 <= i < entries.len() && (#[trigger] entries[i]).is_dir
                && entries[i].is_empty_dir implies all.contains(entries[i].name@) by {
            if i == entries.len() - 1 {
                assert(all[head.len() as int] == entries[i].name@);
            } else {
                assert(init[i] == entries[i]);
                let k = choose|k: int| 0 <= k < head.len() && head[k] == entries[i].name@;
                assert(all[k] == head[k]);
            }
        }
        assert forall|n: Seq<char>| all.contains(n) implies exists|i: int|
            #[trigger] empty_folder_at(entries, i, n) by {
            let k = choose|k: int| 0 <= k < all.len() && all[k] == n;
            if k < head.len() {
                assert(head[k] == all[k]);
                assert(head.contains(n));
                let i = choose|i: int| #[trigger] empty_folder_at(init, i, n);
                assert(init[i] == entries[i]);
                assert(empty_folder_at(entries, i, n));
            } else {
                assert(empty_folder_at(entries, entries.len() - 1, n));
            }
        }
    }
}

/// A004: with some empty folder in `Content/`, the single finding is the
/// A004 warning; with none, nothing is reported.
pub proof fn lemma_empty_folder_decision(entries: Seq<ContentEntry>)
    ensures
        (exists|i: int|
            0 <= i < entries.len() && (#[trigger] entries[i]).is_dir && entries[i].is_empty_dir)
            ==> ({
            let s = crate::layout::empty_folder_findings(true, entries);
            s.len() == 1 && s[0].rule_id == "A004"@ && s[0].severity == Severity::Warning
        }),
        (forall|i: int|
            0 <= i < entries.len() ==> !((#[trigger] entries[i]).is_dir && entries[i].is_empty_dir))
            ==> crate::layout::empty_folder_findings(true, entries).len() == 0,
        crate::layout::empty_folder_findings(false, entries).len() == 0,
{
    lemma_empty_folders_exact(entries);
    let e = crate::layout::empty_folder_names(entries);
    if e.len() > 0 {
        assert(e.contains(e[0]));
        let i = choose|i: int| #[trigger] empty_folder_at(entries, i, e[0]);
        assert(entries[i].is_dir && entries[i].is_empty_dir);
    }
}

/// A name ending with `.ini.bak` or `.ini.old`.
pub open spec fn is_config_backup(name: Seq<char>) -> bool {
    (exists|a: Seq<char>| name == #[trigger] (a + ".ini.bak"@)) || (exists|a: Seq<char>| name
        == #[trigger] (a + ".ini.old"@))
}

/// The C004 warning for a stale config backup.
pub open spec fn stale_backup_warning(name: Seq<char>) -> FindingView {
    fv("C004"@, Severity::Warning, "Stale config backup: Config/"@ + name, "Remove .bak/.old files"@)
}

proof fn lemma_config_backup_iff(name: Seq<char>)
    ensures
        crate::layout::is_stale_config_name(name) <==> is_config_backup(name),
{
    lemma_suffix_is_tail(name, ".ini.bak"@);
    lemma_suffix_is_tail(name, ".ini.old"@);
}

/// C004: every entry of `Config/` whose name ends with `.ini.bak` or
/// `.ini.old` is reported, and every finding reports such an entry.
pub proof fn lemma_stale_backups_exact(names: Seq<Seq<char>>)
    ensures
        forall|i: int|
            0 <= i < names.len() && is_config_backup(#[trigger] names[i])
                ==> crate::layout::binary_config_findings(true, names).contains(
                stale_backup_warning(names[i]),
            ),
        forall|k: int|
            0 <= k < crate::layout::binary_config_findings(true, names).len() ==> exists|i: int|
                0 <= i < names.len() && is_config_backup(#[trigger] names[i])
                    && #[trigger] crate::layout::binary_config_findings(true, names)[k]
                    == stale_backup_warning(names[i]),
        crate::layout::binary_config_findings(false, names).len() == 0,
    decreases names.len(),
{
    if names.len() > 0 {
        let init = names.drop_last();
        lemma_stale_backups_exact(init);
        let head = crate::layout::binary_config_findings(true, init);
        let all = crate::layout::binary_config_findings(true, names);
        assert(head == crate::layout::stale_config_findings(init));
        assert(all == crate::layout::stale_config_findings(names));
        lemma_config_backup_iff(names.last());
        assert forall|i: int|
            0 <= i < names.len() && is_config_backup(#[trigger] names[i]) implies all.contains(
            stale_backup_warning(names[i]),
        ) by {
            if i == names.len() - 1 {
                assert(all[head.len() as int] == stale_backup_warning(names[i]));
            } else {
                assert(init[i] == names[i]);
                let k = choose|k: int| 0 <= k < head.len() && head[k] == stale_backup_warning(names[i]);
                assert(all[k] == head[k]);
            }
        }
        assert forall|k: int| 0 <= k < all.len() implies exists|i: int|
            0 <= i < names.len() && is_config_backup(#[trigger] names[i]) && #[trigger] all[k]
                == stale_backup_warning(names[i]) by {
            if k < head.len() {
                let i = choose|i: int|
                    0 <= i < init.len() && is_config_backup(#[trigger] init[i]) && head[k]
                        == stale_backup_warning(init[i]);
                assert(init[i] == names[i]);
                assert(all[k] == head[k]);
            } else {
                assert(all[k] == stale_backup_warning(names[names.len() - 1]));
            }
        }
    }
}

} // verus!
