//! The rules read from the `.uproject` file: it is JSON, names an engine,
//! lists modules whose sources exist, and lists plugins once each with
//! their descriptors present.
use vstd::prelude::*;

use crate::finding::{finding, fv, push_finding, views, Finding, FindingView, Severity};
use crate::json::{as_flag, as_items, as_text, json_get, json_parse, parse_json, JsonValue};
use crate::seq_lemmas::{lemma_concat_assoc, lemma_take_drop_last};
use crate::text::{cat, contains_item, decimal, decimal_string, string_views};

verus! {

// ---------------------------------------------------------------------------
// Specifications
// ---------------------------------------------------------------------------

/// P001: the file is JSON, or the parser's message.
pub open spec fn uproject_valid_findings(content: Seq<char>) -> Seq<FindingView> {
    match json_parse(content) {
        Ok(_) => seq![fv("P001"@, Severity::Pass, ".uproject is valid JSON"@, ""@)],
        Err(msg) => seq![fv("P001"@, Severity::Error, ".uproject is not valid JSON"@, msg)],
    }
}

/// P002: the document has a string `EngineAssociation`.
pub open spec fn doc_engine_association_findings(doc: JsonValue) -> Seq<FindingView> {
    if as_text(json_get(doc, "EngineAssociation"@)) is Some {
        seq![fv("P002"@, Severity::Pass, "Engine association is set"@, ""@)]
    } else {
        seq![
            fv(
                "P002"@,
                Severity::Warning,
                "No EngineAssociation in .uproject"@,
                "Project may not open with the correct engine version"@,
            ),
        ]
    }
}

/// P002 for the `.uproject` text (nothing when it is not JSON).
pub open spec fn engine_association_findings(content: Seq<char>) -> Seq<FindingView> {
    match json_parse(content) {
        Ok(doc) => doc_engine_association_findings(doc),
        Err(_) => Seq::empty(),
    }
}

/// The `Modules` array of a document, if it has one.
pub open spec fn doc_modules(doc: JsonValue) -> Option<Seq<JsonValue>> {
    as_items(json_get(doc, "Modules"@))
}

/// The `Modules` array of the document, if the file is JSON and has one.
pub open spec fn listed_modules(content: Seq<char>) -> Option<Seq<JsonValue>> {
    match json_parse(content) {
        Ok(doc) => doc_modules(doc),
        Err(_) => None,
    }
}

/// The `Name` of a module entry, if it is a string.
pub open spec fn module_name(m: JsonValue) -> Option<Seq<char>> {
    as_text(json_get(m, "Name"@))
}

/// The names of the module entries that have one, in order.
pub open spec fn module_names_of(mods: Seq<JsonValue>) -> Seq<Seq<char>>
    decreases mods.len(),
{
    if mods.len() == 0 {
        Seq::empty()
    } else {
        module_names_of(mods.drop_last()) + match module_name(mods.last()) {
            Some(n) => seq![n],
            None => Seq::empty(),
        }
    }
}

/// M002 for a module whose name is not among the present source folders.
pub open spec fn missing_module_finding(m: JsonValue, present: Seq<Seq<char>>) -> Seq<
    FindingView,
> {
    match module_name(m) {
        Some(n) => if present.contains(n) {
            Seq::empty()
        } else {
            seq![
                fv(
                    "M002"@,
                    Severity::Error,
                    "Module '"@ + n + "' listed but Source/"@ + n + " missing"@,
                    ""@,
                ),
            ]
        },
        None => Seq::empty(),
    }
}

/// M002 for each module, in order.
pub open spec fn missing_module_findings(mods: Seq<JsonValue>, present: Seq<Seq<char>>) -> Seq<
    FindingView,
>
    decreases mods.len(),
{
    if mods.len() == 0 {
        Seq::empty()
    } else {
        missing_module_findings(mods.drop_last(), present) + missing_module_finding(
            mods.last(),
            present,
        )
    }
}

/// M001/M002 for a document: an empty module list is a warning; otherwise
/// every module whose `Source/<name>` folder is not in `present` is an
/// error, and a final pass counts the modules. Nothing without a `Modules`
/// array.
pub open spec fn doc_modules_listed_findings(doc: JsonValue, present: Seq<Seq<char>>) -> Seq<
    FindingView,
> {
    match doc_modules(doc) {
        None => Seq::empty(),
        Some(mods) => if mods.len() == 0 {
            seq![fv("M001"@, Severity::Warning, "No modules listed in .uproject"@, ""@)]
        } else {
            missing_module_findings(mods, present) + seq![
                fv("M001"@, Severity::Pass, decimal(mods.len()) + " module(s) listed"@, ""@),
            ]
        },
    }
}

/// M001/M002 for the `.uproject` text (nothing when it is not JSON).
pub open spec fn modules_listed_findings(content: Seq<char>, present: Seq<Seq<char>>) -> Seq<
    FindingView,
> {
    match json_parse(content) {
        Ok(doc) => doc_modules_listed_findings(doc, present),
        Err(_) => Seq::empty(),
    }
}

/// The `Plugins` entries of a document (none without a `Plugins` array).
pub open spec fn doc_plugins(doc: JsonValue) -> Seq<JsonValue> {
    match as_items(json_get(doc, "Plugins"@)) {
        Some(ps) => ps,
        None => Seq::empty(),
    }
}

/// The `Plugins` entries of the `.uproject` text (none when it is not JSON).
pub open spec fn listed_plugins(content: Seq<char>) -> Seq<JsonValue> {
    match json_parse(content) {
        Ok(doc) => doc_plugins(doc),
        Err(_) => Seq::empty(),
    }
}

/// The name of a plugin entry: its string `Name`, else `?`.
pub open spec fn plugin_name(p: JsonValue) -> Seq<char> {
    match as_text(json_get(p, "Name"@)) {
        Some(n) => n,
        None => "?"@,
    }
}

/// Whether a plugin entry is enabled: its boolean `Enabled`, else false.
pub open spec fn plugin_enabled(p: JsonValue) -> bool {
    match as_flag(json_get(p, "Enabled"@)) {
        Some(b) => b,
        None => false,
    }
}

/// What the file system shows of one plugin's local folder.
pub struct PluginProbe {
    /// The plugin's name as the `.uproject` gives it.
    pub name: String,
    /// `Plugins/<name>` exists.
    pub dir_exists: bool,
    /// `Plugins/<name>/<name>.uplugin` exists.
    pub descriptor_exists: bool,
    /// How the descriptor's path is shown.
    pub descriptor_path: String,
}

/// The first probe for the plugin named `name`.
pub open spec fn probe_for(probes: Seq<PluginProbe>, name: Seq<char>) -> Option<PluginProbe>
    decreases probes.len(),
{
    if probes.len() == 0 {
        None
    } else if probes[0].name@ == name {
        Some(probes[0])
    } else {
        probe_for(probes.drop_first(), name)
    }
}

/// PL001 for one plugin entry: enabled, with a local folder but no descriptor.
pub open spec fn plugin_descriptor_finding(p: JsonValue, probes: Seq<PluginProbe>) -> Seq<
    FindingView,
> {
    if plugin_enabled(p) {
        match probe_for(probes, plugin_name(p)) {
            Some(pr) => if pr.dir_exists && !pr.descriptor_exists {
                seq![
                    fv(
                        "PL001"@,
                        Severity::Error,
                        "Plugin '"@ + plugin_name(p) + "' dir exists but .uplugin missing"@,
                        "Expected: "@ + pr.descriptor_path@,
                    ),
                ]
            } else {
                Seq::empty()
            },
            None => Seq::empty(),
        }
    } else {
        Seq::empty()
    }
}

/// PL001 for each plugin entry, in order.
pub open spec fn plugins_valid_findings(ps: Seq<JsonValue>, probes: Seq<PluginProbe>) -> Seq<
    FindingView,
>
    decreases ps.len(),
{
    if ps.len() == 0 {
        Seq::empty()
    } else {
        plugins_valid_findings(ps.drop_last(), probes) + plugin_descriptor_finding(
            ps.last(),
            probes,
        )
    }
}

/// The names of the enabled plugin entries, in order.
pub open spec fn enabled_names_of(ps: Seq<JsonValue>) -> Seq<Seq<char>>
    decreases ps.len(),
{
    if ps.len() == 0 {
        Seq::empty()
    } else {
        enabled_names_of(ps.drop_last()) + if plugin_enabled(ps.last()) {
            seq![plugin_name(ps.last())]
        } else {
            Seq::empty()
        }
    }
}

/// PL002 for each name that already occurred earlier in `names`.
pub open spec fn duplicate_findings(names: Seq<Seq<char>>) -> Seq<FindingView>
    decreases names.len(),
{
    if names.len() == 0 {
        Seq::empty()
    } else {
        duplicate_findings(names.drop_last()) + if names.drop_last().contains(names.last()) {
            seq![
                fv(
                    "PL002"@,
                    Severity::Warning,
                    "Duplicate plugin entry: '"@ + names.last() + "'"@,
                    ""@,
                ),
            ]
        } else {
            Seq::empty()
        }
    }
}

/// The names of the plugin entries, in order.
pub open spec fn plugin_names_of(ps: Seq<JsonValue>) -> Seq<Seq<char>> {
    ps.map_values(|p: JsonValue| plugin_name(p))
}

// ---------------------------------------------------------------------------
// Helpers
// ---------------------------------------------------------------------------



/// The name of a plugin entry (its string `Name`, else `?`).
fn plugin_name_of(p: &JsonValue) -> (r: String)
    ensures
        r@ == plugin_name(*p),
{
    match p.get("Name") {
        Some(n) => match n.as_str() {
            Some(s) => s.to_owned(),
            None => "?".to_owned(),
        },
        None => "?".to_owned(),
    }
}

/// Whether a plugin entry is enabled (its boolean `Enabled`, else false).
fn plugin_enabled_of(p: &JsonValue) -> (r: bool)
    ensures
        r == plugin_enabled(*p),
{
    match p.get("Enabled") {
        Some(e) => match e.as_bool() {
            Some(b) => b,
            None => false,
        },
        None => false,
    }
}

/// The array member `key` of `doc`, if there is one.
fn array_member<'a>(doc: &'a JsonValue, key: &str) -> (r: Option<&'a Vec<JsonValue>>)
    ensures
        match r {
            Some(a) => as_items(json_get(*doc, key@)) == Some(a@),
            None => as_items(json_get(*doc, key@)) is None,
        },
{
    match doc.get(key) {
        Some(v) => v.as_array(),
        None => None,
    }
}

/// The string member `key` of `doc`, if there is one.
fn text_member<'a>(doc: &'a JsonValue, key: &str) -> (r: Option<&'a str>)
    ensures
        match r {
            Some(t) => as_text(json_get(*doc, key@)) == Some(t@),
            None => as_text(json_get(*doc, key@)) is None,
        },
{
    match doc.get(key) {
        Some(v) => v.as_str(),
        None => None,
    }
}

// ---------------------------------------------------------------------------
// Rules
// ---------------------------------------------------------------------------

/// P001: reports whether `content` is JSON, with the parser's message, which
/// is never empty, when it is not.
pub fn check_uproject_valid(content: &str, f: &mut Vec<Finding>)
    ensures
        views(final(f)@) == views(old(f)@) + uproject_valid_findings(content@),
        json_parse(content@) is Err ==> views(final(f)@).last().detail.len() > 0,
{
    match parse_json(content) {
        Ok(_) => push_finding(f, finding("P001", Severity::Pass, ".uproject is valid JSON", "")),
        Err(e) => push_finding(
            f,
            finding("P001", Severity::Error, ".uproject is not valid JSON", e.as_str()),
        ),
    }
}

/// P002: reports whether the document sets a string `EngineAssociation`.
pub fn check_engine_association_in(doc: &JsonValue, f: &mut Vec<Finding>)
    ensures
        views(final(f)@) == views(old(f)@) + doc_engine_association_findings(*doc),
{
    if text_member(doc, "EngineAssociation").is_some() {
        push_finding(f, finding("P002", Severity::Pass, "Engine association is set", ""));
    } else {
        push_finding(
            f,
            finding(
                "P002",
                Severity::Warning,
                "No EngineAssociation in .uproject",
                "Project may not open with the correct engine version",
            ),
        );
    }
}

/// P002: reports whether the document sets a string `EngineAssociation`;
/// reports nothing when `content` is not JSON.
pub fn check_engine_association(content: &str, f: &mut Vec<Finding>)
    ensures
        views(final(f)@) == views(old(f)@) + engine_association_findings(content@),
{
    match parse_json(content) {
        Ok(doc) => check_engine_association_in(&doc, f),
        Err(_) => {
            assert(views(f@) =~= views(f@) + Seq::<FindingView>::empty());
        },
    }
}

/// The names of the modules that the document lists, in order.
pub fn module_names_in(doc: &JsonValue) -> (r: Vec<String>)
    ensures
        string_views(r@) == match doc_modules(*doc) {
            Some(mods) => module_names_of(mods),
            None => Seq::empty(),
        },
{
    let mut r: Vec<String> = Vec::new();
    match array_member(doc, "Modules") {
        Some(mods) => {
            let mut i: usize = 0;
            while i < mods.len()
                invariant
                    i <= mods@.len(),
                    string_views(r@) == module_names_of(mods@.take(i as int)),
                decreases mods@.len() - i,
            {
                proof {
                    lemma_take_drop_last(mods@, i as int);
                }
                let ghost before = string_views(r@);
                match text_member(&mods[i], "Name") {
                    Some(n) => {
                        r.push(n.to_owned());
                        assert(string_views(r@) =~= before + seq![n@]);
                    },
                    None => {
                        assert(before + Seq::<Seq<char>>::empty() =~= before);
                    },
                }
                i = i + 1;
            }
            assert(mods@.take(mods@.len() as int) =~= mods@);
        },
        None => {
            assert(string_views(r@) =~= Seq::<Seq<char>>::empty());
        },
    }
    r
}

/// The names of the modules that the `.uproject` lists, in order: the
/// folders `Source/<name>` whose presence `check_modules_listed` needs.
pub fn module_names(content: &str) -> (r: Vec<String>)
    ensures
        string_views(r@) == match listed_modules(content@) {
            Some(mods) => module_names_of(mods),
            None => Seq::empty(),
        },
{
    match parse_json(content) {
        Ok(doc) => module_names_in(&doc),
        Err(_) => {
            let r: Vec<String> = Vec::new();
            assert(string_views(r@) =~= Seq::<Seq<char>>::empty());
            r
        },
    }
}

/// M001/M002: with `present_sources` the module names whose `Source/<name>`
/// folder exists, reports each module the document lists without one, then
/// the number of modules; an empty list is a warning. Reports nothing when
/// the document has no `Modules` array.
pub fn check_modules_listed_in(doc: &JsonValue, present_sources: &Vec<String>, f: &mut Vec<Finding>)
    ensures
        views(final(f)@) == views(old(f)@) + doc_modules_listed_findings(
            *doc,
            string_views(present_sources@),
        ),
{
    let ghost start = views(f@);
    let ghost present = string_views(present_sources@);
    match array_member(doc, "Modules") {
        Some(mods) => {
            if mods.len() == 0 {
                push_finding(
                    f,
                    finding("M001", Severity::Warning, "No modules listed in .uproject", ""),
                );
                return ;
            }
            let mut i: usize = 0;
            while i < mods.len()
                invariant
                    i <= mods@.len(),
                    present == string_views(present_sources@),
                    views(f@) == start + missing_module_findings(mods@.take(i as int), present),
                decreases mods@.len() - i,
            {
                proof {
                    lemma_take_drop_last(mods@, i as int);
                }
                let ghost before = views(f@);
                match text_member(&mods[i], "Name") {
                    Some(name) => {
                        if !contains_item(present_sources, name) {
                            let m1 = cat("Module '", name);
                            let m2 = cat(m1.as_str(), "' listed but Source/");
                            let m3 = cat(m2.as_str(), name);
                            let msg = cat(m3.as_str(), " missing");
                            push_finding(f, finding("M002", Severity::Error, msg.as_str(), ""));
                        } else {
                            assert(before + Seq::<FindingView>::empty() =~= before);
                        }
                    },
                    None => {
                        assert(before + Seq::<FindingView>::empty() =~= before);
                    },
                }
                proof {
                    lemma_concat_assoc(
                        start,
                        missing_module_findings(mods@.take(i as int), present),
                        missing_module_finding(mods@[i as int], present),
                    );
                }
                i = i + 1;
            }
            assert(mods@.take(mods@.len() as int) =~= mods@);
            let count = decimal_string(mods.len());
            let msg = cat(count.as_str(), " module(s) listed");
            push_finding(f, finding("M001", Severity::Pass, msg.as_str(), ""));
            proof {
                lemma_concat_assoc(
                    start,
                    missing_module_findings(mods@, present),
                    seq![fv("M001"@, Severity::Pass, decimal(mods@.len()) + " module(s) listed"@, ""@)],
                );
            }
        },
        None => {
            assert(views(f@) =~= views(f@) + Seq::<FindingView>::empty());
        },
    }
}

/// M001/M002: with `present_sources` the module names whose `Source/<name>`
/// folder exists, reports each listed module without one, then the number
/// of modules; an empty list is a warning. Reports nothing when `content`
/// is not JSON or has no `Modules` array.
pub fn check_modules_listed(content: &str, present_sources: &Vec<String>, f: &mut Vec<Finding>)
    ensures
        views(final(f)@) == views(old(f)@) + modules_listed_findings(
            content@,
            string_views(present_sources@),
        ),
{
    match parse_json(content) {
        Ok(doc) => check_modules_listed_in(&doc, present_sources, f),
        Err(_) => {
            assert(views(f@) =~= views(f@) + Seq::<FindingView>::empty());
        },
    }
}

/// The first probe for the plugin named `name`.
fn find_probe<'a>(probes: &'a Vec<PluginProbe>, name: &str) -> (r: Option<&'a PluginProbe>)
    ensures
        match r {
            Some(p) => probe_for(probes@, name@) == Some(*p),
            None => probe_for(probes@, name@) is None,
        },
{
    let mut i: usize = 0;
    assert(probes@.skip(0) =~= probes@);
    while i < probes.len()
        invariant
            i <= probes@.len(),
            probe_for(probes@, name@) == probe_for(probes@.skip(i as int), name@),
        decreases probes@.len() - i,
    {
        assert(probes@.skip(i as int).drop_first() =~= probes@.skip(i + 1));
        if crate::text::text_eq(probes[i].name.as_str(), name) {
            assert(probes@.skip(i as int)[0] == probes@[i as int]);
            return Some(&probes[i]);
        }
        i = i + 1;
    }
    None
}

/// The names of the enabled plugins that the document lists, in order.
pub fn enabled_plugin_names_in(doc: &JsonValue) -> (r: Vec<String>)
    ensures
        string_views(r@) == enabled_names_of(doc_plugins(*doc)),
{
    let mut r: Vec<String> = Vec::new();
    match array_member(doc, "Plugins") {
        Some(ps) => {
            let mut i: usize = 0;
            while i < ps.len()
                invariant
                    i <= ps@.len(),
                    string_views(r@) == enabled_names_of(ps@.take(i as int)),
                decreases ps@.len() - i,
            {
                proof {
                    lemma_take_drop_last(ps@, i as int);
                }
                let ghost before = string_views(r@);
                if plugin_enabled_of(&ps[i]) {
                    r.push(plugin_name_of(&ps[i]));
                    assert(string_views(r@) =~= before + seq![plugin_name(ps@[i as int])]);
                } else {
                    assert(before + Seq::<Seq<char>>::empty() =~= before);
                }
                i = i + 1;
            }
            assert(ps@.take(ps@.len() as int) =~= ps@);
        },
        None => {
            assert(string_views(r@) =~= Seq::<Seq<char>>::empty());
        },
    }
    r
}

/// The names of the enabled plugins that the `.uproject` lists, in order:
/// the plugins whose local folders `check_plugins_valid` needs probed.
pub fn enabled_plugin_names(content: &str) -> (r: Vec<String>)
    ensures
        string_views(r@) == enabled_names_of(listed_plugins(content@)),
{
    match parse_json(content) {
        Ok(doc) => enabled_plugin_names_in(&doc),
        Err(_) => {
            let r: Vec<String> = Vec::new();
            assert(string_views(r@) =~= Seq::<Seq<char>>::empty());
            r
        },
    }
}

/// PL001: with `probes` telling, for the enabled plugins, whether their
/// folder `Plugins/<name>` and descriptor `<name>.uplugin` in it exist,
/// reports each enabled plugin of the document whose folder exists without
/// its descriptor. A plugin with no probe is taken to have no local folder.
pub fn check_plugins_valid_in(doc: &JsonValue, probes: &Vec<PluginProbe>, f: &mut Vec<Finding>)
    ensures
        views(final(f)@) == views(old(f)@) + plugins_valid_findings(doc_plugins(*doc), probes@),
{
    let ghost start = views(f@);
    match array_member(doc, "Plugins") {
        Some(ps) => {
            let mut i: usize = 0;
            while i < ps.len()
                invariant
                    i <= ps@.len(),
                    views(f@) == start + plugins_valid_findings(ps@.take(i as int), probes@),
                decreases ps@.len() - i,
            {
                proof {
                    lemma_take_drop_last(ps@, i as int);
                }
                let ghost before = views(f@);
                let name = plugin_name_of(&ps[i]);
                let mut reported = false;
                if plugin_enabled_of(&ps[i]) {
                    match find_probe(probes, name.as_str()) {
                        Some(pr) => {
                            if pr.dir_exists && !pr.descriptor_exists {
                                let m1 = cat("Plugin '", name.as_str());
                                let msg = cat(m1.as_str(), "' dir exists but .uplugin missing");
                                let detail = cat("Expected: ", pr.descriptor_path.as_str());
                                push_finding(
                                    f,
                                    finding("PL001", Severity::Error, msg.as_str(), detail.as_str()),
                                );
                                reported = true;
                            }
                        },
                        None => {},
                    }
                }
                if !reported {
                    assert(before + Seq::<FindingView>::empty() =~= before);
                }
                proof {
                    lemma_concat_assoc(
                        start,
                        plugins_valid_findings(ps@.take(i as int), probes@),
                        plugin_descriptor_finding(ps@[i as int], probes@),
                    );
                }
                i = i + 1;
            }
            assert(ps@.take(ps@.len() as int) =~= ps@);
        },
        None => {
            assert(views(f@) =~= views(f@) + Seq::<FindingView>::empty());
        },
    }
}

/// PL001: as `check_plugins_valid_in` on the `.uproject`'s document;
/// reports nothing when `content` is not JSON.
pub fn check_plugins_valid(content: &str, probes: &Vec<PluginProbe>, f: &mut Vec<Finding>)
    ensures
        views(final(f)@) == views(old(f)@) + plugins_valid_findings(
            listed_plugins(content@),
            probes@,
        ),
{
    match parse_json(content) {
        Ok(doc) => check_plugins_valid_in(&doc, probes, f),
        Err(_) => {
            assert(views(f@) =~= views(f@) + Seq::<FindingView>::empty());
        },
    }
}

/// PL002: reports each plugin entry of the document whose name (its `Name`,
/// else `?`) already occurred in an earlier entry.
pub fn check_duplicate_plugins_in(doc: &JsonValue, f: &mut Vec<Finding>)
    ensures
        views(final(f)@) == views(old(f)@) + duplicate_findings(plugin_names_of(doc_plugins(*doc))),
{
    let ghost start = views(f@);
    match array_member(doc, "Plugins") {
        Some(ps) => {
            let ghost names = plugin_names_of(ps@);
            let mut seen: Vec<String> = Vec::new();
            let mut i: usize = 0;
            while i < ps.len()
                invariant
                    i <= ps@.len(),
                    names == plugin_names_of(ps@),
                    names.len() == ps@.len(),
                    forall|x: Seq<char>|
                        string_views(seen@).contains(x) <==> names.take(i as int).contains(x),
                    views(f@) == start + duplicate_findings(names.take(i as int)),
                decreases ps@.len() - i,
            {
                proof {
                    lemma_take_drop_last(names, i as int);
                }
                let ghost before = views(f@);
                let ghost seen_before = string_views(seen@);
                let name = plugin_name_of(&ps[i]);
                assert(name@ == names[i as int]);
                if contains_item(&seen, name.as_str()) {
                    let m1 = cat("Duplicate plugin entry: '", name.as_str());
                    let msg = cat(m1.as_str(), "'");
                    push_finding(f, finding("PL002", Severity::Warning, msg.as_str(), ""));
                } else {
                    seen.push(name);
                    assert(before + Seq::<FindingView>::empty() =~= before);
                    assert(string_views(seen@) =~= seen_before.push(names[i as int]));
                }
                proof {
                    let t0 = names.take(i as int);
                    let t1 = names.take(i + 1);
                    let sv = string_views(seen@);
                    assert(sv.contains(names[i as int])) by {
                        if !seen_before.contains(names[i as int]) {
                            assert(sv[sv.len() - 1] == names[i as int]);
                        }
                    }
                    assert forall|y: Seq<char>| seen_before.contains(y) implies sv.contains(y) by {
                        let j = choose|j: int| 0 <= j < seen_before.len() && #[trigger] seen_before[j] == y;
                        assert(sv[j] == y);
                    }
                    assert forall|x: Seq<char>| t1.contains(x) implies string_views(seen@).contains(x) by {
                        let k = choose|k: int| 0 <= k < t1.len() && #[trigger] t1[k] == x;
                        if k < i {
                            assert(t0[k] == x);
                        }
                    }
                    assert forall|x: Seq<char>| string_views(seen@).contains(x) implies t1.contains(x) by {
                        if seen_before.contains(x) {
                            let k = choose|k: int| 0 <= k < t0.len() && #[trigger] t0[k] == x;
                            assert(t1[k] == x);
                        } else {
                            assert(t1[i as int] == x);
                        }
                    }
                }
                proof {
                    lemma_concat_assoc(
                        start,
                        duplicate_findings(names.take(i as int)),
                        if names.take(i as int).contains(names[i as int]) {
                            seq![
                                fv(
                                    "PL002"@,
                                    Severity::Warning,
                                    "Duplicate plugin entry: '"@ + names[i as int] + "'"@,
                                    ""@,
                                ),
                            ]
                        } else {
                            Seq::empty()
                        },
                    );
                }
                i = i + 1;
            }
            assert(names.take(ps@.len() as int) =~= names);
        },
        None => {
            assert(views(f@) =~= views(f@) + Seq::<FindingView>::empty());
        },
    }
}

/// PL002: as `check_duplicate_plugins_in` on the `.uproject`'s document;
/// reports nothing when `content` is not JSON.
pub fn check_duplicate_plugins(content: &str, f: &mut Vec<Finding>)
    ensures
        views(final(f)@) == views(old(f)@) + duplicate_findings(
            plugin_names_of(listed_plugins(content@)),
        ),
{
    match parse_json(content) {
        Ok(doc) => check_duplicate_plugins_in(&doc, f),
        Err(_) => {
            assert(views(f@) =~= views(f@) + Seq::<FindingView>::empty());
        },
    }
}

} // verus!
