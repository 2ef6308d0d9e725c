use ue_doctor::finding::{Finding, Severity};
use ue_doctor::json::JsonValue;
use ue_doctor::project_file::{
    check_duplicate_plugins_in, check_engine_association_in, check_modules_listed_in,
    check_plugins_valid_in, enabled_plugin_names_in, module_names_in,
    check_duplicate_plugins, check_engine_association, check_modules_listed, check_plugins_valid,
    check_uproject_valid, enabled_plugin_names, module_names, PluginProbe,
};

fn parts(f: &[Finding]) -> Vec<(String, Severity, String, String)> {
    f.iter()
        .map(|x| (x.rule_id.clone(), x.severity, x.message.clone(), x.detail.clone()))
        .collect()
}

fn one(id: &str, sev: Severity, msg: &str, detail: &str) -> (String, Severity, String, String) {
    (id.to_string(), sev, msg.to_string(), detail.to_string())
}

fn strings(v: &[&str]) -> Vec<String> {
    v.iter().map(|s| s.to_string()).collect()
}

#[test]
fn uproject_valid_json_passes() {
    let mut f = Vec::new();
    check_uproject_valid("{\"FileVersion\": 3}", &mut f);
    assert_eq!(parts(&f), vec![one("P001", Severity::Pass, ".uproject is valid JSON", "")]);
}

#[test]
fn uproject_empty_text_is_an_error_with_parser_message() {
    let mut f = Vec::new();
    check_uproject_valid("", &mut f);
    assert_eq!(
        parts(&f),
        vec![one(
            "P001",
            Severity::Error,
            ".uproject is not valid JSON",
            "EOF while parsing a value at line 1 column 0"
        )]
    );
}

#[test]
fn uproject_unclosed_object_is_an_error() {
    let mut f = Vec::new();
    check_uproject_valid("{", &mut f);
    assert_eq!(f.len(), 1);
    assert_eq!(f[0].severity, Severity::Error);
    assert_eq!(f[0].detail, "EOF while parsing an object at line 1 column 1");
}

#[test]
fn check_appends_after_earlier_findings() {
    let mut f = Vec::new();
    check_uproject_valid("[]", &mut f);
    check_uproject_valid("nope", &mut f);
    assert_eq!(f.len(), 2);
    assert_eq!(f[0].severity, Severity::Pass);
    assert_eq!(f[1].severity, Severity::Error);
}

#[test]
fn engine_association_set() {
    let mut f = Vec::new();
    check_engine_association("{\"EngineAssociation\": \"5.3\"}", &mut f);
    assert_eq!(parts(&f), vec![one("P002", Severity::Pass, "Engine association is set", "")]);
}

#[test]
fn engine_association_missing_or_not_a_string() {
    for content in ["{}", "{\"EngineAssociation\": 5}", "[1, 2]", "\"x\""] {
        let mut f = Vec::new();
        check_engine_association(content, &mut f);
        assert_eq!(
            parts(&f),
            vec![one(
                "P002",
                Severity::Warning,
                "No EngineAssociation in .uproject",
                "Project may not open with the correct engine version"
            )]
        );
    }
}

#[test]
fn engine_association_silent_on_invalid_json() {
    let mut f = Vec::new();
    check_engine_association("{oops", &mut f);
    assert!(f.is_empty());
}

#[test]
fn modules_empty_list_warns() {
    let mut f = Vec::new();
    check_modules_listed("{\"Modules\": []}", &Vec::new(), &mut f);
    assert_eq!(parts(&f), vec![one("M001", Severity::Warning, "No modules listed in .uproject", "")]);
}

#[test]
fn modules_missing_source_is_an_error_then_count() {
    let content = "{\"Modules\": [{\"Name\": \"Game\"}, {\"Name\": \"Tools\"}, {\"Type\": \"Runtime\"}]}";
    let mut f = Vec::new();
    check_modules_listed(content, &strings(&["Game"]), &mut f);
    assert_eq!(
        parts(&f),
        vec![
            one("M002", Severity::Error, "Module 'Tools' listed but Source/Tools missing", ""),
            one("M001", Severity::Pass, "3 module(s) listed", ""),
        ]
    );
}

#[test]
fn modules_absent_or_not_an_array_reports_nothing() {
    for content in ["{}", "{\"Modules\": {}}", "not json"] {
        let mut f = Vec::new();
        check_modules_listed(content, &Vec::new(), &mut f);
        assert!(f.is_empty());
    }
}

#[test]
fn module_names_in_order() {
    let content = "{\"Modules\": [{\"Name\": \"B\"}, {\"Name\": 1}, {\"Name\": \"A\"}]}";
    assert_eq!(module_names(content), strings(&["B", "A"]));
    assert!(module_names("{}").is_empty());
}

#[test]
fn enabled_plugins_named_in_order() {
    let content = "{\"Plugins\": [{\"Name\": \"X\", \"Enabled\": true}, {\"Name\": \"Y\", \"Enabled\": false}, {\"Enabled\": true}, {\"Name\": \"Z\"}]}";
    assert_eq!(enabled_plugin_names(content), strings(&["X", "?"]));
}

fn probe(name: &str, dir: bool, desc: bool) -> PluginProbe {
    PluginProbe {
        name: name.to_string(),
        dir_exists: dir,
        descriptor_exists: desc,
        descriptor_path: format!("Plugins/{}/{}.uplugin", name, name),
    }
}

#[test]
fn plugin_folder_without_descriptor_is_an_error() {
    let content = "{\"Plugins\": [{\"Name\": \"A\", \"Enabled\": true}, {\"Name\": \"B\", \"Enabled\": true}, {\"Name\": \"C\", \"Enabled\": true}, {\"Name\": \"D\", \"Enabled\": false}]}";
    let probes = vec![probe("A", true, false), probe("B", true, true), probe("C", false, false), probe("D", true, false)];
    let mut f = Vec::new();
    check_plugins_valid(content, &probes, &mut f);
    assert_eq!(
        parts(&f),
        vec![one(
            "PL001",
            Severity::Error,
            "Plugin 'A' dir exists but .uplugin missing",
            "Expected: Plugins/A/A.uplugin"
        )]
    );
}

#[test]
fn plugin_without_probe_is_taken_as_remote() {
    let content = "{\"Plugins\": [{\"Name\": \"A\", \"Enabled\": true}]}";
    let mut f = Vec::new();
    check_plugins_valid(content, &Vec::new(), &mut f);
    assert!(f.is_empty());
}

#[test]
fn duplicate_plugins_reported_after_first() {
    let content = "{\"Plugins\": [{\"Name\": \"A\"}, {\"Name\": \"B\"}, {\"Name\": \"A\"}, {}, {\"Name\": 3}, {\"Name\": \"A\"}]}";
    let mut f = Vec::new();
    check_duplicate_plugins(content, &mut f);
    assert_eq!(
        parts(&f),
        vec![
            one("PL002", Severity::Warning, "Duplicate plugin entry: 'A'", ""),
            one("PL002", Severity::Warning, "Duplicate plugin entry: '?'", ""),
            one("PL002", Severity::Warning, "Duplicate plugin entry: 'A'", ""),
        ]
    );
}

#[test]
fn duplicate_count_law_on_values() {
    // 6 entries, 3 distinct names (A, B, ?): 3 warnings.
    let content = "{\"Plugins\": [{\"Name\": \"A\"}, {\"Name\": \"B\"}, {\"Name\": \"A\"}, {}, {}, {\"Name\": \"B\"}]}";
    let mut f = Vec::new();
    check_duplicate_plugins(content, &mut f);
    assert_eq!(f.len(), 6 - 3);
}

#[test]
fn invalid_json_silences_json_rules() {
    let content = "{\"Modules\": [";
    let mut f = Vec::new();
    check_uproject_valid(content, &mut f);
    check_engine_association(content, &mut f);
    check_modules_listed(content, &Vec::new(), &mut f);
    check_plugins_valid(content, &Vec::new(), &mut f);
    check_duplicate_plugins(content, &mut f);
    assert_eq!(f.len(), 1);
    assert_eq!(f[0].rule_id, "P001");
    assert_eq!(f[0].severity, Severity::Error);
}

#[test]
fn json_members_follow_serde() {
    // serde_json keeps the last of repeated keys: here a string.
    let mut f = Vec::new();
    check_engine_association("{\"EngineAssociation\": 5, \"EngineAssociation\": \"5.3\"}", &mut f);
    check_engine_association("{\"EngineAssociation\": \"5.3\", \"EngineAssociation\": null}", &mut f);
    assert_eq!(f[0].severity, Severity::Pass);
    assert_eq!(f[1].severity, Severity::Warning);
}

#[test]
fn json_lookups() {
    let doc = JsonValue::Object(vec![
        ("a".to_string(), JsonValue::Str("x".to_string())),
        ("b".to_string(), JsonValue::Array(vec![JsonValue::Bool(true), JsonValue::Null])),
        ("a".to_string(), JsonValue::Str("second".to_string())),
    ]);
    assert_eq!(doc.get("a").unwrap().as_str(), Some("x"));
    let items = doc.get("b").unwrap().as_array().unwrap();
    assert_eq!(items.len(), 2);
    assert_eq!(items[0].as_bool(), Some(true));
    assert_eq!(items[1].as_bool(), None);
    assert!(doc.get("zzz").is_none());
    assert!(items[0].get("a").is_none());
    assert!(doc.as_array().is_none());
    assert!(JsonValue::Number("1".to_string()).as_str().is_none());
}

#[test]
fn parser_message_for_trailing_comma() {
    let mut f = Vec::new();
    check_uproject_valid("[1,]", &mut f);
    assert_eq!(f[0].detail, "trailing comma at line 1 column 4");
}

#[test]
fn reordered_plugins_give_the_same_warnings() {
    let a = "{\"Plugins\": [{\"Name\": \"A\"}, {\"Name\": \"B\"}, {\"Name\": \"A\"}, {\"Name\": \"B\"}, {\"Name\": \"B\"}]}";
    let b = "{\"Plugins\": [{\"Name\": \"B\"}, {\"Name\": \"B\"}, {\"Name\": \"A\"}, {\"Name\": \"B\"}, {\"Name\": \"A\"}]}";
    let mut fa = Vec::new();
    let mut fb = Vec::new();
    check_duplicate_plugins(a, &mut fa);
    check_duplicate_plugins(b, &mut fb);
    let mut ma: Vec<String> = fa.iter().map(|x| x.message.clone()).collect();
    let mut mb: Vec<String> = fb.iter().map(|x| x.message.clone()).collect();
    assert_eq!(ma.len(), 3);
    ma.sort();
    mb.sort();
    assert_eq!(ma, mb);
}

fn obj(members: Vec<(&str, JsonValue)>) -> JsonValue {
    JsonValue::Object(members.into_iter().map(|(k, v)| (k.to_string(), v)).collect())
}

fn text(s: &str) -> JsonValue {
    JsonValue::Str(s.to_string())
}

#[test]
fn rules_on_a_given_document() {
    let doc = obj(vec![
        ("EngineAssociation", JsonValue::Number("5".to_string())),
        ("Modules", JsonValue::Array(vec![obj(vec![("Name", text("Game"))]), obj(vec![("Name", text("Editor"))])])),
        (
            "Plugins",
            JsonValue::Array(vec![
                obj(vec![("Name", text("P")), ("Enabled", JsonValue::Bool(true))]),
                obj(vec![("Name", text("P"))]),
            ]),
        ),
    ]);
    let mut f = Vec::new();
    check_engine_association_in(&doc, &mut f);
    check_modules_listed_in(&doc, &strings(&["Editor"]), &mut f);
    check_plugins_valid_in(&doc, &vec![probe("P", true, false)], &mut f);
    check_duplicate_plugins_in(&doc, &mut f);
    assert_eq!(
        parts(&f),
        vec![
            one("P002", Severity::Warning, "No EngineAssociation in .uproject", "Project may not open with the correct engine version"),
            one("M002", Severity::Error, "Module 'Game' listed but Source/Game missing", ""),
            one("M001", Severity::Pass, "2 module(s) listed", ""),
            one("PL001", Severity::Error, "Plugin 'P' dir exists but .uplugin missing", "Expected: Plugins/P/P.uplugin"),
            one("PL002", Severity::Warning, "Duplicate plugin entry: 'P'", ""),
        ]
    );
    assert_eq!(module_names_in(&doc), strings(&["Game", "Editor"]));
    assert_eq!(enabled_plugin_names_in(&doc), strings(&["P"]));
    let mut g = Vec::new();
    check_modules_listed_in(&JsonValue::Null, &Vec::new(), &mut g);
    check_duplicate_plugins_in(&JsonValue::Array(Vec::new()), &mut g);
    assert!(g.is_empty());
}

#[test]
fn parser_message_is_never_empty() {
    for content in ["{", "", "[1,]", "{\"a\" 1}", "nul"] {
        let mut f = Vec::new();
        check_uproject_valid(content, &mut f);
        assert_eq!(f.len(), 1);
        assert_eq!(f[0].severity, Severity::Error);
        assert_eq!(f[0].message, ".uproject is not valid JSON");
        assert!(!f[0].detail.is_empty());
    }
}
