use settings_engine::controls::PathSegment;
use settings_engine::controls::PathValuePair;
use settings_engine::controls::NestingInfo;
use settings_engine::controls::SettingControl;
use settings_engine::controls::get_display_name;
use settings_engine::controls::get_single_value;
use settings_engine::json::JsonField;
use settings_engine::json::JsonValue;
use settings_engine::schema::SchemaEntry;
use settings_engine::schema::SchemaNode;
use settings_engine::search::SearchControl;
use settings_engine::settings::AudioDevicesList;
use settings_engine::settings::ServerRequest;
use settings_engine::settings::SettingsTab;

fn num(s: &str) -> JsonValue {
    JsonValue::Number(s.to_string())
}

fn obj(fields: Vec<(&str, JsonValue)>) -> JsonValue {
    JsonValue::Object(
        fields
            .into_iter()
            .map(|(k, v)| JsonField { key: k.to_string(), value: v })
            .collect(),
    )
}

fn json_eq(a: &JsonValue, b: &JsonValue) -> bool {
    match (a, b) {
        (JsonValue::Null, JsonValue::Null) => true,
        (JsonValue::Bool(x), JsonValue::Bool(y)) => x == y,
        (JsonValue::Number(x), JsonValue::Number(y)) => x == y,
        (JsonValue::Text(x), JsonValue::Text(y)) => x == y,
        (JsonValue::Array(xs), JsonValue::Array(ys)) => {
            xs.len() == ys.len() && xs.iter().zip(ys.iter()).all(|(x, y)| json_eq(x, y))
        }
        (JsonValue::Object(xs), JsonValue::Object(ys)) => {
            xs.len() == ys.len()
                && xs
                    .iter()
                    .zip(ys.iter())
                    .all(|(x, y)| x.key == y.key && json_eq(&x.value, &y.value))
        }
        _ => false,
    }
}

fn entry(name: &str, display: Option<&str>, content: SchemaNode) -> SchemaEntry {
    let strings = match display {
        Some(d) => vec![("display_name".to_string(), d.to_string())],
        None => vec![],
    };
    SchemaEntry { name: name.to_string(), strings, content }
}

fn bool_node() -> SchemaNode {
    SchemaNode::Boolean { default: false }
}

fn root_nesting() -> NestingInfo {
    NestingInfo { path: vec![PathSegment::Name("session_settings".to_string())], indentation_level: 0 }
}

fn seg_is_name(seg: &PathSegment, want: &str) -> bool {
    match seg {
        PathSegment::Name(s) => s == want,
        _ => false,
    }
}

fn seg_is_index(seg: &PathSegment, want: usize) -> bool {
    match seg {
        PathSegment::Index(i) => *i == want,
        _ => false,
    }
}

fn control_path(c: &SettingControl) -> &Vec<PathSegment> {
    match c {
        SettingControl::Section(x) => &x.nesting_info.path,
        SettingControl::Boolean(x) => &x.nesting_info.path,
        SettingControl::Text(x) => &x.nesting_info.path,
        SettingControl::Vector(x) => &x.nesting_info.path,
        _ => panic!("unexpected control variant"),
    }
}

#[test]
fn section_children_extend_path_by_id() {
    let schema = SchemaNode::Section {
        entries: vec![entry("alpha", None, bool_node()), entry("beta", None, bool_node())],
        gui_collapsible: false,
    };
    let control = SettingControl::new(root_nesting(), schema);
    match &control {
        SettingControl::Section(sc) => {
            assert_eq!(sc.entries.len(), 2);
            let p0 = control_path(&sc.entries[0].control);
            assert_eq!(p0.len(), 2);
            assert!(seg_is_name(&p0[0], "session_settings"));
            assert!(seg_is_name(&p0[1], "alpha"));
            let p1 = control_path(&sc.entries[1].control);
            assert!(seg_is_name(&p1[1], "beta"));
        }
        _ => panic!("expected a section control"),
    }
}

#[test]
fn vector_remove_renormalizes_indices() {
    let template = bool_node();
    let schema = SchemaNode::Vector {
        default_element: Box::new(bool_node()),
        default: vec![JsonValue::Bool(false), JsonValue::Bool(false), JsonValue::Bool(false)],
    };
    let control = SettingControl::new(root_nesting(), schema);
    match control {
        SettingControl::Vector(mut vc) => {
            assert_eq!(vc.controls.len(), 3);
            vc.remove_entry(1, &template);
            assert_eq!(vc.controls.len(), 2);
            for (i, c) in vc.controls.iter().enumerate() {
                let p = control_path(c);
                assert_eq!(p.len(), 2);
                assert!(seg_is_name(&p[0], "session_settings"));
                assert!(seg_is_index(&p[1], i));
            }
        }
        _ => panic!("expected a vector control"),
    }
}

#[test]
fn vector_add_appends_next_index() {
    let template = bool_node();
    let schema = SchemaNode::Vector {
        default_element: Box::new(bool_node()),
        default: vec![JsonValue::Bool(false)],
    };
    let control = SettingControl::new(root_nesting(), schema);
    match control {
        SettingControl::Vector(mut vc) => {
            vc.add_entry(&template);
            assert_eq!(vc.controls.len(), 2);
            let p = control_path(&vc.controls[1]);
            assert!(seg_is_index(&p[1], 1));
        }
        _ => panic!("expected a vector control"),
    }
}

#[test]
fn pruning_is_idempotent_on_pruned_document() {
    let mut doc = obj(vec![
        ("a", obj(vec![("x", num("1"))])),
        ("b", obj(vec![("y", num("2"))])),
    ]);
    let keys = vec!["x".to_string()];
    let pres = vec!["content".to_string()];
    SettingsTab::remove_unmatched_branches(&mut doc, keys.clone(), pres.clone());
    let once = obj(vec![("a", obj(vec![("x", num("1"))]))]);
    assert!(json_eq(&doc, &once));
    SettingsTab::remove_unmatched_branches(&mut doc, keys, pres);
    assert!(json_eq(&doc, &once), "second pruning pass must change nothing");
}

#[test]
fn pruning_removes_unmatched_sibling() {
    let mut doc = obj(vec![
        ("a", obj(vec![("x", num("1"))])),
        ("b", obj(vec![("y", num("2"))])),
    ]);
    let kept = SettingsTab::remove_unmatched_branches(
        &mut doc,
        vec!["x".to_string()],
        vec!["content".to_string()],
    );
    assert!(kept);
    let expected = obj(vec![("a", obj(vec![("x", num("1"))]))]);
    assert!(json_eq(&doc, &expected));
}

#[test]
fn array_pruning_keeps_primitive_elements() {
    let mut doc = JsonValue::Array(vec![num("1"), num("2"), obj(vec![("x", num("1"))])]);
    let kept = SettingsTab::remove_unmatched_branches(&mut doc, vec![], vec![]);
    assert!(!kept);
    let expected = JsonValue::Array(vec![num("1"), num("2")]);
    assert!(json_eq(&doc, &expected));
}

#[test]
fn display_name_filtering_matches_case_insensitively() {
    let schema = SchemaNode::Section {
        entries: vec![
            entry("foo", Some("Foo Label"), bool_node()),
            entry("bar", Some("Bar"), bool_node()),
        ],
        gui_collapsible: false,
    };
    let control = SettingControl::new(root_nesting(), schema);
    let search = SearchControl { query: "foo".to_string() };
    let mut result: Vec<(String, String)> = Vec::new();
    search.get_found_labels(&control, &mut result);
    assert_eq!(result.len(), 1);
    assert_eq!(result[0].0, "foo");
    assert_eq!(result[0].1, "Foo Label");
}

#[test]
fn empty_query_leaves_labels_untouched() {
    let control = SettingControl::new(root_nesting(), bool_node());
    let search = SearchControl::new();
    let mut result: Vec<(String, String)> = vec![("x".to_string(), "X".to_string())];
    search.get_found_labels(&control, &mut result);
    assert_eq!(result.len(), 1);
}

#[test]
fn refresh_requested_once_per_window() {
    let schema = SchemaNode::Section {
        entries: vec![entry("video", None, bool_node())],
        gui_collapsible: false,
    };
    let mut tab = SettingsTab::new(schema, 0);
    let first = tab.ui(1500, vec![]);
    let second = tab.ui(2000, vec![]);
    let count = |rs: &Vec<ServerRequest>| {
        rs.iter()
            .filter(|r| matches!(r, ServerRequest::GetSession))
            .count()
    };
    assert_eq!(count(&first) + count(&second), 1);
}

#[test]
fn no_refresh_before_interval_elapses() {
    let schema = SchemaNode::Section {
        entries: vec![entry("video", None, bool_node())],
        gui_collapsible: false,
    };
    let mut tab = SettingsTab::new(schema, 0);
    let requests = tab.ui(900, vec![]);
    assert!(requests.is_empty());
}

#[test]
fn frame_edits_are_batched_into_one_request() {
    let schema = SchemaNode::Section {
        entries: vec![entry("video", None, bool_node())],
        gui_collapsible: false,
    };
    let mut tab = SettingsTab::new(schema, 0);
    let edit = |k: &str| PathValuePair {
        path: vec![PathSegment::Name(k.to_string())],
        value: JsonValue::Bool(true),
    };
    let requests = tab.ui(0, vec![edit("a"), edit("b"), edit("c")]);
    assert_eq!(requests.len(), 1);
    match &requests[0] {
        ServerRequest::SetValues(pairs) => assert_eq!(pairs.len(), 3),
        _ => panic!("expected a single batched commit"),
    }
}

#[test]
fn no_commit_request_without_edits() {
    let schema = SchemaNode::Section {
        entries: vec![entry("video", None, bool_node())],
        gui_collapsible: false,
    };
    let mut tab = SettingsTab::new(schema, 0);
    let requests = tab.ui(0, vec![]);
    assert!(requests
        .iter()
        .all(|r| !matches!(r, ServerRequest::SetValues(_))));
}

#[test]
fn search_mode_prunes_held_document() {
    let schema = SchemaNode::Section {
        entries: vec![entry(
            "video",
            None,
            SchemaNode::Section {
                entries: vec![
                    entry("brightness", None, bool_node()),
                    entry("contrast", None, bool_node()),
                ],
                gui_collapsible: false,
            },
        )],
        gui_collapsible: false,
    };
    let mut tab = SettingsTab::new(schema, 0);
    tab.update_session(obj(vec![(
        "video",
        obj(vec![
            ("brightness", JsonValue::Bool(true)),
            ("contrast", JsonValue::Bool(false)),
        ]),
    )]));
    tab.select_tab("search".to_string());
    tab.set_search_query("brightness".to_string());
    tab.ui(0, vec![]);
    let doc = tab.session_settings_json.as_ref().expect("document still held");
    let expected = obj(vec![(
        "video",
        obj(vec![("brightness", JsonValue::Bool(true))]),
    )]);
    assert!(json_eq(doc, &expected));
}

#[test]
fn display_name_falls_back_to_formatted_id() {
    let name = get_display_name("foo_bar_baz", &vec![]);
    assert_eq!(name, "Foo bar baz");
}

#[test]
fn display_name_prefers_schema_text() {
    let strings = vec![("display_name".to_string(), "Nice Name".to_string())];
    let name = get_display_name("ugly_id", &strings);
    assert_eq!(name, "Nice Name");
}

#[test]
fn single_value_extends_path_by_leaf() {
    let nesting = root_nesting();
    let pair = get_single_value(
        &nesting,
        PathSegment::Name("enabled".to_string()),
        JsonValue::Bool(true),
    )
    .expect("always produced");
    assert_eq!(pair.path.len(), 2);
    assert!(seg_is_name(&pair.path[0], "session_settings"));
    assert!(seg_is_name(&pair.path[1], "enabled"));
}

#[test]
fn leaf_keys_collect_dotted_and_indexed_names() {
    let doc = obj(vec![
        ("a", obj(vec![("b", num("1"))])),
        ("list", JsonValue::Array(vec![num("7"), num("8")])),
    ]);
    let mut results: Vec<String> = Vec::new();
    SearchControl::find_keys_of_leaves_with_substring(&doc, "a.b", &mut results, None);
    assert_eq!(results, vec!["a.b".to_string()]);
    let mut indexed: Vec<String> = Vec::new();
    SearchControl::find_keys_of_leaves_with_substring(&doc, "list[1]", &mut indexed, None);
    assert_eq!(indexed, vec!["list[1]".to_string()]);
}

#[test]
fn audio_devices_build_presets_only_with_session() {
    let schema = SchemaNode::Section {
        entries: vec![entry("video", None, bool_node())],
        gui_collapsible: false,
    };
    let mut tab = SettingsTab::new(schema, 0);
    tab.update_audio_devices(AudioDevicesList {
        output: vec!["speakers".to_string()],
        input: vec!["mic".to_string()],
    });
    assert!(tab.audio_presets.is_none());
    tab.update_session(obj(vec![]));
    tab.update_audio_devices(AudioDevicesList {
        output: vec!["speakers".to_string()],
        input: vec!["mic".to_string()],
    });
    let presets = tab.audio_presets.as_ref().expect("presets built");
    assert_eq!(presets.game_audio_devices, vec!["speakers".to_string(), "mic".to_string()]);
    assert_eq!(presets.microphone_devices, vec!["speakers".to_string()]);
}

#[test]
fn choice_variants_share_parent_path() {
    let schema = SchemaNode::Choice {
        default: "low".to_string(),
        variants: vec![entry("low", None, bool_node()), entry("high", None, bool_node())],
        gui: None,
    };
    let control = SettingControl::new(root_nesting(), schema);
    match &control {
        SettingControl::Choice(cc) => {
            assert_eq!(cc.variant_labels.len(), 2);
            assert_eq!(cc.variant_labels[0].id, "low");
            assert_eq!(cc.variant_labels[0].display, "Low");
            let p = control_path(&cc.variant_controls[0].1);
            assert_eq!(p.len(), 1);
            assert!(seg_is_name(&p[0], "session_settings"));
        }
        _ => panic!("expected a choice control"),
    }
}

#[test]
fn display_structure_lists_entries_in_walk_order() {
    let schema = SchemaNode::Section {
        entries: vec![
            entry("outer", None, SchemaNode::Section {
                entries: vec![entry("inner", None, bool_node())],
                gui_collapsible: false,
            }),
            entry("flag", None, bool_node()),
        ],
        gui_collapsible: false,
    };
    let control = SettingControl::new(root_nesting(), schema);
    let mut pairs: Vec<(String, String)> = Vec::new();
    control.get_display_name_structure(&mut pairs);
    let ids: Vec<&str> = pairs.iter().map(|p| p.0.as_str()).collect();
    assert_eq!(ids, vec!["outer", "inner", "flag"]);
}

#[test]
fn uppercase_query_still_matches() {
    let schema = SchemaNode::Section {
        entries: vec![entry("foo", Some("Foo Label"), bool_node())],
        gui_collapsible: false,
    };
    let control = SettingControl::new(root_nesting(), schema);
    let search = SearchControl { query: "FOO".to_string() };
    let mut result: Vec<(String, String)> = Vec::new();
    search.get_found_labels(&control, &mut result);
    assert_eq!(result.len(), 1);
    assert_eq!(result[0].0, "foo");
}

#[test]
fn found_keys_text_joins_matches() {
    let doc = obj(vec![
        ("audio", obj(vec![("gain", num("1")), ("gate", num("2"))])),
        ("video", num("3")),
    ]);
    let search = SearchControl { query: "ga".to_string() };
    let text = search
        .found_keys_text(&Some(doc))
        .expect("query and document are present");
    assert_eq!(text, "audio.gain, audio.gate");
    let silent = SearchControl::new();
    assert!(silent.found_keys_text(&None).is_none());
}

#[test]
fn dictionary_remove_keeps_keys_and_renormalizes() {
    let template = bool_node();
    let schema = SchemaNode::Dictionary {
        default_key: "new_entry".to_string(),
        default_value: Box::new(bool_node()),
        default: vec![
            ("first".to_string(), JsonValue::Bool(false)),
            ("second".to_string(), JsonValue::Bool(false)),
            ("third".to_string(), JsonValue::Bool(false)),
        ],
    };
    let control = SettingControl::new(root_nesting(), schema);
    match control {
        SettingControl::Dictionary(mut dc) => {
            assert_eq!(dc.controls.len(), 3);
            assert_eq!(dc.controls[0].key, "first");
            dc.remove_entry(0, &template);
            assert_eq!(dc.controls.len(), 2);
            assert_eq!(dc.controls[0].key, "second");
            assert_eq!(dc.controls[1].key, "third");
            for (i, e) in dc.controls.iter().enumerate() {
                let p = control_path(&e.control);
                assert!(seg_is_index(&p[1], i));
            }
            dc.add_entry("fresh".to_string(), &template);
            assert_eq!(dc.controls[2].key, "fresh");
            assert!(seg_is_index(&control_path(&dc.controls[2].control)[1], 2));
        }
        _ => panic!("expected a dictionary control"),
    }
}

#[test]
fn document_untouched_outside_search_mode() {
    let schema = SchemaNode::Section {
        entries: vec![entry("video", None, bool_node())],
        gui_collapsible: false,
    };
    let mut tab = SettingsTab::new(schema, 0);
    let doc = obj(vec![("video", obj(vec![("brightness", JsonValue::Bool(true))]))]);
    tab.update_session(doc);
    tab.select_tab("video".to_string());
    tab.set_search_query("brightness".to_string());
    tab.ui(0, vec![]);
    let held = tab.session_settings_json.as_ref().expect("document still held");
    let expected = obj(vec![("video", obj(vec![("brightness", JsonValue::Bool(true))]))]);
    assert!(json_eq(held, &expected));
}

#[test]
fn requests_come_in_fetch_then_commit_order() {
    let schema = SchemaNode::Section {
        entries: vec![entry("video", None, bool_node())],
        gui_collapsible: false,
    };
    let mut tab = SettingsTab::new(schema, 0);
    let edit = PathValuePair {
        path: vec![PathSegment::Name("a".to_string())],
        value: JsonValue::Null,
    };
    let requests = tab.ui(5000, vec![edit]);
    assert_eq!(requests.len(), 3);
    assert!(matches!(requests[0], ServerRequest::GetSession));
    assert!(matches!(requests[1], ServerRequest::GetAudioDevices));
    assert!(matches!(requests[2], ServerRequest::SetValues(_)));
}
