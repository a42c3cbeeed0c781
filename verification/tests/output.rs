use prek_sarif::diagnostic::{sarif_run, HookDiagnostic};
use prek_sarif::json::Json;

fn member<'a>(doc: &'a Json, key: &str) -> &'a Json {
    match doc {
        Json::Object(members) => {
            &members
                .iter()
                .find(|(k, _)| k == key)
                .unwrap_or_else(|| panic!("no member {key}"))
                .1
        }
        _ => panic!("not an object"),
    }
}

fn has_member(doc: &Json, key: &str) -> bool {
    match doc {
        Json::Object(members) => members.iter().any(|(k, _)| k == key),
        _ => false,
    }
}

fn text(doc: &Json) -> String {
    match doc {
        Json::Str(s) => s.clone(),
        _ => panic!("not a string"),
    }
}

fn items(doc: &Json) -> &Vec<Json> {
    match doc {
        Json::Array(items) => items,
        _ => panic!("not an array"),
    }
}

#[test]
fn diagnostic_constructors() {
    let d = HookDiagnostic::new("rule-a", "src/lib.rs", "bad".to_string());
    assert_eq!(d.rule_id, "rule-a");
    assert_eq!(d.path, "src/lib.rs");
    assert_eq!(d.message, "bad");
    assert_eq!(d.start_line, None);
    assert_eq!(d.start_column, None);
    let d = d.with_location(Some(3), None);
    assert_eq!(d.start_line, Some(3));
    assert_eq!(d.start_column, None);
    assert_eq!(d.path, "src/lib.rs");
}

#[test]
fn run_lists_each_rule_once_in_first_seen_order() {
    let diagnostics = vec![
        HookDiagnostic::new("b-rule", "one.rs", "first".to_string()),
        HookDiagnostic::new("a-rule", "two.rs", "second".to_string()),
        HookDiagnostic::new("b-rule", "three.rs", "third".to_string()),
    ];
    let run = sarif_run("trailing-whitespace", "tw", &diagnostics);
    let driver = member(member(&run, "tool"), "driver");
    assert_eq!(text(member(driver, "name")), "trailing-whitespace");
    let rules = items(member(driver, "rules"));
    assert_eq!(rules.len(), 2);
    assert_eq!(text(member(&rules[0], "id")), "b-rule");
    assert_eq!(text(member(&rules[0], "name")), "b-rule");
    assert_eq!(text(member(member(&rules[0], "shortDescription"), "text")), "tw violation");
    assert_eq!(text(member(&rules[1], "id")), "a-rule");
    let results = items(member(&run, "results"));
    assert_eq!(results.len(), 3);
    assert_eq!(text(member(&results[2], "ruleId")), "b-rule");
    assert_eq!(text(member(&results[2], "level")), "error");
    assert_eq!(text(member(member(&results[2], "message"), "text")), "third");
    let location = &items(member(&results[2], "locations"))[0];
    let physical = member(location, "physicalLocation");
    assert_eq!(text(member(member(physical, "artifactLocation"), "uri")), "three.rs");
    assert!(!has_member(physical, "region"));
}

#[test]
fn region_holds_the_known_parts_of_the_location() {
    let diagnostics = vec![
        HookDiagnostic::new("r", "a.rs", "m".to_string()).with_location(Some(7), Some(2)),
        HookDiagnostic::new("r", "b.rs", "m".to_string()).with_location(None, Some(5)),
    ];
    let run = sarif_run("tool", "hook", &diagnostics);
    let results = items(member(&run, "results"));
    let region = member(
        member(&items(member(&results[0], "locations"))[0], "physicalLocation"),
        "region",
    );
    assert!(matches!(member(region, "startLine"), Json::UInt(7)));
    assert!(matches!(member(region, "startColumn"), Json::UInt(2)));
    let region = member(
        member(&items(member(&results[1], "locations"))[0], "physicalLocation"),
        "region",
    );
    assert!(!has_member(region, "startLine"));
    assert!(matches!(member(region, "startColumn"), Json::UInt(5)));
}

#[test]
fn run_without_findings_has_no_rules_and_no_results() {
    let run = sarif_run("tool", "hook", &[]);
    assert!(items(member(member(member(&run, "tool"), "driver"), "rules")).is_empty());
    assert!(items(member(&run, "results")).is_empty());
}
