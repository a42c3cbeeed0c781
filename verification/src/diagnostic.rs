use vstd::prelude::*;

use crate::json::{
    json_array, json_object, json_object1, json_object2, json_str, json_text, member_models, models,
    Json, JsonModel,
};
use crate::text::{joined, same_text};

verus! {

/// A finding of a built-in hook, to be reported as a SARIF result.
#[derive(Debug)]
pub struct HookDiagnostic {
    pub rule_id: &'static str,
    pub message: String,
    pub path: String,
    pub start_line: Option<u64>,
    pub start_column: Option<u64>,
}

impl HookDiagnostic {
    /// A finding of rule `rule_id` in the file at `path`, with no location
    /// inside the file.
    pub fn new(rule_id: &'static str, path: &str, message: String) -> (d: Self)
        ensures
            d.rule_id == rule_id,
            d.path@ == path@,
            d.message == message,
            d.start_line is None,
            d.start_column is None,
    {
        HookDiagnostic {
            rule_id,
            message,
            path: String::from_str(path),
            start_line: None,
            start_column: None,
        }
    }

    /// The same finding, at `line` and `column` of its file.
    pub fn with_location(self, line: Option<u64>, column: Option<u64>) -> (d: Self)
        ensures
            d == (HookDiagnostic { start_line: line, start_column: column, ..self }),
    {
        let mut d = self;
        d.start_line = line;
        d.start_column = column;
        d
    }
}

/// The rule ids of the findings, in order.
pub open spec fn rule_ids(diagnostics: Seq<HookDiagnostic>) -> Seq<Seq<char>> {
    diagnostics.map_values(|d: HookDiagnostic| d.rule_id@)
}

/// Each text of `ids` once, in the order of its first occurrence.
pub open spec fn first_occurrences(ids: Seq<Seq<char>>) -> Seq<Seq<char>>
    decreases ids.len(),
{
    if ids.len() == 0 {
        Seq::empty()
    } else {
        let earlier = first_occurrences(ids.drop_last());
        if earlier.contains(ids.last()) {
            earlier
        } else {
            earlier.push(ids.last())
        }
    }
}

/// The SARIF rule entry of `rule_id`.
pub open spec fn rule_model(rule_id: Seq<char>, hook_id: Seq<char>) -> JsonModel {
    JsonModel::Object(
        seq![
            ("id"@, JsonModel::Str(rule_id)),
            ("name"@, JsonModel::Str(rule_id)),
            ("shortDescription"@, JsonModel::Object(seq![("text"@, JsonModel::Str(hook_id + " violation"@))])),
        ],
    )
}

/// The members of the region of a finding: its line and its column, each
/// when it is known.
pub open spec fn region_members(d: HookDiagnostic) -> Seq<(Seq<char>, JsonModel)> {
    let line: Seq<(Seq<char>, JsonModel)> = match d.start_line {
        Some(l) => seq![("startLine"@, JsonModel::UInt(l))],
        None => Seq::empty(),
    };
    let column: Seq<(Seq<char>, JsonModel)> = match d.start_column {
        Some(c) => seq![("startColumn"@, JsonModel::UInt(c))],
        None => Seq::empty(),
    };
    line + column
}

/// The SARIF location of a finding: its file, and a region when the finding
/// has a line or a column.
pub open spec fn location_model(d: HookDiagnostic) -> JsonModel {
    let artifact = seq![("artifactLocation"@, JsonModel::Object(seq![("uri"@, JsonModel::Str(d.path@))]))];
    let physical = if region_members(d).len() == 0 {
        artifact
    } else {
        artifact.push(("region"@, JsonModel::Object(region_members(d))))
    };
    JsonModel::Object(seq![("physicalLocation"@, JsonModel::Object(physical))])
}

/// The SARIF result of a finding: an error of its rule, with its message and
/// its location.
pub open spec fn result_model(d: HookDiagnostic) -> JsonModel {
    JsonModel::Object(
        seq![
            ("ruleId"@, JsonModel::Str(d.rule_id@)),
            ("level"@, JsonModel::Str("error"@)),
            ("message"@, JsonModel::Object(seq![("text"@, JsonModel::Str(d.message@))])),
            ("locations"@, JsonModel::Array(seq![location_model(d)])),
        ],
    )
}

/// The SARIF run of tool `tool_name` for hook `hook_id`: one rule for each
/// distinct rule id, in the order of first occurrence, and one result for
/// each finding, in order.
pub open spec fn sarif_run_model(
    tool_name: Seq<char>,
    hook_id: Seq<char>,
    diagnostics: Seq<HookDiagnostic>,
) -> JsonModel {
    let rules = first_occurrences(rule_ids(diagnostics)).map_values(
        |r: Seq<char>| rule_model(r, hook_id),
    );
    let results = diagnostics.map_values(|d: HookDiagnostic| result_model(d));
    JsonModel::Object(
        seq![
            ("tool"@, JsonModel::Object(seq![("driver"@, JsonModel::Object(seq![("name"@, JsonModel::Str(tool_name)), ("rules"@, JsonModel::Array(rules))]))])),
            ("results"@, JsonModel::Array(results)),
        ],
    )
}

/// The SARIF rule entry of `rule_id`; `description` is its short description.
fn rule_entry(rule_id: &str, description: &String) -> (j: Json)
    ensures
        j.model() == JsonModel::Object(
            seq![
                ("id"@, JsonModel::Str(rule_id@)),
                ("name"@, JsonModel::Str(rule_id@)),
                ("shortDescription"@, JsonModel::Object(seq![("text"@, JsonModel::Str(description@))])),
            ],
        ),
{
    let short = json_object1("text", json_text(description.clone()));
    let ghost m = short.model();
    let mut members: Vec<(String, Json)> = Vec::new();
    members.push((String::from_str("id"), json_str(rule_id)));
    members.push((String::from_str("name"), json_str(rule_id)));
    members.push((String::from_str("shortDescription"), short));
    let j = json_object(members);
    assert(member_models(members@) =~= seq![
        ("id"@, JsonModel::Str(rule_id@)),
        ("name"@, JsonModel::Str(rule_id@)),
        ("shortDescription"@, m),
    ]);
    j
}

/// The SARIF location of a finding.
fn location_entry(d: &HookDiagnostic) -> (j: Json)
    ensures
        j.model() == location_model(*d),
{
    let mut region: Vec<(String, Json)> = Vec::new();
    match d.start_line {
        Some(line) => region.push((String::from_str("startLine"), Json::UInt(line))),
        None => {},
    }
    match d.start_column {
        Some(column) => region.push((String::from_str("startColumn"), Json::UInt(column))),
        None => {},
    }
    assert(member_models(region@) =~= region_members(*d));
    let uri = json_object1("uri", json_text(d.path.clone()));
    let ghost uri_model = uri.model();
    let mut physical: Vec<(String, Json)> = Vec::new();
    physical.push((String::from_str("artifactLocation"), uri));
    let ghost artifact = member_models(physical@);
    assert(artifact =~= seq![("artifactLocation"@, uri_model)]);
    if region.len() > 0 {
        let region_object = json_object(region);
        let ghost region_model = region_object.model();
        physical.push((String::from_str("region"), region_object));
        assert(member_models(physical@) =~= artifact.push(("region"@, region_model)));
    }
    json_object1("physicalLocation", json_object(physical))
}

/// The SARIF result of a finding.
fn result_entry(d: &HookDiagnostic) -> (j: Json)
    ensures
        j.model() == result_model(*d),
{
    let message = json_object1("text", json_text(d.message.clone()));
    let ghost message_model = message.model();
    let mut locations: Vec<Json> = Vec::new();
    locations.push(location_entry(d));
    assert(models(locations@) =~= seq![location_model(*d)]);
    let locations = json_array(locations);
    let mut members: Vec<(String, Json)> = Vec::new();
    members.push((String::from_str("ruleId"), json_str(d.rule_id)));
    members.push((String::from_str("level"), json_str("error")));
    members.push((String::from_str("message"), message));
    members.push((String::from_str("locations"), locations));
    let j = json_object(members);
    assert(member_models(members@) =~= seq![
        ("ruleId"@, JsonModel::Str(d.rule_id@)),
        ("level"@, JsonModel::Str("error"@)),
        ("message"@, message_model),
        ("locations"@, JsonModel::Array(seq![location_model(*d)])),
    ]);
    j
}

/// Whether `id` is one of `seen`.
fn seen_before(seen: &Vec<&'static str>, id: &str) -> (found: bool)
    ensures
        found == seen@.map_values(|s: &'static str| s@).contains(id@),
{
    let ghost texts = seen@.map_values(|s: &'static str| s@);
    let mut i: usize = 0;
    while i < seen.len()
        invariant
            i <= seen@.len(),
            texts == seen@.map_values(|s: &'static str| s@),
            forall|j: int| 0 <= j < i ==> #[trigger] texts[j] != id@,
        decreases seen@.len() - i,
    {
        if same_text(seen[i], id) {
            assert(texts[i as int] == id@);
            return true;
        }
        i += 1;
    }
    false
}

/// The SARIF run document that reports the findings of a built-in hook.
pub fn sarif_run(tool_name: &str, hook_id: &str, diagnostics: &[HookDiagnostic]) -> (run: Json)
    ensures
        run.model() == sarif_run_model(tool_name@, hook_id@, diagnostics@),
{
    let description = joined(hook_id, " violation");
    let ghost ids = rule_ids(diagnostics@);
    let mut seen: Vec<&'static str> = Vec::new();
    let mut rules: Vec<Json> = Vec::new();
    let mut results: Vec<Json> = Vec::new();
    let mut i: usize = 0;
    while i < diagnostics.len()
        invariant
            i <= diagnostics@.len(),
            ids == rule_ids(diagnostics@),
            description@ == hook_id@ + " violation"@,
            seen@.map_values(|s: &'static str| s@) == first_occurrences(ids.take(i as int)),
            models(rules@) == first_occurrences(ids.take(i as int)).map_values(
                |r: Seq<char>| rule_model(r, hook_id@),
            ),
            models(results@) == diagnostics@.take(i as int).map_values(|d: HookDiagnostic| result_model(d)),
        decreases diagnostics@.len() - i,
    {
        let d = &diagnostics[i];
        let ghost before = first_occurrences(ids.take(i as int));
        assert(ids.take(i + 1).drop_last() =~= ids.take(i as int));
        assert(ids.take(i + 1).last() == d.rule_id@);
        if !seen_before(&seen, d.rule_id) {
            let ghost old_rules = models(rules@);
            let entry = rule_entry(d.rule_id, &description);
            let ghost entry_model = entry.model();
            rules.push(entry);
            seen.push(d.rule_id);
            assert(seen@.map_values(|s: &'static str| s@) =~= before.push(d.rule_id@));
            assert(models(rules@) =~= old_rules.push(entry_model));
            assert(entry_model == rule_model(d.rule_id@, hook_id@));
            assert(models(rules@) =~= before.push(d.rule_id@).map_values(
                |r: Seq<char>| rule_model(r, hook_id@),
            ));
        }
        let ghost old_results = models(results@);
        let entry = result_entry(d);
        let ghost entry_model = entry.model();
        results.push(entry);
        assert(models(results@) =~= old_results.push(entry_model));
        assert(diagnostics@.take(i + 1) =~= diagnostics@.take(i as int).push(*d));
        assert(models(results@) =~= diagnostics@.take(i + 1).map_values(|d: HookDiagnostic| result_model(d)));
        i += 1;
    }
    assert(ids.take(i as int) =~= ids);
    assert(diagnostics@.take(i as int) =~= diagnostics@);
    let ghost rules_model = models(rules@);
    let ghost results_model = models(results@);
    let driver = json_object2("name", json_str(tool_name), "rules", json_array(rules));
    let tool = json_object1("driver", driver);
    json_object2("tool", tool, "results", json_array(results))
}

} // verus!
