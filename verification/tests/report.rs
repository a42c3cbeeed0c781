use prek_sarif::error::SarifError;
use prek_sarif::json::Json;
use prek_sarif::report::SarifReport;

fn s(text: &str) -> String {
    text.to_string()
}

fn run(name: &str) -> Json {
    Json::Object(vec![(
        s("tool"),
        Json::Object(vec![(s("driver"), Json::Object(vec![(s("name"), Json::Str(s(name)))]))]),
    )])
}

fn log(runs: Vec<Json>) -> Json {
    Json::Object(vec![(s("version"), Json::Str(s("2.1.0"))), (s("runs"), Json::Array(runs))])
}

fn member<'a>(doc: &'a Json, key: &str) -> Option<&'a Json> {
    match doc {
        Json::Object(members) => members.iter().find(|(k, _)| k == key).map(|(_, v)| v),
        _ => None,
    }
}

fn names(report: &SarifReport) -> Vec<String> {
    report
        .runs
        .iter()
        .map(|r| {
            match member(r, "tool").and_then(|t| member(t, "driver")).and_then(|d| member(d, "name")) {
                Some(Json::Str(name)) => name.clone(),
                _ => String::new(),
            }
        })
        .collect()
}

#[test]
fn default_report_is_sarif_2_1_0_and_empty() {
    let report = SarifReport::default();
    assert_eq!(report.version, "2.1.0");
    assert_eq!(report.schema, "https://json.schemastore.org/sarif-2.1.0.json");
    assert!(report.is_empty());
}

#[test]
fn runs_of_a_log_and_a_single_run_are_collected_in_order() {
    let mut report = SarifReport::default();
    let docs = vec![Ok(log(vec![run("a"), run("b")])), Ok(run("c"))];
    report.push_documents(docs, b"...").expect("ok");
    assert_eq!(names(&report), vec!["a", "b", "c"]);
    assert!(!report.is_empty());
}

#[test]
fn runs_member_that_is_not_an_array_falls_back_to_tool() {
    let mut report = SarifReport::default();
    let doc = Json::Object(vec![
        (s("tool"), Json::Object(vec![(s("driver"), Json::Object(vec![(s("name"), Json::Str(s("x")))]))])),
        (s("runs"), Json::Null),
    ]);
    report.push_documents(vec![Ok(doc)], b"{}").expect("ok");
    assert_eq!(report.runs.len(), 1);
    assert_eq!(names(&report), vec!["x"]);
}

#[test]
fn document_without_runs_or_tool_is_not_sarif_and_earlier_runs_stay() {
    let mut report = SarifReport::default();
    let docs = vec![
        Ok(run("kept")),
        Ok(Json::Object(vec![(s("results"), Json::Array(vec![]))])),
        Ok(run("never")),
    ];
    let err = report.push_documents(docs, b"...").expect_err("not sarif");
    assert!(matches!(err, SarifError::NotSarif));
    assert_eq!(err.message(), "Output is not SARIF: missing `runs` array");
    assert_eq!(names(&report), vec!["kept"]);
}

#[test]
fn parse_failure_stops_the_stream() {
    let mut report = SarifReport::default();
    let docs = vec![Ok(run("kept")), Err(s("expected value at line 1 column 2"))];
    let err = report.push_documents(docs, b"{} x").expect_err("invalid");
    assert_eq!(err.message(), "expected value at line 1 column 2");
    assert_eq!(names(&report), vec!["kept"]);
}

#[test]
fn blank_output_is_accepted_and_adds_nothing() {
    let mut report = SarifReport::default();
    report.push_documents(vec![], b"").expect("empty");
    report.push_documents(vec![], b" \n\t\r\x0c").expect("blank");
    assert!(report.is_empty());
}

#[test]
fn output_that_is_not_blank_but_holds_no_document_is_not_sarif() {
    let mut report = SarifReport::default();
    let err = report.push_documents(vec![], b"  x ").expect_err("not sarif");
    assert!(matches!(err, SarifError::NotSarif));
    let err = report.push_documents(vec![], b"\x0b").expect_err("vertical tab is not ascii whitespace");
    assert!(matches!(err, SarifError::NotSarif));
}

#[test]
fn pushing_two_streams_collects_what_pushing_both_at_once_does() {
    let mut separately = SarifReport::default();
    separately.push_documents(vec![Ok(log(vec![run("a")]))], b"{}").expect("first");
    separately.push_documents(vec![Ok(run("b")), Ok(log(vec![run("c")]))], b"{}").expect("second");

    let mut together = SarifReport::default();
    together
        .push_documents(
            vec![Ok(log(vec![run("a")])), Ok(run("b")), Ok(log(vec![run("c")]))],
            b"{}",
        )
        .expect("both");
    assert_eq!(names(&separately), names(&together));
    assert_eq!(names(&together), vec!["a", "b", "c"]);
}

#[test]
fn push_json_reads_logs_and_runs_from_bytes() {
    let mut report = SarifReport::default();
    report
        .push_json(br#"{"version":"2.1.0","runs":[{"tool":{"driver":{"name":"a"}}}]} {"tool":{"driver":{"name":"b"}},"results":[{"n":1.5}]}"#)
        .expect("ok");
    assert_eq!(names(&report), vec!["a", "b"]);
}

#[test]
fn push_json_accepts_blank_output() {
    let mut report = SarifReport::default();
    report.push_json(b"").expect("empty");
    report.push_json(b" \n ").expect("blank");
    assert!(report.is_empty());
}

#[test]
fn push_json_reports_invalid_json_and_keeps_earlier_runs() {
    let mut report = SarifReport::default();
    let err = report
        .push_json(br#"{"tool":{"driver":{"name":"kept"}}} {"#)
        .expect_err("invalid");
    assert!(matches!(err, SarifError::InvalidJson(_)));
    assert_eq!(names(&report), vec!["kept"]);
}

#[test]
fn push_json_refuses_json_that_is_not_sarif() {
    let mut report = SarifReport::default();
    let err = report.push_json(br#"[1, 2]"#).expect_err("not sarif");
    assert!(matches!(err, SarifError::NotSarif));
    let err = report.push_json(br#"{"runs": 3}"#).expect_err("runs is not an array");
    assert!(matches!(err, SarifError::NotSarif));
}

#[test]
fn push_json_keeps_numbers_as_written() {
    let mut report = SarifReport::default();
    report.push_json(br#"{"tool":{"n":-7}}"#).expect("ok");
    let n = member(&report.runs[0], "tool").and_then(|t| member(t, "n"));
    assert!(matches!(n, Some(Json::Number(text)) if text == "-7"));
}
