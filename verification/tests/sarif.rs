use prek_sarif::json::Json;
use prek_sarif::report::SarifReport;
use prek_sarif::strategy::{
    resolve_embedded_strategy, strategy_from_adaptor_yaml, AdaptorYaml, EmbeddedCatalog,
    EmbeddedYaml, SarifStrategy,
};

fn strings(items: &[&str]) -> Vec<String> {
    items.iter().map(|s| s.to_string()).collect()
}

fn member<'a>(doc: &'a Json, key: &str) -> Option<&'a Json> {
    match doc {
        Json::Object(members) => members.iter().find(|(k, _)| k == key).map(|(_, v)| v),
        _ => None,
    }
}

fn driver_name(run: &Json) -> Option<String> {
    match member(member(member(run, "tool")?, "driver")?, "name")? {
        Json::Str(s) => Some(s.clone()),
        _ => None,
    }
}

#[test]
fn push_json_accepts_multiple_sarif_documents() {
    let mut report = SarifReport::default();
    let input = br#"{"runs":[{"tool":{"driver":{"name":"ruff"}},"results":[]}]}{"runs":[{"tool":{"driver":{"name":"flake8"}},"results":[]}]} "#;
    report.push_json(input).expect("should parse stream");

    let names: Vec<Option<String>> = report.runs.iter().map(driver_name).collect();
    assert!(names.contains(&Some("ruff".to_string())));
    assert!(names.contains(&Some("flake8".to_string())));
}

#[test]
fn adaptor_yaml_flags_strategy() {
    let strategy = strategy_from_adaptor_yaml(
        AdaptorYaml {
            flags: vec!["--output-format".to_string(), "sarif".to_string()],
            binary: None,
            args: vec![],
        },
        false,
        "ruff-check",
    )
    .expect("flags strategy should parse");
    match strategy {
        SarifStrategy::Combined {
            flags,
            adapter: None,
        } => {
            assert_eq!(flags, vec!["--output-format", "sarif"]);
        }
        _ => panic!("expected native flags strategy"),
    }
}

#[test]
fn adaptor_yaml_binary_strategy() {
    let strategy = strategy_from_adaptor_yaml(
        AdaptorYaml {
            flags: vec![],
            binary: Some("adaptors/ruff-check".to_string()),
            args: vec!["--foo".to_string()],
        },
        false,
        "ruff-check",
    )
    .expect("binary strategy should parse");
    match strategy {
        SarifStrategy::Combined {
            flags,
            adapter: Some(adapter),
        } => {
            assert!(flags.is_empty());
            let binary = adapter.binary;
            let args = adapter.args;
            assert_eq!(binary, "adaptors/ruff-check");
            assert_eq!(args, vec!["--foo"]);
        }
        _ => panic!("expected adapter strategy"),
    }
}

#[test]
fn adaptor_yaml_flags_and_implicit_embedded_binary_can_be_combined() {
    let strategy = strategy_from_adaptor_yaml(
        AdaptorYaml {
            flags: vec!["--output-format".to_string(), "sarif".to_string()],
            binary: None,
            args: vec![],
        },
        true,
        "basedpyright",
    )
    .expect("strategy should parse");

    assert!(matches!(
        strategy,
        SarifStrategy::Combined { flags, adapter: Some(adapter) }
            if flags == vec!["--output-format", "sarif"]
                && adapter.binary == "embedded://basedpyright"
                && adapter.args.is_empty()
    ));
}

#[test]
fn adaptor_yaml_rejects_empty_strategy() {
    let err = strategy_from_adaptor_yaml(
        AdaptorYaml {
            flags: vec![],
            binary: None,
            args: vec![],
        },
        false,
        "basedpyright",
    )
    .expect_err("empty adaptor should fail");

    assert!(
        err.message()
            .contains("Adaptor YAML must specify either `flags` or `binary`")
    );
}

#[test]
fn embedded_ruff_check_uses_native_flags() {
    let catalog = EmbeddedCatalog {
        binaries: vec![],
        yamls: vec![EmbeddedYaml {
            name: "ruff-check".to_string(),
            parsed: Ok(AdaptorYaml {
                flags: strings(&["--output-format", "sarif"]),
                binary: None,
                args: vec![],
            }),
        }],
    };
    let strategy = resolve_embedded_strategy("ruff-check", &catalog)
        .expect("strategy resolution should succeed")
        .expect("strategy should exist");
    match strategy {
        SarifStrategy::Combined {
            flags,
            adapter: None,
        } => {
            assert_eq!(flags, vec!["--output-format", "sarif"]);
        }
        _ => panic!("expected native flags"),
    }
}

#[test]
fn embedded_basedpyright_uses_flags_and_implicit_adapter() {
    let catalog = EmbeddedCatalog {
        binaries: strings(&["basedpyright"]),
        yamls: vec![EmbeddedYaml {
            name: "basedpyright".to_string(),
            parsed: Ok(AdaptorYaml {
                flags: strings(&["--outputjson"]),
                binary: None,
                args: vec![],
            }),
        }],
    };
    let strategy = resolve_embedded_strategy("basedpyright", &catalog)
        .expect("strategy resolution should succeed")
        .expect("strategy should exist");
    match strategy {
        SarifStrategy::Combined {
            flags,
            adapter: Some(adapter),
        } => {
            assert_eq!(flags, vec!["--outputjson"]);
            assert_eq!(adapter.binary, "embedded://basedpyright");
        }
        other => panic!("unexpected resolution result: {other:?}"),
    }
}
