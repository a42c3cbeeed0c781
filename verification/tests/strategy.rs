use prek_sarif::env::EnvVars;
use prek_sarif::error::SarifError;
use prek_sarif::hook::{Hook, SarifConfig};
use prek_sarif::strategy::{
    embedded_adaptor_name, normalize_adapter_binary, resolve_embedded_strategy, resolve_strategy,
    strategy_from_adaptor_yaml, AdaptorYaml, EmbeddedCatalog, EmbeddedYaml,
    SarifStrategy,
};

fn strings(items: &[&str]) -> Vec<String> {
    items.iter().map(|s| s.to_string()).collect()
}

fn yaml(flags: &[&str], binary: Option<&str>, args: &[&str]) -> AdaptorYaml {
    AdaptorYaml {
        flags: strings(flags),
        binary: binary.map(|b| b.to_string()),
        args: strings(args),
    }
}

fn hook(id: &str, sarif: Option<SarifConfig>) -> Hook {
    Hook {
        id: id.to_string(),
        args: vec![],
        env: EnvVars::new(),
        sarif,
    }
}

fn adapter_of(strategy: &SarifStrategy) -> Option<(String, Vec<String>)> {
    match strategy {
        SarifStrategy::Combined {
            adapter: Some(a), ..
        } => Some((a.binary.clone(), a.args.clone())),
        _ => None,
    }
}

fn flags_of(strategy: &SarifStrategy) -> Vec<String> {
    match strategy {
        SarifStrategy::Combined { flags, .. } => flags.clone(),
        SarifStrategy::NoOutput => panic!("no output"),
    }
}

#[test]
fn normalize_keeps_a_binary_that_is_not_nim() {
    assert_eq!(normalize_adapter_binary("adaptors/ruff-check".to_string()), "adaptors/ruff-check");
    assert_eq!(normalize_adapter_binary("tool.nims".to_string()), "tool.nims");
    assert_eq!(normalize_adapter_binary(String::new()), "");
}

#[test]
fn normalize_turns_a_nim_source_into_its_embedded_stem() {
    assert_eq!(
        normalize_adapter_binary("adaptors/ruff_check.nim".to_string()),
        "embedded://ruff_check"
    );
    assert_eq!(normalize_adapter_binary("x.nim".to_string()), "embedded://x");
    assert_eq!(normalize_adapter_binary("a/b.c.nim".to_string()), "embedded://b.c");
}

#[test]
fn normalize_edge_file_names() {
    assert_eq!(normalize_adapter_binary(".nim".to_string()), "embedded://.nim");
    assert_eq!(normalize_adapter_binary("dir/.nim".to_string()), "embedded://.nim");
    assert_eq!(normalize_adapter_binary("dir/..nim".to_string()), "embedded://.");
}

#[test]
fn adaptor_binary_that_is_nim_source_runs_embedded_adaptor() {
    let strategy = strategy_from_adaptor_yaml(yaml(&[], Some("adaptors/mypy.nim"), &["-q"]), false, "mypy")
        .expect("strategy");
    let (binary, args) = adapter_of(&strategy).expect("adapter");
    assert_eq!(binary, "embedded://mypy");
    assert_eq!(args, vec!["-q"]);
    assert!(flags_of(&strategy).is_empty());
    assert_eq!(embedded_adaptor_name(&binary), Some("mypy".to_string()));
}

#[test]
fn explicit_binary_wins_over_embedded_binary() {
    let strategy = strategy_from_adaptor_yaml(yaml(&["-x"], Some("bin/conv"), &[]), true, "tool")
        .expect("strategy");
    assert_eq!(adapter_of(&strategy), Some(("bin/conv".to_string(), vec![])));
    assert_eq!(flags_of(&strategy), vec!["-x"]);
}

#[test]
fn embedded_binary_alone_is_an_adapter_strategy() {
    let strategy = strategy_from_adaptor_yaml(yaml(&[], None, &["--a"]), true, "tool").expect("strategy");
    assert_eq!(
        adapter_of(&strategy),
        Some(("embedded://tool".to_string(), vec!["--a".to_string()]))
    );
}

#[test]
fn hook_flags_config_is_used_as_is() {
    let catalog = EmbeddedCatalog {
        binaries: strings(&["h"]),
        yamls: vec![],
    };
    let h = hook(
        "h",
        Some(SarifConfig::Flags {
            args: strings(&["--sarif"]),
        }),
    );
    let strategy = resolve_strategy(&h, &catalog).expect("ok").expect("some");
    assert_eq!(flags_of(&strategy), vec!["--sarif"]);
    assert_eq!(adapter_of(&strategy), None);
}

#[test]
fn hook_adapter_config_is_used_as_is() {
    let catalog = EmbeddedCatalog {
        binaries: vec![],
        yamls: vec![],
    };
    let h = hook(
        "h",
        Some(SarifConfig::Adapter {
            binary: "conv.nim".to_string(),
            args: strings(&["-v"]),
        }),
    );
    let strategy = resolve_strategy(&h, &catalog).expect("ok").expect("some");
    assert!(flags_of(&strategy).is_empty());
    assert_eq!(
        adapter_of(&strategy),
        Some(("conv.nim".to_string(), vec!["-v".to_string()]))
    );
}

#[test]
fn hook_without_config_falls_back_to_embedded() {
    let catalog = EmbeddedCatalog {
        binaries: vec![],
        yamls: vec![EmbeddedYaml {
            name: "h".to_string(),
            parsed: Ok(yaml(&["--json"], None, &[])),
        }],
    };
    let strategy = resolve_strategy(&hook("h", None), &catalog).expect("ok").expect("some");
    assert_eq!(flags_of(&strategy), vec!["--json"]);
    assert!(resolve_strategy(&hook("other", None), &catalog).expect("ok").is_none());
}

#[test]
fn embedded_binary_without_yaml_gives_adapter() {
    let catalog = EmbeddedCatalog {
        binaries: strings(&["lint"]),
        yamls: vec![],
    };
    let strategy = resolve_embedded_strategy("lint", &catalog).expect("ok").expect("some");
    assert!(flags_of(&strategy).is_empty());
    assert_eq!(adapter_of(&strategy), Some(("embedded://lint".to_string(), vec![])));
}

#[test]
fn embedded_yaml_parse_failure_is_reported() {
    let catalog = EmbeddedCatalog {
        binaries: vec![],
        yamls: vec![EmbeddedYaml {
            name: "bad".to_string(),
            parsed: Err("mapping expected".to_string()),
        }],
    };
    let err = resolve_embedded_strategy("bad", &catalog).expect_err("parse failure");
    match &err {
        SarifError::EmbeddedYaml { hook_id, detail } => {
            assert_eq!(hook_id, "bad");
            assert_eq!(detail, "mapping expected");
        }
        other => panic!("unexpected error: {other:?}"),
    }
    assert_eq!(err.message(), "Failed to parse embedded adaptor yaml for `bad`");
}

#[test]
fn first_embedded_yaml_of_a_name_counts() {
    let catalog = EmbeddedCatalog {
        binaries: vec![],
        yamls: vec![
            EmbeddedYaml {
                name: "t".to_string(),
                parsed: Ok(yaml(&["--first"], None, &[])),
            },
            EmbeddedYaml {
                name: "t".to_string(),
                parsed: Err("second".to_string()),
            },
        ],
    };
    let strategy = resolve_embedded_strategy("t", &catalog).expect("ok").expect("some");
    assert_eq!(flags_of(&strategy), vec!["--first"]);
}

#[test]
fn empty_embedded_yaml_is_refused() {
    let catalog = EmbeddedCatalog {
        binaries: vec![],
        yamls: vec![EmbeddedYaml {
            name: "t".to_string(),
            parsed: Ok(yaml(&[], None, &[])),
        }],
    };
    let err = resolve_embedded_strategy("t", &catalog).expect_err("empty");
    assert!(matches!(err, SarifError::EmptyAdaptor));
}

#[test]
fn embedded_adaptor_names() {
    assert_eq!(embedded_adaptor_name("embedded://ruff"), Some("ruff".to_string()));
    assert_eq!(embedded_adaptor_name("embedded://"), Some(String::new()));
    assert_eq!(embedded_adaptor_name("/usr/bin/ruff"), None);
    assert_eq!(embedded_adaptor_name("embedded:/x"), None);
}
