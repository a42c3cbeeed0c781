use std::sync::Arc;

use prek_sarif::env::EnvVars;
use prek_sarif::hook::{with_env_var, with_native_flags, Hook, InstalledHook, SarifConfig};

fn strings(items: &[&str]) -> Vec<String> {
    items.iter().map(|s| s.to_string()).collect()
}

fn sample_hook() -> Hook {
    let mut env = EnvVars::new();
    env.insert("A".to_string(), "1".to_string());
    Hook {
        id: "ruff".to_string(),
        args: strings(&["--fix"]),
        env,
        sarif: Some(SarifConfig::Flags {
            args: strings(&["--output-format", "sarif"]),
        }),
    }
}

fn hook_of<I>(installed: &InstalledHook<I>) -> &Hook {
    match installed {
        InstalledHook::Installed { hook, .. } => hook,
        InstalledHook::NoNeedInstall(hook) => hook,
    }
}

#[test]
fn env_vars_set_and_replace() {
    let mut env = EnvVars::new();
    assert_eq!(env.get("X"), None);
    env.insert("X".to_string(), "1".to_string());
    env.insert("Y".to_string(), "2".to_string());
    env.insert("X".to_string(), "3".to_string());
    assert_eq!(env.get("X").map(String::as_str), Some("3"));
    assert_eq!(env.get("Y").map(String::as_str), Some("2"));
    assert_eq!(env.get("Z"), None);
    let copy = env.duplicate();
    assert_eq!(copy.get("X").map(String::as_str), Some("3"));
}

#[test]
fn native_flags_are_added_after_the_arguments() {
    let installed: InstalledHook<String> = InstalledHook::Installed {
        hook: Arc::new(sample_hook()),
        info: Arc::new("py311".to_string()),
    };
    let out = with_native_flags(&installed, &strings(&["--output-format", "sarif"]));
    match &out {
        InstalledHook::Installed { info, .. } => assert_eq!(info.as_str(), "py311"),
        _ => panic!("variant changed"),
    }
    let hook = hook_of(&out);
    assert_eq!(hook.args, vec!["--fix", "--output-format", "sarif"]);
    assert_eq!(hook.id, "ruff");
    assert_eq!(hook.env.get("A").map(String::as_str), Some("1"));
    assert!(matches!(&hook.sarif, Some(SarifConfig::Flags { args }) if args.len() == 2));
    assert_eq!(hook_of(&installed).args, vec!["--fix"]);
}

#[test]
fn env_var_is_set_on_a_copy_of_the_hook() {
    let installed: InstalledHook<()> = InstalledHook::NoNeedInstall(Arc::new(sample_hook()));
    let out = with_env_var(&installed, "SARIF", "1");
    assert!(matches!(out, InstalledHook::NoNeedInstall(_)));
    let hook = hook_of(&out);
    assert_eq!(hook.env.get("SARIF").map(String::as_str), Some("1"));
    assert_eq!(hook.env.get("A").map(String::as_str), Some("1"));
    assert_eq!(hook.args, vec!["--fix"]);
    let out = with_env_var(&out, "A", "2");
    assert_eq!(hook_of(&out).env.get("A").map(String::as_str), Some("2"));
    assert_eq!(hook_of(&installed).env.get("SARIF"), None);
}
