use tuono::env::{parse_line, EnvVarManager};
use tuono::mode::Mode;

/// The contents of the manager's environment files, in the order it reads
/// them: those given, `None` (missing) for the others.
fn contents(manager: &EnvVarManager, files: &[(&str, &str)]) -> Vec<Option<String>> {
    manager
        .env_files()
        .iter()
        .map(|name| {
            files
                .iter()
                .find(|(n, _)| n == name)
                .map(|(_, c)| c.to_string())
        })
        .collect()
}

/// A manager for `mode` over the system variables and the files, loaded as
/// a new manager is and then reloaded.
fn manager(mode: Mode, system: &[(&str, &str)], files: &[(&str, &str)]) -> EnvVarManager {
    let system = system
        .iter()
        .map(|(k, v)| (k.to_string(), v.to_string()))
        .collect();
    let mut manager = EnvVarManager::from_system_env(mode, system);
    let files = contents(&manager, files);
    manager.reload_from_contents(&files);
    manager.reload_from_contents(&files);
    manager
}

fn value(manager: &EnvVarManager, key: &str) -> Option<String> {
    manager.get_env_vars().get(key).cloned()
}

#[test]
fn env_test_system_env_var_precedence() {
    let manager = manager(
        Mode::Dev,
        &[("TEST_KEY", "system_value")],
        &[(".env", "TEST_KEY=file_value")],
    );
    assert_eq!(value(&manager, "TEST_KEY"), Some("system_value".to_string()));
}

#[test]
fn test_mode_specific_env_var_precedence() {
    let manager = manager(
        Mode::Dev,
        &[],
        &[
            (".env", "TEST_KEY=base_value"),
            (".env.development", "TEST_KEY=development_value"),
        ],
    );
    assert_eq!(value(&manager, "TEST_KEY"), Some("development_value".to_string()));
}

#[test]
fn env_test_local_env_var_precedence() {
    let manager = manager(
        Mode::Dev,
        &[],
        &[(".env", "TEST_KEY=base_value"), (".env.local", "TEST_KEY=local_value")],
    );
    assert_eq!(value(&manager, "TEST_KEY"), Some("local_value".to_string()));
}

#[test]
fn test_mode_local_env_var_precedence() {
    let manager = manager(
        Mode::Dev,
        &[],
        &[
            (".env", "TEST_KEY=base_value"),
            (".env.development", "TEST_KEY=development_value"),
            (".env.development.local", "TEST_KEY=local_dev_value"),
        ],
    );
    assert_eq!(value(&manager, "TEST_KEY"), Some("local_dev_value".to_string()));
}

#[test]
fn env_test_empty_env_file() {
    let manager = manager(Mode::Dev, &[], &[(".env", "")]);
    assert_eq!(value(&manager, "NON_EXISTENT_KEY"), None);
}

#[test]
fn env_test_malformed_env_entries() {
    let manager = manager(Mode::Dev, &[], &[(".env", "INVALID_LINE\nMISSING_EQUALS_SIGN")]);
    assert_eq!(value(&manager, "INVALID_LINE"), None);
    assert_eq!(value(&manager, "MISSING_EQUALS_SIGN"), None);
}

#[test]
fn env_test_quoted_values_parsing() {
    let manager = manager(Mode::Dev, &[], &[(".env", r#"TEST_KEY="quoted_value""#)]);
    assert_eq!(value(&manager, "TEST_KEY"), Some("quoted_value".to_string()));
}

#[test]
fn env_test_non_existent_env_file() {
    let manager = manager(Mode::Dev, &[], &[]);
    assert_eq!(value(&manager, "NON_EXISTENT_KEY"), None);
}

#[test]
fn env_test_multiple_env_vars() {
    let manager = manager(Mode::Dev, &[], &[(".env", "KEY1=value1\nKEY2=value2")]);
    assert_eq!(value(&manager, "KEY1"), Some("value1".to_string()));
    assert_eq!(value(&manager, "KEY2"), Some("value2".to_string()));
}

#[test]
fn the_files_of_each_mode_are_read_in_order() {
    let dev = EnvVarManager::from_system_env(Mode::Dev, Vec::new());
    assert_eq!(
        dev.env_files(),
        &vec![".env", ".env.local", ".env.development", ".env.local", ".env.development.local"]
    );
    let prod = EnvVarManager::from_system_env(Mode::Prod, Vec::new());
    assert_eq!(prod.env_files()[2], ".env.production");
    assert_eq!(prod.env_files()[4], ".env.production.local");
}

#[test]
fn production_ignores_development_files() {
    let manager = manager(
        Mode::Prod,
        &[],
        &[(".env.development", "KEY=dev"), (".env.production", "KEY=prod")],
    );
    assert_eq!(value(&manager, "KEY"), Some("prod".to_string()));
}

#[test]
fn lines_are_split_at_the_first_equals_sign_and_trimmed() {
    assert_eq!(
        parse_line(" KEY = a=b "),
        Some(("KEY".to_string(), "a=b".to_string()))
    );
    assert_eq!(parse_line("NOPE"), None);
}
