use moat::config::{Config, ConfigError, InvalidConfigError, RawConfig};

const KNOWN: &[&str] = &[
    "repositories_commits_are_signed",
    "repositories_workflow_actions_are_sha_pinned",
];

fn strings(v: &toml::Value) -> Vec<String> {
    v.as_array()
        .unwrap()
        .iter()
        .map(|s| s.as_str().unwrap().to_string())
        .collect()
}

/// Reads a `moat.toml` text the way the command-line tool does, then
/// validates it.
fn parse(text: &str, known: &[&str]) -> Result<Config, ConfigError> {
    let table: toml::Table = match toml::from_str(text) {
        Ok(t) => t,
        Err(e) => return Err(ConfigError::Syntax(e.to_string())),
    };
    let mut raw = RawConfig {
        checks: Vec::new(),
        release_branches: Vec::new(),
        workflow_permissions: Vec::new(),
    };
    if let Some(checks) = table.get("checks") {
        for (k, v) in checks.as_table().unwrap() {
            raw.checks.push((k.clone(), v.as_str().unwrap().to_string()));
        }
    }
    if let Some(b) = table.get("release_branches") {
        raw.release_branches = strings(b);
    }
    if let Some(wp) = table.get("workflow_permissions") {
        for (k, v) in wp.as_table().unwrap() {
            raw.workflow_permissions.push((k.clone(), strings(v)));
        }
    }
    Config::from_raw(raw, known)
}

#[test]
fn parses_off_and_on() {
    let cfg = parse(
        r#"
            [checks]
            repositories_commits_are_signed = "off"
            repositories_workflow_actions_are_sha_pinned = "on"
        "#,
        KNOWN,
    )
    .ok()
    .unwrap();
    assert!(cfg.is_off("repositories_commits_are_signed"));
    assert!(!cfg.is_off("repositories_workflow_actions_are_sha_pinned"));
}

#[test]
fn empty_config_is_valid() {
    let cfg = parse("", KNOWN).ok().unwrap();
    assert!(!cfg.is_off("anything"));
}

#[test]
fn rejects_unknown_values() {
    let err = parse(
        r#"
            [checks]
            repositories_commits_are_signed = "warning"
        "#,
        KNOWN,
    )
    .err()
    .unwrap();
    assert!(err.message().contains("Invalid value"));
}

#[test]
fn rejects_unknown_check_id() {
    let err = parse(
        r#"
            [checks]
            does_not_exist = "off"
        "#,
        KNOWN,
    )
    .err()
    .unwrap();
    assert!(err.message().contains("Unknown check"));
}

#[test]
fn rejects_invalid_toml() {
    assert!(parse("not = valid = toml", KNOWN).is_err());
}

fn raw(checks: &[(&str, &str)]) -> RawConfig {
    RawConfig {
        checks: checks
            .iter()
            .map(|(k, v)| (k.to_string(), v.to_string()))
            .collect(),
        release_branches: Vec::new(),
        workflow_permissions: Vec::new(),
    }
}

#[test]
fn error_messages_are_exact() {
    let e = Config::from_raw(raw(&[("nope", "off")]), KNOWN).err().unwrap();
    assert_eq!(e.message(), "Unknown check `nope` in moat.toml");
    let e = Config::from_raw(raw(&[("repositories_commits_are_signed", "maybe")]), KNOWN)
        .err()
        .unwrap();
    assert_eq!(
        e.message(),
        "Invalid value `maybe` for check `repositories_commits_are_signed` in moat.toml — expected `on` or `off`"
    );
    let e = ConfigError::Syntax("bad".to_string());
    assert_eq!(e.message(), "Invalid moat.toml: bad");
    let wrapped = InvalidConfigError {
        org_repo: "acme/demo".to_string(),
        source: ConfigError::UnknownCheck("x".to_string()),
    };
    assert_eq!(
        wrapped.message(),
        "Invalid moat.toml in acme/demo: Unknown check `x` in moat.toml"
    );
}

#[test]
fn first_bad_entry_is_reported() {
    let e = Config::from_raw(
        raw(&[
            ("repositories_commits_are_signed", "off"),
            ("first_unknown", "on"),
            ("second_unknown", "on"),
        ]),
        KNOWN,
    )
    .err()
    .unwrap();
    assert_eq!(e.message(), "Unknown check `first_unknown` in moat.toml");
}

#[test]
fn default_config_turns_nothing_off() {
    let cfg = Config::default();
    assert!(!cfg.is_off("repositories_commits_are_signed"));
    assert!(cfg.release_branches().is_empty());
}

#[test]
fn release_branches_are_kept() {
    let cfg = parse("release_branches = [\"0.x\", \"1.x\"]", KNOWN).ok().unwrap();
    assert_eq!(cfg.release_branches(), &["0.x".to_string(), "1.x".to_string()]);
}

#[test]
fn known_action_writes_prefers_user_entries() {
    let cfg = Config::default();
    assert_eq!(
        cfg.known_action_writes("actions/deploy-pages"),
        Some(vec!["pages", "id-token"])
    );
    assert_eq!(cfg.known_action_writes("my-org/x"), None);
    let cfg = parse(
        "[workflow_permissions]\n\"actions/deploy-pages\" = [\"pages\"]\n\"my-org/x\" = [\"deployments\"]\n",
        &[],
    )
    .ok()
    .unwrap();
    assert_eq!(cfg.known_action_writes("actions/deploy-pages"), Some(vec!["pages"]));
    assert_eq!(cfg.known_action_writes("my-org/x"), Some(vec!["deployments"]));
}

#[test]
fn readme_example_is_accepted() {
    let known = moat::checks::known_check_ids();
    let cfg = parse(
        "[checks]\nrepositories_commits_are_signed = \"off\"\nrepositories_workflow_actions_are_pinned = \"off\"\n",
        &known,
    )
    .ok()
    .unwrap();
    assert!(cfg.is_off("repositories_commits_are_signed"));
    assert!(cfg.is_off("repositories_workflow_actions_are_pinned"));
    assert!(cfg.is_off("repositories_workflow_actions_are_sha_pinned"));
}

#[test]
fn former_pinned_check_id_is_accepted() {
    let known = moat::checks::known_check_ids();
    let cfg = parse(
        "[checks]\nrepositories_workflow_actions_are_sha_pinned = \"off\"\n",
        &known,
    )
    .ok()
    .unwrap();
    assert!(cfg.is_off("repositories_workflow_actions_are_pinned"));
    assert!(known.contains(&"repositories_workflow_actions_are_pinned"));
    assert!(!known.contains(&"repositories_workflow_actions_are_sha_pinned"));
    assert_eq!(
        moat::config::canonical_check_id("repositories_workflow_actions_are_sha_pinned"),
        "repositories_workflow_actions_are_pinned"
    );
    assert_eq!(moat::config::canonical_check_id("x"), "x");
}
