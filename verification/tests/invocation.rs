use moat::invocation::{
    account_progress_total, command_of, error_lines, error_markdown, info_markdown, parse_format,
    parse_target, repo_progress_total, self_update_message, sniff_format, visibility, Command,
    ErrorLine, Format, SelfUpdateOutcome, Target, Visibility,
};

fn args(a: &[&str]) -> Vec<String> {
    a.iter().map(|s| s.to_string()).collect()
}

#[test]
fn formats_by_name() {
    assert_eq!(parse_format("json"), Some(Format::Json));
    assert_eq!(parse_format("markdown"), Some(Format::Markdown));
    assert_eq!(parse_format("pretty"), Some(Format::Pretty));
    assert_eq!(parse_format("JSON"), None);
}

#[test]
fn format_sniffed_from_arguments() {
    assert_eq!(sniff_format(&args(&["acme", "--format=json"])), Some(Format::Json));
    assert_eq!(
        sniff_format(&args(&["--format", "markdown", "acme"])),
        Some(Format::Markdown)
    );
    assert_eq!(sniff_format(&args(&["--format"])), None);
    assert_eq!(sniff_format(&args(&["--format=xml", "--format=json"])), None);
    assert_eq!(sniff_format(&args(&["acme", "-v"])), None);
}

#[test]
fn visibility_flags() {
    assert_eq!(visibility(true, true), Visibility::Public);
    assert_eq!(visibility(false, true), Visibility::Private);
    assert_eq!(visibility(false, false), Visibility::All);
}

#[test]
fn targets() {
    match parse_target("acme/demo", false, false).ok().unwrap() {
        Target::Repo { owner, repo } => {
            assert_eq!(owner, "acme");
            assert_eq!(repo, "demo");
        }
        Target::Account(_) => panic!("expected a repository"),
    }
    match parse_target("acme", true, false).ok().unwrap() {
        Target::Account(a) => assert_eq!(a, "acme"),
        Target::Repo { .. } => panic!("expected an account"),
    }
    for bad in ["/demo", "acme/", "acme/demo/x"] {
        assert_eq!(
            parse_target(bad, false, false).err().unwrap(),
            format!("Invalid target `{bad}` — expected `owner/repo` or `account`.")
        );
    }
    assert!(parse_target("acme/demo", true, false)
        .err()
        .unwrap()
        .starts_with("`--public` and `--private` filter"));
}

#[test]
fn progress_totals() {
    assert_eq!(repo_progress_total(14), 15);
    assert_eq!(account_progress_total(14, 3, 5, false), 43);
    assert_eq!(account_progress_total(14, 3, 5, true), 48);
}

fn texts(lines: &[ErrorLine]) -> Vec<Option<String>> {
    lines
        .iter()
        .map(|l| match l {
            ErrorLine::Blank => None,
            ErrorLine::Text(t) => Some(t.clone()),
        })
        .collect()
}

#[test]
fn parse_error_lines() {
    let raw = "error: unexpected argument '--x' found\n\n  tip: try '--help'\r\n\nUsage: moat [ACCOUNT]\n \n\n";
    assert_eq!(
        texts(&error_lines(raw)),
        vec![
            Some("unexpected argument '--x' found".to_string()),
            None,
            Some("  tip: try '--help'".to_string()),
            None,
            Some("Usage: moat [ACCOUNT]".to_string()),
        ]
    );
    assert_eq!(texts(&error_lines("error: error: twice")), vec![Some("twice".to_string())]);
    assert!(error_lines("").is_empty());
    assert!(error_lines("error: \n  \n").is_empty());
}

#[test]
fn markdown_bodies() {
    assert_eq!(error_markdown("Error", "bad thing \n\n"), "# Error\n\nbad thing\n");
    assert_eq!(
        info_markdown("Moat", "help", "Usage: moat\n\n"),
        "# Moat\n\n```\nUsage: moat\n```\n"
    );
    assert_eq!(
        info_markdown("Version", "version", "Moat v1.0.0"),
        "# Version\n\nMoat v1.0.0\n"
    );
}

#[test]
fn command_chosen_from_flags() {
    // help wins over everything
    assert_eq!(command_of(true, true, true, true), Command::Help);
    // no account and nothing else to do shows the usage
    assert_eq!(command_of(false, false, false, false), Command::Help);
    assert_eq!(command_of(false, false, false, true), Command::Version);
    assert_eq!(command_of(false, false, true, false), Command::SelfUpdate);
    // version wins over self-update
    assert_eq!(command_of(false, true, true, true), Command::Version);
    assert_eq!(command_of(false, true, true, false), Command::SelfUpdate);
    assert_eq!(command_of(false, true, false, false), Command::Audit);
}

#[test]
fn self_update_messages() {
    assert_eq!(
        self_update_message(&SelfUpdateOutcome::Updated("v1.2.3".into())),
        "Moat updated to v1.2.3."
    );
    assert_eq!(
        self_update_message(&SelfUpdateOutcome::Updated("vv0.4".into())),
        "Moat updated to v0.4."
    );
    assert_eq!(
        self_update_message(&SelfUpdateOutcome::Updated("2.0".into())),
        "Moat updated to v2.0."
    );
    assert_eq!(
        self_update_message(&SelfUpdateOutcome::UpToDate),
        "Moat is already up to date."
    );
    assert_eq!(
        self_update_message(&SelfUpdateOutcome::ManagedExternally {
            manager: "Homebrew".into(),
            latest: "v3.1.0".into(),
        }),
        "Moat v3.1.0 is available. This binary is managed by Homebrew; run `brew update && brew upgrade moat` to update."
    );
    assert_eq!(
        self_update_message(&SelfUpdateOutcome::Failed("no network".into())),
        "Self-update failed: no network"
    );
}
