use moat::checks::common::{
    codeowners_paths, presence_from_probes, security_md_paths, webhooks_from, CollaboratorEntry,
    CollaboratorPerms, FeatureState, FilePresence, WorkflowTokenState,
};
use moat::checks::org_context::ForkPrContributorApprovalState;
use moat::checks::repo_context::{
    branch_protection_from, branch_rules_from, config_from, dependabot_alerts_from,
    dependabot_config_from, dependabot_config_paths, dependabot_security_updates_from,
    direct_collaborators_from, fork_pr_approval_from, private_vulnerability_reporting_from,
    needs_security_and_analysis, reject_fork, release_immutability_from, security_and_analysis_from,
    sha_pinning_from, with_security_and_analysis,
    sort_names, sorted_release_branches, workflow_token_from, BranchProtection,
    BranchProtectionState, DependabotConfigState, FeatureStatus, ReleaseImmutabilityRepoState,
    RepoListing, RuleEntry, RulePullRequestParams, SHAPinningState, SecurityAndAnalysis,
};
use moat::config::{Config, ConfigError};
use moat::support::fetch::{Fetch, Fetch403};

fn denied(resource: &str) -> String {
    format!("missing permission to read {resource} for `acme/demo` — check that your token has the required scopes (`admin:org`, `repo`, `workflow`) and that the account is an organization admin")
}

#[test]
fn workflow_token_states() {
    assert_eq!(
        workflow_token_from(Fetch::Found("read".to_string()), "acme", "demo").ok(),
        Some(WorkflowTokenState::Read)
    );
    assert_eq!(
        workflow_token_from(Fetch::Found("write".to_string()), "acme", "demo").ok(),
        Some(WorkflowTokenState::Write)
    );
    assert_eq!(
        workflow_token_from(Fetch::Forbidden, "acme", "demo").err(),
        Some(denied("workflow token permissions"))
    );
    assert!(workflow_token_from(Fetch::NotFound, "acme", "demo").is_err());
}

#[test]
fn dependabot_alert_states() {
    assert_eq!(
        dependabot_alerts_from(Fetch403::Found(()), "acme", "demo").ok(),
        Some(FeatureState::Enabled)
    );
    assert_eq!(
        dependabot_alerts_from(Fetch403::NotFound, "acme", "demo").ok(),
        Some(FeatureState::Disabled)
    );
    assert_eq!(
        dependabot_alerts_from(Fetch403::PlanGated, "acme", "demo").ok(),
        Some(FeatureState::PlanGated)
    );
    assert_eq!(
        dependabot_alerts_from(Fetch403::Forbidden, "acme", "demo").err(),
        Some(denied("dependabot alerts"))
    );
}

#[test]
fn dependabot_security_updates_enabled_when_endpoint_reports_true() {
    assert_eq!(
        dependabot_security_updates_from(Fetch403::Found(true), "acme", "demo").ok(),
        Some(FeatureState::Enabled)
    );
}

#[test]
fn dependabot_security_updates_disabled_when_endpoint_reports_false() {
    assert_eq!(
        dependabot_security_updates_from(Fetch403::Found(false), "acme", "demo").ok(),
        Some(FeatureState::Disabled)
    );
}

#[test]
fn dependabot_security_updates_disabled_when_endpoint_404() {
    assert_eq!(
        dependabot_security_updates_from(Fetch403::NotFound, "acme", "demo").ok(),
        Some(FeatureState::Disabled)
    );
}

#[test]
fn dependabot_security_updates_bails_when_endpoint_forbidden() {
    let err = dependabot_security_updates_from(Fetch403::Forbidden, "acme", "demo")
        .err()
        .unwrap();
    assert!(err.contains("dependabot security updates"));
}

#[test]
fn private_vulnerability_reporting_skips_private_repos() {
    assert_eq!(
        private_vulnerability_reporting_from(true, None, "acme", "demo").ok(),
        Some(FeatureState::PlanGated)
    );
    assert_eq!(
        private_vulnerability_reporting_from(false, Some(Fetch403::Found(true)), "acme", "demo")
            .ok(),
        Some(FeatureState::Enabled)
    );
    assert_eq!(
        private_vulnerability_reporting_from(false, Some(Fetch403::Forbidden), "acme", "demo")
            .err(),
        Some(denied("private vulnerability reporting"))
    );
}

#[test]
fn release_immutability_states() {
    assert_eq!(
        release_immutability_from(Fetch403::Found(true), "acme", "demo").ok(),
        Some(ReleaseImmutabilityRepoState::Enabled)
    );
    assert_eq!(
        release_immutability_from(Fetch403::Found(false), "acme", "demo").ok(),
        Some(ReleaseImmutabilityRepoState::Disabled)
    );
    assert_eq!(
        release_immutability_from(Fetch403::PlanGated, "acme", "demo").ok(),
        Some(ReleaseImmutabilityRepoState::PlanGated)
    );
    assert_eq!(
        release_immutability_from(Fetch403::NotFound, "acme", "demo").err(),
        Some(denied("release immutability setting"))
    );
}

#[test]
fn fork_pr_policies() {
    let f = |p: Option<&str>| {
        fork_pr_approval_from(
            false,
            Some(Fetch403::Found(p.map(|s| s.to_string()))),
            "acme",
            "demo",
        )
    };
    assert_eq!(
        f(Some("all_external_contributors")).ok(),
        Some(ForkPrContributorApprovalState::AllExternalContributors)
    );
    assert_eq!(
        f(Some("first_time_contributors")).ok(),
        Some(ForkPrContributorApprovalState::FirstTimeContributors)
    );
    assert_eq!(
        f(Some("first_time_contributors_new_to_github")).ok(),
        Some(ForkPrContributorApprovalState::FirstTimeContributorsNewToGithub)
    );
    assert_eq!(f(Some("x")).ok(), Some(ForkPrContributorApprovalState::Other));
    assert_eq!(f(None).err(), Some(denied("fork PR contributor approval policy")));
    assert_eq!(
        fork_pr_approval_from(true, None, "acme", "demo").ok(),
        Some(ForkPrContributorApprovalState::PlanGated)
    );
}

#[test]
fn repo_context_fetch_sha_pinning_enforced() {
    assert_eq!(
        sha_pinning_from(Fetch403::Found(Some(true)), "acme", "demo").ok(),
        Some(SHAPinningState::Enforced)
    );
}

#[test]
fn repo_context_fetch_sha_pinning_not_enforced() {
    assert_eq!(
        sha_pinning_from(Fetch403::Found(Some(false)), "acme", "demo").ok(),
        Some(SHAPinningState::NotEnforced)
    );
}

#[test]
fn repo_context_fetch_sha_pinning_bails_when_endpoint_missing() {
    let err = sha_pinning_from(Fetch403::NotFound, "acme", "demo").err().unwrap();
    assert!(err.to_ascii_lowercase().contains("sha pinning"));
    assert!(sha_pinning_from(Fetch403::Found(None), "acme", "demo").is_err());
    assert_eq!(
        sha_pinning_from(Fetch403::PlanGated, "acme", "demo").ok(),
        Some(SHAPinningState::PlanGated)
    );
}

#[test]
fn repo_context_fetch_bails_on_forbidden_workflow_token() {
    let err = workflow_token_from(Fetch::Forbidden, "acme", "demo").err().unwrap();
    assert!(err.contains("workflow token"));
}

#[test]
fn config_falls_back_to_defaults() {
    let c = config_from(Fetch::NotFound, "acme", "demo").ok().unwrap();
    assert!(!c.is_off("repositories_commits_are_signed"));
    let c = config_from(Fetch::Forbidden, "acme", "demo").ok().unwrap();
    assert!(c.release_branches().is_empty());
    let e = config_from(
        Fetch::Found(Err(ConfigError::UnknownCheck("x".to_string()))),
        "acme",
        "demo",
    )
    .err()
    .unwrap();
    assert_eq!(e.org_repo, "acme/demo");
    assert_eq!(
        e.message(),
        "Invalid moat.toml in acme/demo: Unknown check `x` in moat.toml"
    );
    let c = config_from(Fetch::Found(Ok(Config::default())), "acme", "demo");
    assert!(c.is_ok());
}

#[test]
fn hydration_reads_the_detail() {
    let sa = SecurityAndAnalysis {
        secret_scanning: Some(FeatureStatus {
            status: "enabled".into(),
        }),
        secret_scanning_push_protection: None,
    };
    let got = security_and_analysis_from(Fetch::Found(Some(sa))).unwrap();
    assert_eq!(got.secret_scanning.unwrap().status, "enabled");
    assert!(security_and_analysis_from(Fetch::Forbidden).is_none());
}

#[test]
fn dependabot_config_probes() {
    assert_eq!(dependabot_config_paths(), vec![".github/dependabot.yml", ".github/dependabot.yaml"]);
    assert!(matches!(
        dependabot_config_from(&[Fetch::NotFound, Fetch::Found(true)], "acme", "demo"),
        Ok(DependabotConfigState::Present { github_actions: true })
    ));
    assert!(matches!(
        dependabot_config_from(&[Fetch::Found(false)], "acme", "demo"),
        Ok(DependabotConfigState::Present { github_actions: false })
    ));
    assert!(matches!(
        dependabot_config_from(&[Fetch::NotFound, Fetch::NotFound], "acme", "demo"),
        Ok(DependabotConfigState::Missing)
    ));
    assert_eq!(
        dependabot_config_from(&[Fetch::Forbidden], "acme", "demo").err(),
        Some(denied("dependabot config"))
    );
}

fn entry(login: &str, push: bool) -> CollaboratorEntry {
    CollaboratorEntry {
        login: login.into(),
        permissions: CollaboratorPerms {
            admin: false,
            maintain: false,
            push,
            triage: false,
        },
    }
}

#[test]
fn repo_context_fetch_direct_collaborators_public_repo_filters_read_only() {
    let listed = vec![entry("reader", false), entry("writer", true)];
    assert_eq!(
        direct_collaborators_from(Fetch::Found(listed), false, "acme", "demo").ok(),
        Some(vec!["writer".to_string()])
    );
    let listed = vec![entry("reader", false), entry("writer", true)];
    assert_eq!(
        direct_collaborators_from(Fetch::Found(listed), true, "acme", "demo").ok(),
        Some(vec!["reader".to_string(), "writer".to_string()])
    );
}

#[test]
fn repo_context_fetch_direct_collaborators_forbidden_bails() {
    let err = direct_collaborators_from(Fetch::Forbidden, false, "acme", "demo")
        .err()
        .unwrap();
    assert!(err.contains("direct collaborators"));
}

fn rule(kind: &str, params: Option<RulePullRequestParams>) -> RuleEntry {
    RuleEntry {
        rule_type: kind.into(),
        parameters: params,
    }
}

#[test]
fn branch_rules_and_protection() {
    let rules = branch_rules_from(
        Fetch403::Found(vec![
            rule("required_signatures", None),
            rule(
                "pull_request",
                Some(RulePullRequestParams {
                    required_approving_review_count: Some(1),
                    dismiss_stale_reviews_on_push: Some(true),
                    require_last_push_approval: None,
                    require_code_owner_review: Some(false),
                }),
            ),
            rule("non_fast_forward", None),
        ]),
        "acme",
        "demo",
        "main",
    )
    .ok()
    .unwrap();
    assert!(rules.any && rules.signed_commits && rules.pr_reviews && rules.pr_dismiss_stale_reviews);
    assert!(!rules.pr_require_last_push_approval && rules.non_fast_forward && !rules.deletion);
    let state = branch_protection_from(Fetch403::NotFound, &rules, "acme", "demo", "main")
        .ok()
        .unwrap();
    assert_eq!(
        state,
        BranchProtectionState::Protected {
            signed_commits: true,
            pr_reviews: true,
            pr_dismiss_stale_reviews: true,
            pr_require_last_push_approval: false,
            pr_require_code_owner_review: false,
            enforce_admins: true,
            required_linear_history: false,
            allow_force_pushes: false,
            allow_deletions: true,
        }
    );
    let classic = BranchProtection {
        required_signatures: None,
        required_pull_request_reviews: None,
        enforce_admins: Some(false),
        required_linear_history: Some(true),
        allow_force_pushes: Some(true),
        allow_deletions: Some(true),
    };
    let none = branch_rules_from(Fetch403::PlanGated, "acme", "demo", "main").ok().unwrap();
    assert!(!none.any);
    let state = branch_protection_from(Fetch403::Found(classic), &none, "acme", "demo", "main")
        .ok()
        .unwrap();
    assert_eq!(
        state,
        BranchProtectionState::Protected {
            signed_commits: false,
            pr_reviews: false,
            pr_dismiss_stale_reviews: false,
            pr_require_last_push_approval: false,
            pr_require_code_owner_review: false,
            enforce_admins: false,
            required_linear_history: true,
            allow_force_pushes: true,
            allow_deletions: true,
        }
    );
    assert_eq!(
        branch_protection_from(Fetch403::NotFound, &none, "acme", "demo", "main").ok(),
        Some(BranchProtectionState::Unprotected)
    );
    assert_eq!(
        branch_protection_from(Fetch403::PlanGated, &none, "acme", "demo", "main").ok(),
        Some(BranchProtectionState::PlanGated)
    );
    assert_eq!(
        branch_protection_from(Fetch403::Forbidden, &none, "acme", "demo", "main").err(),
        Some(denied("branch protection for `main`"))
    );
    assert_eq!(
        branch_rules_from(Fetch403::Forbidden, "acme", "demo", "main").err(),
        Some(denied("branch rules for `main`"))
    );
}

#[test]
fn file_probes() {
    assert_eq!(
        security_md_paths(),
        vec!["SECURITY.md", ".github/SECURITY.md", "docs/SECURITY.md"]
    );
    assert_eq!(
        codeowners_paths(),
        vec!["CODEOWNERS", ".github/CODEOWNERS", "docs/CODEOWNERS"]
    );
    assert_eq!(
        presence_from_probes(&[Fetch::NotFound, Fetch::Found(())], Some("SECURITY.md"), "acme", Some("demo")).ok(),
        Some(FilePresence::Present)
    );
    assert_eq!(
        presence_from_probes(&[Fetch::NotFound, Fetch::NotFound, Fetch::NotFound], Some("SECURITY.md"), "acme", Some("demo")).ok(),
        Some(FilePresence::Absent)
    );
    assert_eq!(
        presence_from_probes(&[Fetch::Forbidden], Some("SECURITY.md"), "acme", Some("demo")).err(),
        Some(denied("SECURITY.md"))
    );
    // the owner's default policy passes over refusals
    assert_eq!(
        presence_from_probes(&[Fetch::Forbidden, Fetch::Found(())], None, "acme", None).ok(),
        Some(FilePresence::Present)
    );
}

#[test]
fn webhook_listing() {
    let hooks = webhooks_from(Fetch::Found(vec![
        (Some("https://x".to_string()), true),
        (None, false),
    ]));
    assert_eq!(hooks.len(), 2);
    assert_eq!(hooks[0].url, "https://x");
    assert!(hooks[0].has_secret);
    assert_eq!(hooks[1].url, "");
    assert!(webhooks_from(Fetch::Forbidden).is_empty());
}

#[test]
fn repo_context_fetch_forks_are_rejected() {
    let listing = RepoListing {
        name: "demo".into(),
        archived: false,
        fork: true,
        private: false,
        default_branch: Some("main".into()),
        security_and_analysis: None,
        permissions: None,
    };
    assert_eq!(
        reject_fork(&listing, "acme").err(),
        Some("`acme/demo` is a fork — Moat does not audit forks (their settings inherit from upstream)".to_string())
    );
}

#[test]
fn names_are_sorted() {
    let v = sort_names(vec!["main".into(), "1.x".into(), "0.x".into(), "Main".into(), "ma".into()]);
    assert_eq!(v, vec!["0.x", "1.x", "Main", "ma", "main"]);
    let c = Config::default();
    assert_eq!(sorted_release_branches(&Some("main".to_string()), &c), vec!["main"]);
}


#[test]
fn listing_block_is_filled_only_when_missing() {
    let bare = RepoListing {
        name: "demo".into(),
        archived: false,
        fork: false,
        private: true,
        default_branch: Some("main".into()),
        security_and_analysis: None,
        permissions: None,
    };
    assert!(needs_security_and_analysis(&bare));
    let read = SecurityAndAnalysis {
        secret_scanning: Some(FeatureStatus {
            status: "enabled".into(),
        }),
        secret_scanning_push_protection: None,
    };
    let filled = with_security_and_analysis(bare, Fetch::Found(Some(read)));
    assert!(!needs_security_and_analysis(&filled));
    assert_eq!(filled.name, "demo");
    assert!(filled.private);
    assert_eq!(
        filled.security_and_analysis.as_ref().unwrap().secret_scanning.as_ref().unwrap().status,
        "enabled"
    );
    // a block the listing had is kept, whatever the detail says
    let other = SecurityAndAnalysis {
        secret_scanning: Some(FeatureStatus {
            status: "disabled".into(),
        }),
        secret_scanning_push_protection: None,
    };
    let kept = with_security_and_analysis(filled, Fetch::Found(Some(other)));
    assert_eq!(
        kept.security_and_analysis.unwrap().secret_scanning.unwrap().status,
        "enabled"
    );
    // an unreadable detail leaves the block missing
    let unread = RepoListing {
        name: "demo".into(),
        archived: false,
        fork: false,
        private: false,
        default_branch: None,
        security_and_analysis: None,
        permissions: None,
    };
    let still = with_security_and_analysis(unread, Fetch::Forbidden);
    assert!(still.security_and_analysis.is_none());
}
