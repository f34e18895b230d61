use moat::checks::common::{
    count_repos_missing_branch_flag, feature_state_phrase, inspectable_branch_protection_repos,
    ruleset_state_phrase, FeatureState, FilePresence, WebhookInfo, WorkflowTokenState,
};
use moat::checks::org_context::ForkPrContributorApprovalState;
use moat::checks::repo_context::{
    compute_release_branches, inherit_security_md, pick_feature, BranchEval,
    BranchProtectionState, BranchProtections, DependabotConfigState, FeatureStatus,
    ReleaseImmutabilityRepoState, RepoContext, RepoListing, RepoParts, SHAPinningState,
    SecurityAndAnalysis, SecurityFeature,
};
use moat::checks::{all_checks, known_check_ids, public_only, CheckId, Scope};
use moat::config::Config;
use moat::support::outcome::Status;
use moat::support::workflows::BranchedWorkflows;

fn protected(signed: bool) -> BranchProtectionState {
    BranchProtectionState::Protected {
        signed_commits: signed,
        pr_reviews: false,
        pr_dismiss_stale_reviews: false,
        pr_require_last_push_approval: false,
        pr_require_code_owner_review: false,
        enforce_admins: false,
        required_linear_history: false,
        allow_force_pushes: false,
        allow_deletions: false,
    }
}

fn signed_flag(s: &BranchProtectionState) -> Option<bool> {
    match s {
        BranchProtectionState::Protected { signed_commits, .. } => Some(*signed_commits),
        _ => None,
    }
}

fn branches(list: Vec<(&str, BranchProtectionState)>) -> BranchProtections {
    BranchProtections {
        branches: list.into_iter().map(|(n, s)| (n.to_string(), s)).collect(),
    }
}

#[test]
fn aggregate_flag_single_branch() {
    let b = branches(vec![("main", protected(true))]);
    let o = b.aggregate_flag(signed_flag);
    assert_eq!(o.status, Status::Pass);
    assert_eq!(o.summary, "✓");
    let b = branches(vec![("main", protected(false))]);
    let o = b.aggregate_flag(signed_flag);
    assert_eq!(o.status, Status::Fail);
    assert_eq!(o.summary, "✗");
    assert_eq!(o.items, vec!["✗"]);
    let b = branches(vec![("main", BranchProtectionState::PlanGated)]);
    let o = b.aggregate_flag(signed_flag);
    assert_eq!(o.status, Status::Skipped);
    assert_eq!(o.summary, "N/A (plan)");
    let b = branches(vec![("main", BranchProtectionState::Unprotected)]);
    assert_eq!(b.aggregate_flag(signed_flag).status, Status::Fail);
}

#[test]
fn aggregate_lists_failing_branches() {
    let b = branches(vec![
        ("main", protected(true)),
        ("1.x", protected(false)),
        ("2.x", BranchProtectionState::Unprotected),
    ]);
    let o = b.aggregate(|s| match s {
        BranchProtectionState::Protected { signed_commits: true, .. } => BranchEval::Pass,
        BranchProtectionState::Protected { .. } => BranchEval::Fail(vec!["unsigned".to_string()]),
        BranchProtectionState::Unprotected => BranchEval::Fail(Vec::new()),
        BranchProtectionState::PlanGated => BranchEval::PlanGated,
    });
    assert_eq!(o.status, Status::Fail);
    assert_eq!(o.summary, "✗ 1.x, 2.x");
    assert_eq!(o.items, vec!["1.x: unsigned", "2.x: ✗"]);
}

#[test]
fn aggregate_without_branches_is_skipped() {
    let o = BranchProtections::none().aggregate(|_| BranchEval::Pass);
    assert_eq!(o.status, Status::Skipped);
    assert_eq!(o.summary, "—");
    assert_eq!(o.no_data_label.as_deref(), Some("repos, no release branches"));
    assert!(BranchProtections::none().is_empty());
    assert!(!BranchProtections::none().any_plan_gated());
    assert!(branches(vec![("main", BranchProtectionState::PlanGated)]).any_plan_gated());
}

fn ctx(name: &str, private: bool, state: BranchProtectionState) -> RepoContext {
    RepoContext {
        name: name.into(),
        archived: false,
        private,
        default_branch: Some("main".into()),
        branch_protections: BranchProtections::from_single("main".into(), state),
        workflow_token: WorkflowTokenState::Read,
        secret_scanning: FeatureState::Enabled,
        push_protection: FeatureState::Enabled,
        dependabot_alerts: FeatureState::Enabled,
        dependabot_security_updates: FeatureState::Enabled,
        private_vulnerability_reporting: FeatureState::Enabled,
        workflows: BranchedWorkflows::empty(),
        security_md: FilePresence::Absent,
        dependabot_config: DependabotConfigState::Missing,
        webhooks: Vec::new(),
        direct_collaborators: Vec::new(),
        release_immutability: ReleaseImmutabilityRepoState::Enabled,
        fork_pr_contributor_approval: ForkPrContributorApprovalState::AllExternalContributors,
        sha_pinning: SHAPinningState::Enforced,
        codeowners: FilePresence::Absent,
        config: Config::default(),
    }
}

#[test]
fn feature_phrases() {
    let mut a = ctx("a", false, protected(true));
    let mut b = ctx("b", false, protected(true));
    let repos = [&a, &b];
    assert_eq!(
        feature_state_phrase("secret scanning", &repos, |r| r.secret_scanning, None).unwrap(),
        "secret scanning is enabled on all 2 repositories"
    );
    b.secret_scanning = FeatureState::Disabled;
    let repos = [&a, &b];
    assert_eq!(
        feature_state_phrase("secret scanning", &repos, |r| r.secret_scanning, None).unwrap(),
        "secret scanning is disabled on 1 repository"
    );
    assert_eq!(
        feature_state_phrase("secret scanning", &repos, |r| r.secret_scanning, Some(false))
            .unwrap(),
        "secret scanning is enabled by default org-wide, but 1 repository override it"
    );
    a.secret_scanning = FeatureState::PlanGated;
    b.secret_scanning = FeatureState::PlanGated;
    let repos = [&a, &b];
    assert!(feature_state_phrase("secret scanning", &repos, |r| r.secret_scanning, None).is_none());
    assert_eq!(
        feature_state_phrase("secret scanning", &repos, |r| r.secret_scanning, Some(true)).unwrap(),
        "secret scanning is not enabled by default for new repositories"
    );
}

#[test]
fn ruleset_phrases() {
    let a = ctx("a", false, protected(true));
    let b = ctx("b", false, protected(false));
    let c = ctx("c", true, BranchProtectionState::PlanGated);
    let repos = [&a, &b, &c];
    assert_eq!(inspectable_branch_protection_repos(&repos), 2);
    assert_eq!(count_repos_missing_branch_flag(&repos, signed_flag), 1);
    assert_eq!(
        ruleset_state_phrase("signed commits", &repos, signed_flag, None).unwrap(),
        "1 repository leave release branches unprotected from signed commits-related changes"
    );
    assert_eq!(
        ruleset_state_phrase("signed commits", &repos, signed_flag, Some(true)).unwrap(),
        "signed commits is required by an org-level ruleset, but 1 repository override it on release branches"
    );
    let repos = [&a];
    assert_eq!(
        ruleset_state_phrase("signed commits", &repos, signed_flag, None).unwrap(),
        "signed commits is enforced on release branches across all 1 repository"
    );
}

#[test]
fn release_branches_default_first_without_repeats() {
    let c = Config::default();
    assert_eq!(compute_release_branches(&Some("main".to_string()), &c), vec!["main"]);
    assert!(compute_release_branches(&None, &c).is_empty());
}

fn listing(sa: Option<SecurityAndAnalysis>, private: bool) -> RepoListing {
    RepoListing {
        name: "demo".into(),
        archived: false,
        fork: false,
        private,
        default_branch: Some("main".into()),
        security_and_analysis: sa,
        permissions: None,
    }
}

fn sa(scan: Option<&str>, push: Option<&str>) -> SecurityAndAnalysis {
    SecurityAndAnalysis {
        secret_scanning: scan.map(|s| FeatureStatus { status: s.into() }),
        secret_scanning_push_protection: push.map(|s| FeatureStatus { status: s.into() }),
    }
}

#[test]
fn picking_secret_scanning_features() {
    let l = listing(Some(sa(Some("enabled"), Some("disabled"))), false);
    assert_eq!(
        pick_feature(&l, SecurityFeature::SecretScanning, false, "secret scanning", "acme").ok(),
        Some(FeatureState::Enabled)
    );
    assert_eq!(
        pick_feature(&l, SecurityFeature::PushProtection, false, "secret push protection", "acme")
            .ok(),
        Some(FeatureState::Disabled)
    );
    assert_eq!(
        pick_feature(&l, SecurityFeature::PushProtection, true, "secret push protection", "acme")
            .ok(),
        Some(FeatureState::PlanGated)
    );
    let l = listing(None, false);
    assert!(pick_feature(&l, SecurityFeature::SecretScanning, false, "secret scanning", "acme")
        .err()
        .unwrap()
        .contains("read secret scanning for `acme/demo`"));
    assert_eq!(
        pick_feature(&l, SecurityFeature::SecretScanning, true, "secret scanning", "acme").ok(),
        Some(FeatureState::PlanGated)
    );
}

#[test]
fn repo_context_fetch_inherits_org_default_security_md() {
    assert_eq!(
        inherit_security_md(FilePresence::Absent, FilePresence::Present),
        FilePresence::Present
    );
    assert_eq!(
        inherit_security_md(FilePresence::Absent, FilePresence::Absent),
        FilePresence::Absent
    );
}

#[test]
fn repo_context_fetch_uses_own_security_md_over_absent_org_default() {
    assert_eq!(
        inherit_security_md(FilePresence::Present, FilePresence::Absent),
        FilePresence::Present
    );
}

fn parts(branch: BranchProtectionState) -> RepoParts {
    RepoParts {
        config: Config::default(),
        branches: vec![("main".to_string(), branch)],
        workflow_token: WorkflowTokenState::Write,
        dependabot_alerts: FeatureState::Enabled,
        dependabot_security_updates: FeatureState::Disabled,
        private_vulnerability_reporting: FeatureState::Enabled,
        workflows: BranchedWorkflows::empty(),
        own_security_md: FilePresence::Absent,
        dependabot_config: DependabotConfigState::Present {
            github_actions: true,
        },
        webhooks: vec![WebhookInfo {
            url: "https://x".into(),
            has_secret: true,
        }],
        direct_collaborators: vec!["eve".to_string()],
        release_immutability: ReleaseImmutabilityRepoState::Disabled,
        fork_pr_contributor_approval: ForkPrContributorApprovalState::Other,
        sha_pinning: SHAPinningState::NotEnforced,
        codeowners: FilePresence::Present,
    }
}

#[test]
fn repo_context_fetch_happy_path() {
    let l = listing(Some(sa(Some("enabled"), Some("enabled"))), false);
    let c = RepoContext::assemble(l, "acme", FilePresence::Present, parts(protected(true)))
        .ok()
        .unwrap();
    assert_eq!(c.name, "demo");
    assert_eq!(c.secret_scanning, FeatureState::Enabled);
    assert_eq!(c.push_protection, FeatureState::Enabled);
    assert_eq!(c.security_md, FilePresence::Present);
    assert_eq!(c.workflow_token, WorkflowTokenState::Write);
    assert_eq!(c.direct_collaborators, vec!["eve"]);
    assert_eq!(c.branch_protections.branches.len(), 1);
}

#[test]
fn repo_context_fetch_plan_gated_private_repo_marks_scan_and_push_plan_gated() {
    let l = listing(None, true);
    let c = RepoContext::assemble(
        l,
        "acme",
        FilePresence::Absent,
        parts(BranchProtectionState::PlanGated),
    )
    .ok()
    .unwrap();
    assert_eq!(c.secret_scanning, FeatureState::PlanGated);
    assert_eq!(c.push_protection, FeatureState::PlanGated);
    assert_eq!(c.security_md, FilePresence::Absent);
}

#[test]
fn assembling_without_security_report_fails() {
    let l = listing(None, false);
    let err = RepoContext::assemble(l, "acme", FilePresence::Absent, parts(protected(true)))
        .err()
        .unwrap();
    assert!(err.contains("secret scanning"));
}

#[test]
fn check_registry_helpers() {
    assert_eq!(Scope::of(true, true), Scope::OrgAndRepo);
    assert_eq!(Scope::of(true, false), Scope::Org);
    assert_eq!(Scope::of(false, true), Scope::Repo);
    let ids = known_check_ids();
    assert_eq!(ids.len(), 23);
    assert_eq!(ids[0], "organization_requires_two_factor");
    assert!(ids.contains(&"repositories_workflow_permissions_are_restricted"));
    let r = ctx("a", true, protected(true));
    assert!(!public_only(&r));
}

#[test]
fn check_registry_facts() {
    let all = all_checks();
    let ids: Vec<&str> = all.iter().map(|c| c.facts().id).collect();
    assert_eq!(ids, known_check_ids());
    assert_eq!(CheckId::OrganizationRequiresTwoFactor.scope(), Scope::Org);
    assert_eq!(CheckId::RepositoriesWebhooksAreSecure.scope(), Scope::OrgAndRepo);
    assert_eq!(CheckId::RepositoriesWorkflowActionsArePinned.scope(), Scope::Repo);
    let f = CheckId::RepositoriesHaveNoDirectCollaborators.facts();
    assert!(f.org_only);
    assert_eq!(f.repo_link_path, Some("/settings/access"));
    assert!(CheckId::RepositoriesCommitsAreSigned.facts().ruleset_based);
    let private = ctx("a", true, protected(true));
    assert!(!CheckId::RepositoriesHaveSecurityPolicy.applies_to_repo(&private));
    assert!(CheckId::RepositoriesWebhooksAreSecure.applies_to_repo(&private));
    assert_eq!(CheckId::RepositoriesWebhooksAreSecure.repo_noun(), "repositories");
}

#[test]
fn gated_repositories_leave_the_feature_phrase() {
    let a = ctx("a", false, protected(true));
    let mut g = ctx("g", true, protected(true));
    g.secret_scanning = FeatureState::PlanGated;
    let with = [&g, &a, &g];
    let without = [&a];
    assert_eq!(
        feature_state_phrase("secret scanning", &with, |r| r.secret_scanning, None),
        feature_state_phrase("secret scanning", &without, |r| r.secret_scanning, None)
    );
}
