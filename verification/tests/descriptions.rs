use moat::checks::common::{FeatureState, FilePresence, WorkflowTokenState};
use moat::checks::org_context::{ForkPrContributorApprovalState, OrgContext};
use moat::checks::repo_context::{
    BranchProtectionState, BranchProtections, DependabotConfigState, ReleaseImmutabilityRepoState,
    RepoContext, SHAPinningState,
};
use moat::checks::{
    organization_members_all_have_two_factor as two_factor,
    repositories_enforce_workflow_actions_sha_pinning as enforce_pinning,
    repositories_workflow_actions_are_sha_pinned as pinned_actions,
    repositories_workflow_permissions_are_restricted as workflow_perms, StateCtx,
};
use moat::config::Config;
use moat::support::outcome::Status;
use moat::support::workflows::{BranchedWorkflows, Workflow};
use moat::support::yaml::Yaml;

fn convert(v: &serde_yaml::Value) -> Yaml {
    match v {
        serde_yaml::Value::Null => Yaml::Null,
        serde_yaml::Value::String(s) => Yaml::String(s.clone()),
        serde_yaml::Value::Sequence(items) => Yaml::Sequence(items.iter().map(convert).collect()),
        serde_yaml::Value::Mapping(m) => {
            Yaml::Mapping(m.iter().map(|(k, v)| (convert(k), convert(v))).collect())
        }
        _ => Yaml::Other,
    }
}

fn wf(path: &str, yaml: &str) -> Workflow {
    let v: serde_yaml::Value = serde_yaml::from_str(yaml).unwrap();
    Workflow {
        path: path.into(),
        doc: convert(&v),
    }
}

fn repo(name: &str, workflows: Vec<Workflow>, sha: SHAPinningState) -> RepoContext {
    RepoContext {
        name: name.into(),
        archived: false,
        private: false,
        default_branch: Some("main".into()),
        branch_protections: BranchProtections::from_single(
            "main".into(),
            BranchProtectionState::Unprotected,
        ),
        workflow_token: WorkflowTokenState::Read,
        secret_scanning: FeatureState::Enabled,
        push_protection: FeatureState::Enabled,
        dependabot_alerts: FeatureState::Enabled,
        dependabot_security_updates: FeatureState::Enabled,
        private_vulnerability_reporting: FeatureState::Enabled,
        workflows: BranchedWorkflows {
            per_branch: vec![("main".into(), workflows)],
        },
        security_md: FilePresence::Absent,
        dependabot_config: DependabotConfigState::Missing,
        webhooks: Vec::new(),
        direct_collaborators: Vec::new(),
        release_immutability: ReleaseImmutabilityRepoState::Enabled,
        fork_pr_contributor_approval: ForkPrContributorApprovalState::AllExternalContributors,
        sha_pinning: sha,
        codeowners: FilePresence::Absent,
        config: Config::default(),
    }
}

#[test]
fn two_factor_check_lists_members() {
    let org = OrgContext {
        members_without_2fa: vec!["alice".into(), "bob".into()],
    };
    let o = two_factor::org_check(&org);
    assert_eq!(o.status, Status::Fail);
    assert_eq!(o.summary, "2 member(s) without 2FA enabled");
    assert_eq!(o.items, vec!["alice", "bob"]);
    let d = two_factor::description(StateCtx {
        org: Some(&org),
        repos: &[],
    });
    assert_eq!(d.unwrap(), "2 members can sign in without two-factor authentication");
    let clean = OrgContext {
        members_without_2fa: Vec::new(),
    };
    let o = two_factor::org_check(&clean);
    assert_eq!(o.status, Status::Pass);
    assert_eq!(o.summary, "Every member has 2FA enabled");
    assert_eq!(
        two_factor::description(StateCtx {
            org: Some(&clean),
            repos: &[],
        })
        .unwrap(),
        "every member has two-factor authentication enabled"
    );
    assert!(two_factor::description(StateCtx { org: None, repos: &[] }).is_none());
    assert_eq!(two_factor::how_to_fix(StateCtx { org: None, repos: &[] }), two_factor::HOW_TO_FIX);
}

const UNPINNED: &str = "jobs:\n  a:\n    steps:\n      - uses: actions/checkout@v4\n      - uses: actions/cache@v3\n";
const PINNED: &str =
    "jobs:\n  a:\n    steps:\n      - uses: actions/checkout@1234567890123456789012345678901234567890\n";

#[test]
fn enforce_pinning_description_counts_repos_with_workflows() {
    let a = repo("a", vec![wf("ci.yml", PINNED)], SHAPinningState::NotEnforced);
    let b = repo("b", vec![wf("ci.yml", PINNED)], SHAPinningState::Enforced);
    let c = repo("c", Vec::new(), SHAPinningState::NotEnforced);
    let d = repo("d", vec![wf("ci.yml", PINNED)], SHAPinningState::PlanGated);
    let repos = [&a, &b, &c, &d];
    assert_eq!(
        enforce_pinning::description(StateCtx { org: None, repos: &repos }).unwrap(),
        "1/2 repositories with workflows don't enforce SHA pinning at the repo level"
    );
    let repos = [&b];
    assert_eq!(
        enforce_pinning::description(StateCtx { org: None, repos: &repos }).unwrap(),
        "every repository with workflows enforces SHA pinning at the repo level"
    );
    let repos = [&c, &d];
    assert!(enforce_pinning::description(StateCtx { org: None, repos: &repos }).is_none());
    let o = enforce_pinning::repo_check(&a);
    assert_eq!(
        o.items,
        vec!["repo setting \"Require actions to be pinned to a full-length commit SHA\" is OFF — settings → actions → general → Actions permissions"]
    );
}

#[test]
fn pinned_actions_description_counts_references() {
    let a = repo("a", vec![wf("ci.yml", UNPINNED)], SHAPinningState::Enforced);
    let b = repo("b", vec![wf("ci.yml", PINNED)], SHAPinningState::Enforced);
    let repos = [&a, &b];
    assert_eq!(
        pinned_actions::description(StateCtx { org: None, repos: &repos }).unwrap(),
        "2 unpinned action references across 1/2 repositories with workflows"
    );
    let repos = [&b];
    assert_eq!(
        pinned_actions::description(StateCtx { org: None, repos: &repos }).unwrap(),
        "every workflow action is SHA-pinned across all 1 repository with workflows"
    );
    let o = pinned_actions::repo_check(&a);
    assert_eq!(
        o.items,
        vec![
            "unpinned ref — ci.yml: actions/checkout@v4",
            "unpinned ref — ci.yml: actions/cache@v3"
        ]
    );
}

#[test]
fn pinned_actions_multi_branch_lists_branches() {
    let mut a = repo("a", Vec::new(), SHAPinningState::Enforced);
    a.workflows = BranchedWorkflows {
        per_branch: vec![
            ("main".into(), vec![wf("ci.yml", UNPINNED)]),
            ("1.x".into(), vec![wf("ci.yml", PINNED)]),
        ],
    };
    let o = pinned_actions::repo_check(&a);
    assert_eq!(o.status, Status::Fail);
    assert_eq!(o.failing_branches, vec!["main"]);
    assert_eq!(o.items[0], "main: unpinned ref — ci.yml: actions/checkout@v4");
}

#[test]
fn workflow_perms_description_counts_workflows() {
    let bad = repo(
        "a",
        vec![
            wf("ci.yml", "on: push\njobs:\n  a:\n    steps:\n      - run: echo\n"),
            wf("ok.yml", "on: push\npermissions: read-all\njobs: {}\n"),
        ],
        SHAPinningState::Enforced,
    );
    let exempt = repo(
        "b",
        vec![wf(
            "deploy.yml",
            "on: push\npermissions:\n  contents: read\njobs:\n  deploy:\n    permissions:\n      pages: write\n      id-token: write\n    steps:\n      - uses: actions/deploy-pages@v4\n",
        )],
        SHAPinningState::Enforced,
    );
    let repos = [&bad, &exempt];
    assert_eq!(
        workflow_perms::description(StateCtx { org: None, repos: &repos }).unwrap(),
        "1 workflow grant write or omit the permissions block across 1/2 repositories with workflows; 1 workflow exempted for known actions"
    );
    let repos = [&exempt];
    assert_eq!(
        workflow_perms::description(StateCtx { org: None, repos: &repos }).unwrap(),
        "every workflow declares a read-only permissions block across all 1 repository with workflows (1 workflow with known-action exemptions)"
    );
    let none = repo("c", Vec::new(), SHAPinningState::Enforced);
    let repos = [&none];
    assert!(workflow_perms::description(StateCtx { org: None, repos: &repos }).is_none());
}
