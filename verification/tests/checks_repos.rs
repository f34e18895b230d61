use moat::checks::common::{FeatureState, FilePresence, WorkflowTokenState};
use moat::checks::org_context::ForkPrContributorApprovalState;
use moat::checks::repo_context::{
    BranchProtectionState, BranchProtections, DependabotConfigState, ReleaseImmutabilityRepoState,
    RepoContext, SHAPinningState,
};
use moat::checks::{
    repositories_enforce_workflow_actions_sha_pinning as enforce_pinning,
    repositories_workflow_actions_are_sha_pinned as pinned_actions,
    repositories_workflow_permissions_are_restricted as workflow_perms,
};
use moat::config::{Config, ConfigError, RawConfig};
use moat::invocation::active_repo_count;
use moat::support::outcome::Status;
use moat::support::workflows::{BranchedWorkflows, Workflow};
use moat::support::yaml::Yaml;

fn bw(workflows: Vec<Workflow>) -> BranchedWorkflows {
    BranchedWorkflows {
        per_branch: vec![("main".into(), workflows)],
    }
}

fn workflows_by_branch(states: Vec<(&str, Vec<Workflow>)>) -> BranchedWorkflows {
    BranchedWorkflows {
        per_branch: states
            .into_iter()
            .map(|(branch, ws)| (branch.into(), ws))
            .collect(),
    }
}

fn ctx(branch: BranchProtectionState, token: WorkflowTokenState) -> RepoContext {
    RepoContext {
        name: "r".into(),
        archived: false,
        private: false,
        default_branch: Some("main".into()),
        branch_protections: BranchProtections::from_single("main".into(), branch),
        workflow_token: token,
        secret_scanning: FeatureState::Enabled,
        push_protection: FeatureState::Enabled,
        dependabot_alerts: FeatureState::Enabled,
        dependabot_security_updates: FeatureState::Enabled,
        private_vulnerability_reporting: FeatureState::Enabled,
        workflows: bw(Vec::new()),
        security_md: FilePresence::Absent,
        dependabot_config: DependabotConfigState::Missing,
        webhooks: Vec::new(),
        direct_collaborators: Vec::new(),
        release_immutability: ReleaseImmutabilityRepoState::Enabled,
        fork_pr_contributor_approval: ForkPrContributorApprovalState::AllExternalContributors,
        sha_pinning: SHAPinningState::Enforced,
        codeowners: FilePresence::Absent,
        config: Config::default(),
    }
}

fn convert(v: &serde_yaml::Value) -> Yaml {
    match v {
        serde_yaml::Value::Null => Yaml::Null,
        serde_yaml::Value::String(s) => Yaml::String(s.clone()),
        serde_yaml::Value::Sequence(items) => Yaml::Sequence(items.iter().map(convert).collect()),
        serde_yaml::Value::Mapping(m) => {
            Yaml::Mapping(m.iter().map(|(k, v)| (convert(k), convert(v))).collect())
        }
        _ => Yaml::Other,
    }
}

fn wf(path: &str, yaml: &str) -> Workflow {
    let v: serde_yaml::Value = serde_yaml::from_str(yaml).unwrap();
    Workflow {
        path: path.into(),
        doc: convert(&v),
    }
}

fn strings(v: &toml::Value) -> Vec<String> {
    v.as_array()
        .unwrap()
        .iter()
        .map(|s| s.as_str().unwrap().to_string())
        .collect()
}

fn parse_config(text: &str, known: &[&str]) -> Result<Config, ConfigError> {
    let table: toml::Table = match toml::from_str(text) {
        Ok(t) => t,
        Err(e) => return Err(ConfigError::Syntax(e.to_string())),
    };
    let mut raw = RawConfig {
        checks: Vec::new(),
        release_branches: Vec::new(),
        workflow_permissions: Vec::new(),
    };
    if let Some(checks) = table.get("checks") {
        for (k, v) in checks.as_table().unwrap() {
            raw.checks.push((k.clone(), v.as_str().unwrap().to_string()));
        }
    }
    if let Some(b) = table.get("release_branches") {
        raw.release_branches = strings(b);
    }
    if let Some(wp) = table.get("workflow_permissions") {
        for (k, v) in wp.as_table().unwrap() {
            raw.workflow_permissions.push((k.clone(), strings(v)));
        }
    }
    Config::from_raw(raw, known)
}

#[test]
fn pinned_actions_flags_unpinned_refs() {
    let mut c = ctx(BranchProtectionState::Unprotected, WorkflowTokenState::Read);
    c.workflows = bw(vec![wf(
        "ci.yml",
        "jobs:\n  a:\n    steps:\n      - uses: actions/checkout@v4\n",
    )]);
    let o = pinned_actions::repo_check(&c);
    assert_eq!(o.status, Status::Fail);
    assert_eq!(o.summary, "✗");
    assert!(o.items.iter().any(|i| i.contains("unpinned")));
}

#[test]
fn pinned_actions_passes_when_all_refs_pinned() {
    let mut c = ctx(BranchProtectionState::Unprotected, WorkflowTokenState::Read);
    c.workflows = bw(vec![wf(
        "ci.yml",
        "jobs:\n  a:\n    steps:\n      - uses: actions/checkout@1234567890123456789012345678901234567890\n",
    )]);
    let o = pinned_actions::repo_check(&c);
    assert_eq!(o.status, Status::Pass);
}

#[test]
fn pinned_actions_no_workflows_is_skipped() {
    let mut c = ctx(BranchProtectionState::Unprotected, WorkflowTokenState::Read);
    c.workflows = bw(Vec::new());
    let o = pinned_actions::repo_check(&c);
    assert_eq!(o.status, Status::Skipped);
}

#[test]
fn enforce_pinning_fails_when_setting_off() {
    let mut c = ctx(BranchProtectionState::Unprotected, WorkflowTokenState::Read);
    c.sha_pinning = SHAPinningState::NotEnforced;
    c.workflows = bw(vec![wf(
        "ci.yml",
        "jobs:\n  a:\n    steps:\n      - uses: actions/checkout@1234567890123456789012345678901234567890\n",
    )]);
    let o = enforce_pinning::repo_check(&c);
    assert_eq!(o.status, Status::Fail);
    assert_eq!(o.summary, "✗");
    assert_eq!(o.items.len(), 1);
}

#[test]
fn enforce_pinning_passes_when_setting_on() {
    let mut c = ctx(BranchProtectionState::Unprotected, WorkflowTokenState::Read);
    c.sha_pinning = SHAPinningState::Enforced;
    c.workflows = bw(vec![wf(
        "ci.yml",
        "jobs:\n  a:\n    steps:\n      - uses: actions/checkout@v4\n",
    )]);
    let o = enforce_pinning::repo_check(&c);
    assert_eq!(o.status, Status::Pass);
}

#[test]
fn enforce_pinning_plan_gated_is_skipped() {
    let mut c = ctx(BranchProtectionState::Unprotected, WorkflowTokenState::Read);
    c.sha_pinning = SHAPinningState::PlanGated;
    c.workflows = bw(vec![wf(
        "ci.yml",
        "jobs:\n  a:\n    steps:\n      - uses: actions/checkout@v4\n",
    )]);
    assert_eq!(enforce_pinning::repo_check(&c).status, Status::Skipped);
}

#[test]
fn enforce_pinning_no_workflows_is_skipped() {
    let mut c = ctx(BranchProtectionState::Unprotected, WorkflowTokenState::Read);
    c.sha_pinning = SHAPinningState::NotEnforced;
    c.workflows = bw(Vec::new());
    assert_eq!(enforce_pinning::repo_check(&c).status, Status::Skipped);
}

#[test]
fn workflow_perms_no_workflows_skipped() {
    let mut c = ctx(BranchProtectionState::Unprotected, WorkflowTokenState::Read);
    c.workflows = bw(Vec::new());
    assert_eq!(workflow_perms::repo_check(&c).status, Status::Skipped);
}

#[test]
fn workflow_perms_multi_branch_findings_visible() {
    let mut c = ctx(BranchProtectionState::Unprotected, WorkflowTokenState::Read);
    c.workflows = workflows_by_branch(vec![
        (
            "main",
            vec![wf(
                "ci.yml",
                "on: push\npermissions: write-all\njobs:\n  a:\n    steps:\n      - run: echo\n",
            )],
        ),
        ("release", Vec::new()),
    ]);
    assert_eq!(workflow_perms::repo_check(&c).status, Status::Fail);
}

#[test]
fn workflow_perms_missing_block_fails() {
    let mut c = ctx(BranchProtectionState::Unprotected, WorkflowTokenState::Read);
    c.workflows = bw(vec![wf(
        "ci.yml",
        "on: push\njobs:\n  a:\n    runs-on: ubuntu-latest\n    steps:\n      - run: echo hi\n",
    )]);
    let o = workflow_perms::repo_check(&c);
    assert_eq!(o.status, Status::Fail);
    assert!(
        o.items
            .iter()
            .any(|i| i.to_ascii_lowercase().contains("missing"))
    );
}

#[test]
fn workflow_perms_write_all_fails() {
    let mut c = ctx(BranchProtectionState::Unprotected, WorkflowTokenState::Read);
    c.workflows = bw(vec![wf(
        "ci.yml",
        "on: push\npermissions: write-all\njobs:\n  a:\n    steps:\n      - run: echo\n",
    )]);
    let o = workflow_perms::repo_check(&c);
    assert_eq!(o.status, Status::Fail);
    assert!(
        o.items
            .iter()
            .any(|i| i.to_ascii_lowercase().contains("write-all"))
    );
}

#[test]
fn workflow_perms_scoped_write_fails() {
    let mut c = ctx(BranchProtectionState::Unprotected, WorkflowTokenState::Read);
    c.workflows = bw(vec![wf(
        "ci.yml",
        "on: push\npermissions:\n  contents: write\n  issues: read\njobs:\n  a:\n    steps:\n      - run: echo\n",
    )]);
    let o = workflow_perms::repo_check(&c);
    assert_eq!(o.status, Status::Fail);
    assert!(
        o.items
            .iter()
            .any(|i| i.to_ascii_lowercase().contains("contents"))
    );
}

#[test]
fn workflow_perms_read_only_passes() {
    let mut c = ctx(BranchProtectionState::Unprotected, WorkflowTokenState::Read);
    c.workflows = bw(vec![wf(
        "ci.yml",
        "on: push\npermissions:\n  contents: read\njobs:\n  a:\n    steps:\n      - run: echo\n",
    )]);
    assert_eq!(workflow_perms::repo_check(&c).status, Status::Pass);
}

#[test]
fn workflow_perms_job_level_write_all_fails() {
    let mut c = ctx(BranchProtectionState::Unprotected, WorkflowTokenState::Read);
    c.workflows = bw(vec![wf(
        "ci.yml",
        "on: push\npermissions:\n  contents: read\njobs:\n  a:\n    permissions: write-all\n    steps:\n      - run: echo\n",
    )]);
    let o = workflow_perms::repo_check(&c);
    assert_eq!(o.status, Status::Fail);
    assert!(
        o.items
            .iter()
            .any(|i| i.to_ascii_lowercase().contains("job `a`")
                && i.to_ascii_lowercase().contains("write-all"))
    );
}

#[test]
fn workflow_perms_job_level_scoped_write_fails() {
    let mut c = ctx(BranchProtectionState::Unprotected, WorkflowTokenState::Read);
    c.workflows = bw(vec![wf(
        "ci.yml",
        "on: push\npermissions:\n  contents: read\njobs:\n  release:\n    permissions:\n      contents: write\n      issues: read\n    steps:\n      - run: echo\n",
    )]);
    let o = workflow_perms::repo_check(&c);
    assert_eq!(o.status, Status::Fail);
    assert!(
        o.items
            .iter()
            .any(|i| i.to_ascii_lowercase().contains("job `release`")
                && i.to_ascii_lowercase().contains("contents"))
    );
}

#[test]
fn workflow_perms_job_level_read_only_passes() {
    let mut c = ctx(BranchProtectionState::Unprotected, WorkflowTokenState::Read);
    c.workflows = bw(vec![wf(
        "ci.yml",
        "on: push\npermissions:\n  contents: read\njobs:\n  a:\n    permissions:\n      contents: read\n    steps:\n      - run: echo\n",
    )]);
    assert_eq!(workflow_perms::repo_check(&c).status, Status::Pass);
}

#[test]
fn workflow_perms_deploy_pages_job_with_required_writes_passes() {
    let mut c = ctx(BranchProtectionState::Unprotected, WorkflowTokenState::Read);
    c.workflows = bw(vec![wf(
        "deploy.yml",
        "on: push\npermissions:\n  contents: read\njobs:\n  deploy:\n    permissions:\n      pages: write\n      id-token: write\n    steps:\n      - uses: actions/deploy-pages@0000000000000000000000000000000000000000\n",
    )]);
    assert_eq!(workflow_perms::repo_check(&c).status, Status::Pass);
}

#[test]
fn workflow_perms_deploy_pages_job_with_extra_writes_fails() {
    let mut c = ctx(BranchProtectionState::Unprotected, WorkflowTokenState::Read);
    c.workflows = bw(vec![wf(
        "deploy.yml",
        "on: push\npermissions:\n  contents: read\njobs:\n  deploy:\n    permissions:\n      pages: write\n      id-token: write\n      contents: write\n    steps:\n      - uses: actions/deploy-pages@ffffffffffffffffffffffffffffffffffffffff\n",
    )]);
    let o = workflow_perms::repo_check(&c);
    assert_eq!(o.status, Status::Fail);
    assert!(o.items.iter().any(|i| i.contains("contents")));
}

#[test]
fn workflow_perms_deploy_pages_job_top_level_write_still_fails() {
    let mut c = ctx(BranchProtectionState::Unprotected, WorkflowTokenState::Read);
    c.workflows = bw(vec![wf(
        "deploy.yml",
        "on: push\npermissions:\n  contents: write\njobs:\n  deploy:\n    permissions:\n      pages: write\n      id-token: write\n    steps:\n      - uses: actions/deploy-pages@1111111111111111111111111111111111111111\n",
    )]);
    let o = workflow_perms::repo_check(&c);
    assert_eq!(o.status, Status::Fail);
    assert!(o.items.iter().any(|i| i.contains("contents")));
}

#[test]
fn workflow_perms_deploy_pages_full_user_workflow_passes() {
    let mut c = ctx(BranchProtectionState::Unprotected, WorkflowTokenState::Read);
    c.workflows = bw(vec![wf(
        "deploy.yml",
        r#"on:
  push:
    branches: ["main"]
  workflow_dispatch:
permissions:
  contents: read
jobs:
  build:
    runs-on: ubuntu-latest
    steps:
      - uses: actions/checkout@aaaaaaaaaaaaaaaaaaaaaaaaaaaaaaaaaaaaaaaa
      - run: echo build
  deploy:
    environment:
      name: github-pages
      url: ${{ steps.deployment.outputs.page_url }}
    runs-on: ubuntu-latest
    needs: build
    permissions:
      contents: read
      pages: write
      id-token: write
    steps:
      - name: Deploy to GitHub Pages
        id: deployment
        uses: actions/deploy-pages@bbbbbbbbbbbbbbbbbbbbbbbbbbbbbbbbbbbbbbbb
"#,
    )]);
    assert_eq!(workflow_perms::repo_check(&c).status, Status::Pass);
}

#[test]
fn workflow_perms_deploy_pages_job_without_action_still_fails() {
    let mut c = ctx(BranchProtectionState::Unprotected, WorkflowTokenState::Read);
    c.workflows = bw(vec![wf(
        "deploy.yml",
        "on: push\npermissions:\n  contents: read\njobs:\n  deploy:\n    permissions:\n      pages: write\n    steps:\n      - run: echo\n",
    )]);
    let o = workflow_perms::repo_check(&c);
    assert_eq!(o.status, Status::Fail);
    assert!(o.items.iter().any(|i| i.contains("pages")));
}

#[test]
fn workflow_perms_custom_known_action_from_config_passes() {
    let config = parse_config(
        r#"
            [workflow_permissions]
            "my-org/custom-deploy" = ["deployments"]
        "#,
        &[],
    )
    .ok()
    .unwrap();
    let mut c = ctx(BranchProtectionState::Unprotected, WorkflowTokenState::Read);
    c.config = config;
    c.workflows = bw(vec![wf(
        "deploy.yml",
        "on: push\npermissions:\n  contents: read\njobs:\n  deploy:\n    permissions:\n      deployments: write\n    steps:\n      - uses: my-org/custom-deploy@v1\n",
    )]);
    assert_eq!(workflow_perms::repo_check(&c).status, Status::Pass);
}

#[test]
fn active_repos_leave_out_archived() {
    let mut archived = ctx(
        BranchProtectionState::Unprotected,
        WorkflowTokenState::Read,
    );
    archived.archived = true;
    let live = ctx(BranchProtectionState::Unprotected, WorkflowTokenState::Read);
    let live2 = ctx(BranchProtectionState::Unprotected, WorkflowTokenState::Read);
    assert_eq!(active_repo_count(&[]), 0);
    assert_eq!(active_repo_count(&[archived, live, live2]), 2);
}
