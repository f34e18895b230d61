//! The checks Moat runs, and what they are evaluated against.
use vstd::prelude::*;

pub mod common;
pub mod org_context;
pub mod organization_members_all_have_two_factor;
pub mod repo_context;
pub mod repositories_enforce_workflow_actions_sha_pinning;
pub mod repositories_workflow_actions_are_sha_pinned;
pub mod repositories_workflow_permissions_are_restricted;

pub use org_context::OrgContext;
pub use repo_context::RepoContext;

use crate::config::strs_view;

verus! {

/// Whether a check evaluates the organization, its repositories, or both.
#[derive(Clone, Copy, PartialEq, Eq, Debug, Structural)]
pub enum Scope {
    Org,
    Repo,
    OrgAndRepo,
}

impl Scope {
    /// The scope of a check from which evaluators it has; a check has at
    /// least one.
    pub fn of(has_org_eval: bool, has_repo_eval: bool) -> (s: Scope)
        requires
            has_org_eval || has_repo_eval,
        ensures
            s == (if has_org_eval && has_repo_eval {
                Scope::OrgAndRepo
            } else if has_org_eval {
                Scope::Org
            } else {
                Scope::Repo
            }),
    {
        if has_org_eval && has_repo_eval {
            Scope::OrgAndRepo
        } else if has_org_eval {
            Scope::Org
        } else {
            Scope::Repo
        }
    }
}

/// What a check's description is computed from: the organization (when the
/// account is one) and the audited repositories.
pub struct StateCtx<'a> {
    pub org: Option<&'a OrgContext>,
    pub repos: &'a [&'a RepoContext],
}

/// The applicability filter of the checks that only make sense for public
/// repositories.
pub fn public_only(r: &RepoContext) -> (b: bool)
    ensures
        b == !r.private,
{
    !r.private
}

/// The ids of all checks, in the order they are run and reported. The
/// pinned-actions check is `repositories_workflow_actions_are_pinned`; its
/// former id `repositories_workflow_actions_are_sha_pinned` is accepted in
/// `moat.toml` as the same check (`config::canonical_id`).
pub open spec fn check_ids() -> Seq<Seq<char>> {
    seq![
        "organization_requires_two_factor"@,
        "organization_members_all_have_two_factor"@,
        "organization_new_members_default_to_no_permissions"@,
        "repositories_actions_workflow_token_is_read_only"@,
        "repositories_secret_scanning_is_enabled"@,
        "repositories_secret_push_protection_is_enabled"@,
        "repositories_dependabot_alerts_are_enabled"@,
        "repositories_dependabot_security_updates_are_enabled"@,
        "repositories_releases_are_immutable"@,
        "repositories_fork_pull_requests_require_approval"@,
        "repositories_commits_are_signed"@,
        "repositories_pull_requests_require_reviews"@,
        "repositories_release_branches_are_locked"@,
        "repositories_release_branches_have_linear_history"@,
        "repositories_webhooks_are_secure"@,
        "repositories_have_no_direct_collaborators"@,
        "repositories_private_vulnerability_reporting_is_enabled"@,
        "repositories_have_security_policy"@,
        "repositories_workflow_actions_are_pinned"@,
        "repositories_enforce_workflow_actions_sha_pinning"@,
        "repositories_pull_request_target_is_safe"@,
        "repositories_workflow_permissions_are_restricted"@,
        "repositories_have_dependabot_config"@,
    ]
}

pub fn known_check_ids() -> (ids: Vec<&'static str>)
    ensures
        strs_view(ids@) == check_ids(),
{
    let mut ids: Vec<&'static str> = Vec::new();
    ids.push("organization_requires_two_factor");
    ids.push("organization_members_all_have_two_factor");
    ids.push("organization_new_members_default_to_no_permissions");
    ids.push("repositories_actions_workflow_token_is_read_only");
    ids.push("repositories_secret_scanning_is_enabled");
    ids.push("repositories_secret_push_protection_is_enabled");
    ids.push("repositories_dependabot_alerts_are_enabled");
    ids.push("repositories_dependabot_security_updates_are_enabled");
    ids.push("repositories_releases_are_immutable");
    ids.push("repositories_fork_pull_requests_require_approval");
    ids.push("repositories_commits_are_signed");
    ids.push("repositories_pull_requests_require_reviews");
    ids.push("repositories_release_branches_are_locked");
    ids.push("repositories_release_branches_have_linear_history");
    ids.push("repositories_webhooks_are_secure");
    ids.push("repositories_have_no_direct_collaborators");
    ids.push("repositories_private_vulnerability_reporting_is_enabled");
    ids.push("repositories_have_security_policy");
    ids.push("repositories_workflow_actions_are_pinned");
    ids.push("repositories_enforce_workflow_actions_sha_pinning");
    ids.push("repositories_pull_request_target_is_safe");
    ids.push("repositories_workflow_permissions_are_restricted");
    ids.push("repositories_have_dependabot_config");
    assert(strs_view(ids@) =~= check_ids());
    ids
}

/// Every id of the checks is accepted in `moat.toml`, and the
/// pinned-actions check is accepted under its documented id and its former
/// one alike.
pub proof fn check_ids_are_known(id: Seq<char>)
    ensures
        check_ids().contains(id) ==> crate::config::names_known(id, check_ids()),
        crate::config::names_known("repositories_workflow_actions_are_pinned"@, check_ids()),
        crate::config::names_known("repositories_workflow_actions_are_sha_pinned"@, check_ids()),
{
    if check_ids().contains(id) {
        let k = choose|k: int| 0 <= k < check_ids().len() && check_ids()[k] == id;
        assert(crate::config::canonical_id(check_ids()[k]) == crate::config::canonical_id(id));
    }
    reveal_strlit("repositories_workflow_actions_are_sha_pinned");
    reveal_strlit("repositories_workflow_actions_are_pinned");
    assert(check_ids()[18] == "repositories_workflow_actions_are_pinned"@);
    assert(crate::config::canonical_id(check_ids()[18]) == "repositories_workflow_actions_are_pinned"@) by {
        assert("repositories_workflow_actions_are_pinned"@.len() != "repositories_workflow_actions_are_sha_pinned"@.len());
    }
}

/// One of the checks, in the order they are run and reported.
#[derive(Clone, Copy, Debug, PartialEq, Eq, Structural)]
pub enum CheckId {
    OrganizationRequiresTwoFactor,
    OrganizationMembersAllHaveTwoFactor,
    OrganizationNewMembersDefaultToNoPermissions,
    RepositoriesActionsWorkflowTokenIsReadOnly,
    RepositoriesSecretScanningIsEnabled,
    RepositoriesSecretPushProtectionIsEnabled,
    RepositoriesDependabotAlertsAreEnabled,
    RepositoriesDependabotSecurityUpdatesAreEnabled,
    RepositoriesReleasesAreImmutable,
    RepositoriesForkPullRequestsRequireApproval,
    RepositoriesCommitsAreSigned,
    RepositoriesPullRequestsRequireReviews,
    RepositoriesReleaseBranchesAreLocked,
    RepositoriesReleaseBranchesHaveLinearHistory,
    RepositoriesWebhooksAreSecure,
    RepositoriesHaveNoDirectCollaborators,
    RepositoriesPrivateVulnerabilityReportingIsEnabled,
    RepositoriesHaveSecurityPolicy,
    RepositoriesWorkflowActionsArePinned,
    RepositoriesEnforceWorkflowActionsShaPinning,
    RepositoriesPullRequestTargetIsSafe,
    RepositoriesWorkflowPermissionsAreRestricted,
    RepositoriesHaveDependabotConfig,
}

/// What is fixed about a check besides its evaluation: its id, whether it
/// evaluates the organization and/or its repositories, whether it applies to
/// public repositories only, whether it is skipped for accounts that are not
/// organizations, whether it reads org-level rulesets (which the Free plan
/// saves but does not enforce), and the path appended to a repository's URL
/// in its listing of affected repositories (`{branch}` standing for the
/// default branch).
pub struct CheckFacts {
    pub id: &'static str,
    pub has_org_eval: bool,
    pub has_repo_eval: bool,
    pub public_only: bool,
    pub org_only: bool,
    pub ruleset_based: bool,
    pub repo_link_path: Option<&'static str>,
}

/// `CheckFacts` with its strings as character sequences.
pub struct CheckFactsView {
    pub id: Seq<char>,
    pub has_org_eval: bool,
    pub has_repo_eval: bool,
    pub public_only: bool,
    pub org_only: bool,
    pub ruleset_based: bool,
    pub repo_link_path: Option<Seq<char>>,
}

pub open spec fn facts_view(f: CheckFacts) -> CheckFactsView {
    CheckFactsView {
        id: f.id@,
        has_org_eval: f.has_org_eval,
        has_repo_eval: f.has_repo_eval,
        public_only: f.public_only,
        org_only: f.org_only,
        ruleset_based: f.ruleset_based,
        repo_link_path: match f.repo_link_path {
            Some(p) => Some(p@),
            None => None,
        },
    }
}

/// The facts of each check.
pub open spec fn check_facts(c: CheckId) -> CheckFactsView {
    match c {
        CheckId::OrganizationRequiresTwoFactor => CheckFactsView {
            id: "organization_requires_two_factor"@,
            has_org_eval: true,
            has_repo_eval: false,
            public_only: false,
            org_only: false,
            ruleset_based: false,
            repo_link_path: None,
        },
        CheckId::OrganizationMembersAllHaveTwoFactor => CheckFactsView {
            id: "organization_members_all_have_two_factor"@,
            has_org_eval: true,
            has_repo_eval: false,
            public_only: false,
            org_only: false,
            ruleset_based: false,
            repo_link_path: None,
        },
        CheckId::OrganizationNewMembersDefaultToNoPermissions => CheckFactsView {
            id: "organization_new_members_default_to_no_permissions"@,
            has_org_eval: true,
            has_repo_eval: false,
            public_only: false,
            org_only: false,
            ruleset_based: false,
            repo_link_path: None,
        },
        CheckId::RepositoriesActionsWorkflowTokenIsReadOnly => CheckFactsView {
            id: "repositories_actions_workflow_token_is_read_only"@,
            has_org_eval: true,
            has_repo_eval: true,
            public_only: false,
            org_only: false,
            ruleset_based: false,
            repo_link_path: None,
        },
        CheckId::RepositoriesSecretScanningIsEnabled => CheckFactsView {
            id: "repositories_secret_scanning_is_enabled"@,
            has_org_eval: true,
            has_repo_eval: true,
            public_only: false,
            org_only: false,
            ruleset_based: false,
            repo_link_path: None,
        },
        CheckId::RepositoriesSecretPushProtectionIsEnabled => CheckFactsView {
            id: "repositories_secret_push_protection_is_enabled"@,
            has_org_eval: true,
            has_repo_eval: true,
            public_only: false,
            org_only: false,
            ruleset_based: false,
            repo_link_path: None,
        },
        CheckId::RepositoriesDependabotAlertsAreEnabled => CheckFactsView {
            id: "repositories_dependabot_alerts_are_enabled"@,
            has_org_eval: true,
            has_repo_eval: true,
            public_only: false,
            org_only: false,
            ruleset_based: false,
            repo_link_path: None,
        },
        CheckId::RepositoriesDependabotSecurityUpdatesAreEnabled => CheckFactsView {
            id: "repositories_dependabot_security_updates_are_enabled"@,
            has_org_eval: true,
            has_repo_eval: true,
            public_only: false,
            org_only: false,
            ruleset_based: false,
            repo_link_path: None,
        },
        CheckId::RepositoriesReleasesAreImmutable => CheckFactsView {
            id: "repositories_releases_are_immutable"@,
            has_org_eval: true,
            has_repo_eval: true,
            public_only: false,
            org_only: false,
            ruleset_based: false,
            repo_link_path: None,
        },
        CheckId::RepositoriesForkPullRequestsRequireApproval => CheckFactsView {
            id: "repositories_fork_pull_requests_require_approval"@,
            has_org_eval: true,
            has_repo_eval: true,
            public_only: true,
            org_only: false,
            ruleset_based: false,
            repo_link_path: Some("/settings/actions"@),
        },
        CheckId::RepositoriesCommitsAreSigned => CheckFactsView {
            id: "repositories_commits_are_signed"@,
            has_org_eval: true,
            has_repo_eval: true,
            public_only: false,
            org_only: false,
            ruleset_based: true,
            repo_link_path: None,
        },
        CheckId::RepositoriesPullRequestsRequireReviews => CheckFactsView {
            id: "repositories_pull_requests_require_reviews"@,
            has_org_eval: true,
            has_repo_eval: true,
            public_only: false,
            org_only: false,
            ruleset_based: true,
            repo_link_path: None,
        },
        CheckId::RepositoriesReleaseBranchesAreLocked => CheckFactsView {
            id: "repositories_release_branches_are_locked"@,
            has_org_eval: true,
            has_repo_eval: true,
            public_only: false,
            org_only: false,
            ruleset_based: true,
            repo_link_path: None,
        },
        CheckId::RepositoriesReleaseBranchesHaveLinearHistory => CheckFactsView {
            id: "repositories_release_branches_have_linear_history"@,
            has_org_eval: true,
            has_repo_eval: true,
            public_only: false,
            org_only: false,
            ruleset_based: true,
            repo_link_path: None,
        },
        CheckId::RepositoriesWebhooksAreSecure => CheckFactsView {
            id: "repositories_webhooks_are_secure"@,
            has_org_eval: true,
            has_repo_eval: true,
            public_only: false,
            org_only: false,
            ruleset_based: false,
            repo_link_path: None,
        },
        CheckId::RepositoriesHaveNoDirectCollaborators => CheckFactsView {
            id: "repositories_have_no_direct_collaborators"@,
            has_org_eval: true,
            has_repo_eval: true,
            public_only: false,
            org_only: true,
            ruleset_based: false,
            repo_link_path: Some("/settings/access"@),
        },
        CheckId::RepositoriesPrivateVulnerabilityReportingIsEnabled => CheckFactsView {
            id: "repositories_private_vulnerability_reporting_is_enabled"@,
            has_org_eval: true,
            has_repo_eval: true,
            public_only: true,
            org_only: false,
            ruleset_based: false,
            repo_link_path: None,
        },
        CheckId::RepositoriesHaveSecurityPolicy => CheckFactsView {
            id: "repositories_have_security_policy"@,
            has_org_eval: false,
            has_repo_eval: true,
            public_only: true,
            org_only: false,
            ruleset_based: false,
            repo_link_path: Some("/security/policy"@),
        },
        CheckId::RepositoriesWorkflowActionsArePinned => CheckFactsView {
            id: "repositories_workflow_actions_are_pinned"@,
            has_org_eval: false,
            has_repo_eval: true,
            public_only: false,
            org_only: false,
            ruleset_based: false,
            repo_link_path: Some("/tree/{branch}/.github/workflows"@),
        },
        CheckId::RepositoriesEnforceWorkflowActionsShaPinning => CheckFactsView {
            id: "repositories_enforce_workflow_actions_sha_pinning"@,
            has_org_eval: false,
            has_repo_eval: true,
            public_only: false,
            org_only: false,
            ruleset_based: false,
            repo_link_path: Some("/settings/actions"@),
        },
        CheckId::RepositoriesPullRequestTargetIsSafe => CheckFactsView {
            id: "repositories_pull_request_target_is_safe"@,
            has_org_eval: false,
            has_repo_eval: true,
            public_only: true,
            org_only: false,
            ruleset_based: false,
            repo_link_path: Some("/tree/{branch}/.github/workflows"@),
        },
        CheckId::RepositoriesWorkflowPermissionsAreRestricted => CheckFactsView {
            id: "repositories_workflow_permissions_are_restricted"@,
            has_org_eval: false,
            has_repo_eval: true,
            public_only: false,
            org_only: false,
            ruleset_based: false,
            repo_link_path: Some("/tree/{branch}/.github/workflows"@),
        },
        CheckId::RepositoriesHaveDependabotConfig => CheckFactsView {
            id: "repositories_have_dependabot_config"@,
            has_org_eval: false,
            has_repo_eval: true,
            public_only: false,
            org_only: false,
            ruleset_based: false,
            repo_link_path: Some("/new/{branch}?filename=.github%2Fdependabot.yml"@),
        },
    }
}

/// The checks in the order they are run and reported.
pub open spec fn check_order() -> Seq<CheckId> {
    seq![
        CheckId::OrganizationRequiresTwoFactor,
        CheckId::OrganizationMembersAllHaveTwoFactor,
        CheckId::OrganizationNewMembersDefaultToNoPermissions,
        CheckId::RepositoriesActionsWorkflowTokenIsReadOnly,
        CheckId::RepositoriesSecretScanningIsEnabled,
        CheckId::RepositoriesSecretPushProtectionIsEnabled,
        CheckId::RepositoriesDependabotAlertsAreEnabled,
        CheckId::RepositoriesDependabotSecurityUpdatesAreEnabled,
        CheckId::RepositoriesReleasesAreImmutable,
        CheckId::RepositoriesForkPullRequestsRequireApproval,
        CheckId::RepositoriesCommitsAreSigned,
        CheckId::RepositoriesPullRequestsRequireReviews,
        CheckId::RepositoriesReleaseBranchesAreLocked,
        CheckId::RepositoriesReleaseBranchesHaveLinearHistory,
        CheckId::RepositoriesWebhooksAreSecure,
        CheckId::RepositoriesHaveNoDirectCollaborators,
        CheckId::RepositoriesPrivateVulnerabilityReportingIsEnabled,
        CheckId::RepositoriesHaveSecurityPolicy,
        CheckId::RepositoriesWorkflowActionsArePinned,
        CheckId::RepositoriesEnforceWorkflowActionsShaPinning,
        CheckId::RepositoriesPullRequestTargetIsSafe,
        CheckId::RepositoriesWorkflowPermissionsAreRestricted,
        CheckId::RepositoriesHaveDependabotConfig,
    ]
}

impl CheckId {
    pub fn facts(&self) -> (f: CheckFacts)
        ensures
            facts_view(f) == check_facts(*self),
    {
        match self {
            CheckId::OrganizationRequiresTwoFactor => CheckFacts {
                id: "organization_requires_two_factor",
                has_org_eval: true,
                has_repo_eval: false,
                public_only: false,
                org_only: false,
                ruleset_based: false,
                repo_link_path: None,
            },
            CheckId::OrganizationMembersAllHaveTwoFactor => CheckFacts {
                id: "organization_members_all_have_two_factor",
                has_org_eval: true,
                has_repo_eval: false,
                public_only: false,
                org_only: false,
                ruleset_based: false,
                repo_link_path: None,
            },
            CheckId::OrganizationNewMembersDefaultToNoPermissions => CheckFacts {
                id: "organization_new_members_default_to_no_permissions",
                has_org_eval: true,
                has_repo_eval: false,
                public_only: false,
                org_only: false,
                ruleset_based: false,
                repo_link_path: None,
            },
            CheckId::RepositoriesActionsWorkflowTokenIsReadOnly => CheckFacts {
                id: "repositories_actions_workflow_token_is_read_only",
                has_org_eval: true,
                has_repo_eval: true,
                public_only: false,
                org_only: false,
                ruleset_based: false,
                repo_link_path: None,
            },
            CheckId::RepositoriesSecretScanningIsEnabled => CheckFacts {
                id: "repositories_secret_scanning_is_enabled",
                has_org_eval: true,
                has_repo_eval: true,
                public_only: false,
                org_only: false,
                ruleset_based: false,
                repo_link_path: None,
            },
            CheckId::RepositoriesSecretPushProtectionIsEnabled => CheckFacts {
                id: "repositories_secret_push_protection_is_enabled",
                has_org_eval: true,
                has_repo_eval: true,
                public_only: false,
                org_only: false,
                ruleset_based: false,
                repo_link_path: None,
            },
            CheckId::RepositoriesDependabotAlertsAreEnabled => CheckFacts {
                id: "repositories_dependabot_alerts_are_enabled",
                has_org_eval: true,
                has_repo_eval: true,
                public_only: false,
                org_only: false,
                ruleset_based: false,
                repo_link_path: None,
            },
            CheckId::RepositoriesDependabotSecurityUpdatesAreEnabled => CheckFacts {
                id: "repositories_dependabot_security_updates_are_enabled",
                has_org_eval: true,
                has_repo_eval: true,
                public_only: false,
                org_only: false,
                ruleset_based: false,
                repo_link_path: None,
            },
            CheckId::RepositoriesReleasesAreImmutable => CheckFacts {
                id: "repositories_releases_are_immutable",
                has_org_eval: true,
                has_repo_eval: true,
                public_only: false,
                org_only: false,
                ruleset_based: false,
                repo_link_path: None,
            },
            CheckId::RepositoriesForkPullRequestsRequireApproval => CheckFacts {
                id: "repositories_fork_pull_requests_require_approval",
                has_org_eval: true,
                has_repo_eval: true,
                public_only: true,
                org_only: false,
                ruleset_based: false,
                repo_link_path: Some("/settings/actions"),
            },
            CheckId::RepositoriesCommitsAreSigned => CheckFacts {
                id: "repositories_commits_are_signed",
                has_org_eval: true,
                has_repo_eval: true,
                public_only: false,
                org_only: false,
                ruleset_based: true,
                repo_link_path: None,
            },
            CheckId::RepositoriesPullRequestsRequireReviews => CheckFacts {
                id: "repositories_pull_requests_require_reviews",
                has_org_eval: true,
                has_repo_eval: true,
                public_only: false,
                org_only: false,
                ruleset_based: true,
                repo_link_path: None,
            },
            CheckId::RepositoriesReleaseBranchesAreLocked => CheckFacts {
                id: "repositories_release_branches_are_locked",
                has_org_eval: true,
                has_repo_eval: true,
                public_only: false,
                org_only: false,
                ruleset_based: true,
                repo_link_path: None,
            },
            CheckId::RepositoriesReleaseBranchesHaveLinearHistory => CheckFacts {
                id: "repositories_release_branches_have_linear_history",
                has_org_eval: true,
                has_repo_eval: true,
                public_only: false,
                org_only: false,
                ruleset_based: true,
                repo_link_path: None,
            },
            CheckId::RepositoriesWebhooksAreSecure => CheckFacts {
                id: "repositories_webhooks_are_secure",
                has_org_eval: true,
                has_repo_eval: true,
                public_only: false,
                org_only: false,
                ruleset_based: false,
                repo_link_path: None,
            },
            CheckId::RepositoriesHaveNoDirectCollaborators => CheckFacts {
                id: "repositories_have_no_direct_collaborators",
                has_org_eval: true,
                has_repo_eval: true,
                public_only: false,
                org_only: true,
                ruleset_based: false,
                repo_link_path: Some("/settings/access"),
            },
            CheckId::RepositoriesPrivateVulnerabilityReportingIsEnabled => CheckFacts {
                id: "repositories_private_vulnerability_reporting_is_enabled",
                has_org_eval: true,
                has_repo_eval: true,
                public_only: true,
                org_only: false,
                ruleset_based: false,
                repo_link_path: None,
            },
            CheckId::RepositoriesHaveSecurityPolicy => CheckFacts {
                id: "repositories_have_security_policy",
                has_org_eval: false,
                has_repo_eval: true,
                public_only: true,
                org_only: false,
                ruleset_based: false,
                repo_link_path: Some("/security/policy"),
            },
            CheckId::RepositoriesWorkflowActionsArePinned => CheckFacts {
                id: "repositories_workflow_actions_are_pinned",
                has_org_eval: false,
                has_repo_eval: true,
                public_only: false,
                org_only: false,
                ruleset_based: false,
                repo_link_path: Some("/tree/{branch}/.github/workflows"),
            },
            CheckId::RepositoriesEnforceWorkflowActionsShaPinning => CheckFacts {
                id: "repositories_enforce_workflow_actions_sha_pinning",
                has_org_eval: false,
                has_repo_eval: true,
                public_only: false,
                org_only: false,
                ruleset_based: false,
                repo_link_path: Some("/settings/actions"),
            },
            CheckId::RepositoriesPullRequestTargetIsSafe => CheckFacts {
                id: "repositories_pull_request_target_is_safe",
                has_org_eval: false,
                has_repo_eval: true,
                public_only: true,
                org_only: false,
                ruleset_based: false,
                repo_link_path: Some("/tree/{branch}/.github/workflows"),
            },
            CheckId::RepositoriesWorkflowPermissionsAreRestricted => CheckFacts {
                id: "repositories_workflow_permissions_are_restricted",
                has_org_eval: false,
                has_repo_eval: true,
                public_only: false,
                org_only: false,
                ruleset_based: false,
                repo_link_path: Some("/tree/{branch}/.github/workflows"),
            },
            CheckId::RepositoriesHaveDependabotConfig => CheckFacts {
                id: "repositories_have_dependabot_config",
                has_org_eval: false,
                has_repo_eval: true,
                public_only: false,
                org_only: false,
                ruleset_based: false,
                repo_link_path: Some("/new/{branch}?filename=.github%2Fdependabot.yml"),
            },
        }
    }

    /// Whether the check evaluates the organization, its repositories, or both.
    pub fn scope(&self) -> (s: Scope)
        ensures
            s == (if check_facts(*self).has_org_eval && check_facts(*self).has_repo_eval {
                Scope::OrgAndRepo
            } else if check_facts(*self).has_org_eval {
                Scope::Org
            } else {
                Scope::Repo
            }),
    {
        let f = self.facts();
        Scope::of(f.has_org_eval, f.has_repo_eval)
    }

    /// The label to use for the applicable-repo subset in summaries.
    pub fn repo_noun(&self) -> (s: &'static str)
        ensures
            s@ == "repositories"@,
    {
        "repositories"
    }

    /// Whether the check is evaluated on repository `r`: checks for public
    /// repositories only skip private ones.
    pub fn applies_to_repo(&self, r: &RepoContext) -> (b: bool)
        ensures
            b == (!check_facts(*self).public_only || !r.private),
    {
        let f = self.facts();
        !f.public_only || public_only(r)
    }
}

/// All checks, in the order they are run and reported.
pub fn all_checks() -> (v: Vec<CheckId>)
    ensures
        v@ == check_order(),
{
    let mut v: Vec<CheckId> = Vec::new();
    v.push(CheckId::OrganizationRequiresTwoFactor);
    v.push(CheckId::OrganizationMembersAllHaveTwoFactor);
    v.push(CheckId::OrganizationNewMembersDefaultToNoPermissions);
    v.push(CheckId::RepositoriesActionsWorkflowTokenIsReadOnly);
    v.push(CheckId::RepositoriesSecretScanningIsEnabled);
    v.push(CheckId::RepositoriesSecretPushProtectionIsEnabled);
    v.push(CheckId::RepositoriesDependabotAlertsAreEnabled);
    v.push(CheckId::RepositoriesDependabotSecurityUpdatesAreEnabled);
    v.push(CheckId::RepositoriesReleasesAreImmutable);
    v.push(CheckId::RepositoriesForkPullRequestsRequireApproval);
    v.push(CheckId::RepositoriesCommitsAreSigned);
    v.push(CheckId::RepositoriesPullRequestsRequireReviews);
    v.push(CheckId::RepositoriesReleaseBranchesAreLocked);
    v.push(CheckId::RepositoriesReleaseBranchesHaveLinearHistory);
    v.push(CheckId::RepositoriesWebhooksAreSecure);
    v.push(CheckId::RepositoriesHaveNoDirectCollaborators);
    v.push(CheckId::RepositoriesPrivateVulnerabilityReportingIsEnabled);
    v.push(CheckId::RepositoriesHaveSecurityPolicy);
    v.push(CheckId::RepositoriesWorkflowActionsArePinned);
    v.push(CheckId::RepositoriesEnforceWorkflowActionsShaPinning);
    v.push(CheckId::RepositoriesPullRequestTargetIsSafe);
    v.push(CheckId::RepositoriesWorkflowPermissionsAreRestricted);
    v.push(CheckId::RepositoriesHaveDependabotConfig);
    assert(v@ =~= check_order());
    v
}

/// Every check has an evaluator, and the ids of the checks, in order, are
/// the known check ids.
pub proof fn checks_have_ids_and_evaluators(i: int)
    requires
        0 <= i < check_order().len(),
    ensures
        check_facts(check_order()[i]).id == check_ids()[i],
        check_facts(check_order()[i]).has_org_eval || check_facts(check_order()[i]).has_repo_eval,
        check_order().len() == check_ids().len(),
{
}

} // verus!
