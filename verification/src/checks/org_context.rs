//! What the organization-level checks read about an organization.
use vstd::prelude::*;

verus! {

/// The organization's members that have not enabled two-factor authentication.
pub struct OrgContext {
    pub members_without_2fa: Vec<String>,
}

/// Which fork pull requests need a maintainer's approval before their
/// workflows run.
#[derive(Clone, Copy, Debug, PartialEq, Eq, Structural)]
pub enum ForkPrContributorApprovalState {
    AllExternalContributors,
    FirstTimeContributors,
    FirstTimeContributorsNewToGithub,
    Other,
    PlanGated,
}

} // verus!
