//! Repositories enforce SHA pinning of workflow actions at run time.
use vstd::prelude::*;

use crate::checks::common::{count_repos, decimal_slash, repos_noun, repos_word};
use crate::checks::repo_context::{RepoContext, SHAPinningState};
use crate::checks::StateCtx;
use crate::support::outcome::{failed, passed, skipped_empty, skipped_plan, CheckOutcome, OutcomeView};
use crate::text::decimal_string;

verus! {

pub const LABEL: &'static str = "Repositories enforce workflow actions SHA pinning";

pub const HOW_TO_FIX: &'static str = "https://github.com/organizations/{org}/settings/actions > General actions permissions > *Check* -> Require actions to be pinned to a full-length commit SHA > *Click* -> Save";

pub const WHY_ENABLE: &'static str = "Pinning `uses:` refs by hand isn't enough — anyone can later reintroduce a mutable `@v1` tag. The repo-level \"Require actions to be pinned\" setting prevents that: enforcement happens at workflow run time, so a workflow with an unpinned `uses:` ref fails to start until the ref is pinned. Pair it with `repositories_workflow_actions_are_sha_pinned`, which flags the refs that are unpinned today.";

pub fn how_to_fix(_ctx: StateCtx<'_>) -> (s: &'static str)
    ensures
        s == HOW_TO_FIX,
{
    HOW_TO_FIX
}

/// The finding when the repository setting is off.
pub open spec fn not_enforced_line() -> Seq<char> {
    "repo setting \"Require actions to be pinned to a full-length commit SHA\" is OFF — settings → actions → general → Actions permissions"@
}

/// Without workflows there is nothing to enforce; otherwise the setting must be on.
pub open spec fn pinning_outcome(r: &RepoContext) -> OutcomeView {
    if !r.workflows.any_workflows() {
        skipped_empty("N/A (no workflows)"@, "repos, no workflows"@)
    } else {
        match r.sha_pinning {
            SHAPinningState::Enforced => passed("✓"@),
            SHAPinningState::NotEnforced => failed("✗"@, seq![not_enforced_line()]),
            SHAPinningState::PlanGated => skipped_plan("N/A (plan)"@),
        }
    }
}

pub fn repo_check(ctx: &RepoContext) -> (o: CheckOutcome)
    ensures
        o@ == pinning_outcome(ctx),
{
    if !ctx.workflows.has_any_workflows() {
        return CheckOutcome::skipped_no_data("N/A (no workflows)", "repos, no workflows");
    }
    match ctx.sha_pinning {
        SHAPinningState::Enforced => CheckOutcome::pass("✓"),
        SHAPinningState::NotEnforced => {
            let mut items: Vec<String> = Vec::new();
            items.push(
                "repo setting \"Require actions to be pinned to a full-length commit SHA\" is OFF — settings → actions → general → Actions permissions".to_owned(),
            );
            let o = CheckOutcome::fail("✗").with_items(items);
            assert(o@.items =~= seq![not_enforced_line()]);
            o
        },
        SHAPinningState::PlanGated => CheckOutcome::skipped_plan_gated("N/A (plan)"),
    }
}

/// Repositories with workflows whose setting could be read.
pub open spec fn count_applicable(repos: Seq<&RepoContext>) -> nat
    decreases repos.len(),
{
    if repos.len() == 0 {
        0
    } else {
        count_applicable(repos.drop_last()) + if repos.last().workflows.any_workflows()
            && !(repos.last().sha_pinning is PlanGated) {
            1nat
        } else {
            0nat
        }
    }
}

/// Repositories with workflows that do not enforce pinning.
pub open spec fn count_not_enforced(repos: Seq<&RepoContext>) -> nat
    decreases repos.len(),
{
    if repos.len() == 0 {
        0
    } else {
        count_not_enforced(repos.drop_last()) + if repos.last().workflows.any_workflows()
            && repos.last().sha_pinning is NotEnforced {
            1nat
        } else {
            0nat
        }
    }
}

pub open spec fn pinning_description(repos: Seq<&RepoContext>) -> Option<Seq<char>> {
    let applicable = count_applicable(repos);
    let bad = count_not_enforced(repos);
    if applicable == 0 {
        None
    } else if bad == 0 {
        Some("every repository with workflows enforces SHA pinning at the repo level"@)
    } else {
        Some(
            decimal_slash(bad, applicable) + " "@ + repos_noun(applicable)
                + " with workflows don't enforce SHA pinning at the repo level"@,
        )
    }
}

pub fn description(ctx: StateCtx<'_>) -> (r: Option<String>)
    ensures
        crate::checks::common::opt_text(r) == pinning_description(ctx.repos@),
{
    let repos = ctx.repos;
    let mut applicable: usize = 0;
    let mut not_enforced_repos: usize = 0;
    let mut i: usize = 0;
    assert(repos@.take(0) =~= Seq::<&RepoContext>::empty());
    while i < repos.len()
        invariant
            i <= repos@.len(),
            applicable == count_applicable(repos@.take(i as int)),
            not_enforced_repos == count_not_enforced(repos@.take(i as int)),
            not_enforced_repos <= applicable <= i,
        decreases repos@.len() - i,
    {
        let r = repos[i];
        assert(repos@.take(i + 1).drop_last() =~= repos@.take(i as int));
        assert(repos@.take(i + 1).last() == r);
        if r.workflows.has_any_workflows() {
            match r.sha_pinning {
                SHAPinningState::Enforced => {
                    applicable += 1;
                },
                SHAPinningState::NotEnforced => {
                    applicable += 1;
                    not_enforced_repos += 1;
                },
                SHAPinningState::PlanGated => {},
            }
        }
        i += 1;
    }
    assert(repos@.take(repos@.len() as int) =~= repos@);
    if applicable == 0 {
        return None;
    }
    if not_enforced_repos == 0 {
        Some("every repository with workflows enforces SHA pinning at the repo level".to_owned())
    } else {
        let mut s = decimal_string(not_enforced_repos);
        s.append("/");
        s.append(decimal_string(applicable).as_str());
        s.append(" ");
        s.append(repos_word(applicable));
        s.append(" with workflows don't enforce SHA pinning at the repo level");
        Some(s)
    }
}

} // verus!
