//! What the repository-level checks read about one repository, and how the
//! per-branch protection settings are combined into one outcome.
use vstd::prelude::*;

use crate::support::outcome::{
    failed, passed, skipped_empty, skipped_plan, CheckOutcome, OutcomeView, Status,
};
use crate::checks::common::{
    permission_error, permission_message, CollaboratorEntry, FeatureState, FilePresence,
    WebhookInfo, WorkflowTokenState,
};
use crate::checks::org_context::ForkPrContributorApprovalState;
use crate::config::{Config, ConfigError, InvalidConfigError};
use crate::support::fetch::{Fetch, Fetch403};
use crate::support::workflows::BranchedWorkflows;
use crate::text::{contains_string, join, join_strings, str_eq, views};

verus! {

#[derive(Clone, Copy, Debug, PartialEq, Eq, Structural)]
pub enum ReleaseImmutabilityRepoState {
    Enabled,
    Disabled,
    PlanGated,
}

#[derive(Clone, Copy, Debug, PartialEq, Eq, Structural)]
pub enum SHAPinningState {
    Enforced,
    NotEnforced,
    PlanGated,
}

/// Everything the repository-level checks read about one repository.
pub struct RepoContext {
    pub name: String,
    pub archived: bool,
    pub private: bool,
    pub default_branch: Option<String>,
    pub branch_protections: BranchProtections,
    pub workflow_token: WorkflowTokenState,
    pub secret_scanning: FeatureState,
    pub push_protection: FeatureState,
    pub dependabot_alerts: FeatureState,
    pub dependabot_security_updates: FeatureState,
    pub private_vulnerability_reporting: FeatureState,
    pub workflows: BranchedWorkflows,
    pub security_md: FilePresence,
    pub dependabot_config: DependabotConfigState,
    pub webhooks: Vec<WebhookInfo>,
    pub direct_collaborators: Vec<String>,
    pub release_immutability: ReleaseImmutabilityRepoState,
    pub fork_pr_contributor_approval: ForkPrContributorApprovalState,
    pub sha_pinning: SHAPinningState,
    pub codeowners: FilePresence,
    pub config: Config,
}

/// Whether the repository has a Dependabot configuration, and whether it
/// keeps GitHub Actions up to date.
pub enum DependabotConfigState {
    Present { github_actions: bool },
    Missing,
}

/// A repository as the repository listing endpoints describe it.
pub struct RepoListing {
    pub name: String,
    pub archived: bool,
    pub fork: bool,
    pub private: bool,
    pub default_branch: Option<String>,
    pub security_and_analysis: Option<SecurityAndAnalysis>,
    pub permissions: Option<RepoPermissions>,
}

pub struct RepoPermissions {
    pub admin: bool,
    pub maintain: bool,
}

pub struct SecurityAndAnalysis {
    pub secret_scanning: Option<FeatureStatus>,
    pub secret_scanning_push_protection: Option<FeatureStatus>,
}

pub struct FeatureStatus {
    pub status: String,
}

/// The protection of one release branch, from classic branch protection and
/// repository rulesets together.
#[derive(Clone, Copy, Debug, PartialEq, Eq, Structural)]
pub enum BranchProtectionState {
    Protected {
        signed_commits: bool,
        pr_reviews: bool,
        pr_dismiss_stale_reviews: bool,
        pr_require_last_push_approval: bool,
        pr_require_code_owner_review: bool,
        enforce_admins: bool,
        required_linear_history: bool,
        allow_force_pushes: bool,
        allow_deletions: bool,
    },
    Unprotected,
    PlanGated,
}

/// The protection of every release branch of a repository, by branch name.
pub struct BranchProtections {
    pub branches: Vec<(String, BranchProtectionState)>,
}

/// The verdict of a per-branch evaluation: pass, fail with reasons, or the
/// branch could not be inspected on this plan.
pub enum BranchEval {
    Pass,
    Fail(Vec<String>),
    PlanGated,
}

/// A `BranchEval` with its reasons as character sequences.
pub enum EvalView {
    Pass,
    Fail(Seq<Seq<char>>),
    PlanGated,
}

pub open spec fn eval_view(e: BranchEval) -> EvalView {
    match e {
        BranchEval::Pass => EvalView::Pass,
        BranchEval::Fail(r) => EvalView::Fail(views(r@)),
        BranchEval::PlanGated => EvalView::PlanGated,
    }
}

pub open spec fn eval_views(es: Seq<BranchEval>) -> Seq<EvalView> {
    es.map_values(|e: BranchEval| eval_view(e))
}

/// The detail lines one failing branch contributes: each reason (prefixed
/// with the branch name when several branches are tracked), or a bare
/// failure mark when there is no reason.
pub open spec fn fail_lines(multi: bool, name: Seq<char>, reasons: Seq<Seq<char>>) -> Seq<Seq<char>> {
    if reasons.len() == 0 {
        seq![
            if multi {
                name + ": ✗"@
            } else {
                "✗"@
            },
        ]
    } else {
        reasons.map_values(
            |r: Seq<char>|
                if multi {
                    name + ": "@ + r
                } else {
                    r
                },
        )
    }
}

/// The detail lines of the first `evals.len()` branches.
pub open spec fn agg_lines(multi: bool, names: Seq<Seq<char>>, evals: Seq<EvalView>) -> Seq<
    Seq<char>,
>
    decreases evals.len(),
{
    if evals.len() == 0 {
        seq![]
    } else {
        agg_lines(multi, names, evals.drop_last()) + match evals.last() {
            EvalView::Fail(reasons) => fail_lines(multi, names[evals.len() - 1], reasons),
            _ => seq![],
        }
    }
}

/// The names of the failing branches among the first `evals.len()`, each once,
/// in order of first failure.
pub open spec fn agg_branches(names: Seq<Seq<char>>, evals: Seq<EvalView>) -> Seq<Seq<char>>
    decreases evals.len(),
{
    if evals.len() == 0 {
        seq![]
    } else {
        let prev = agg_branches(names, evals.drop_last());
        let name = names[evals.len() - 1];
        if evals.last() is Fail && !prev.contains(name) {
            prev.push(name)
        } else {
            prev
        }
    }
}

pub open spec fn any_pass(evals: Seq<EvalView>) -> bool {
    exists|i: int| 0 <= i < evals.len() && #[trigger] evals[i] is Pass
}

pub open spec fn any_gated(evals: Seq<EvalView>) -> bool {
    exists|i: int| 0 <= i < evals.len() && #[trigger] evals[i] is PlanGated
}

/// The outcome of a check over all release branches, given each branch's
/// result. With no branches the check is skipped. Any failure fails it, with
/// the failing branches listed when there are several branches. Otherwise any
/// passing branch passes it; otherwise branches that need a paid plan skip it;
/// otherwise it passes.
pub open spec fn aggregate_outcome(names: Seq<Seq<char>>, evals: Seq<EvalView>) -> OutcomeView {
    if names.len() == 0 {
        skipped_empty("—"@, "repos, no release branches"@)
    } else {
        let multi = names.len() > 1;
        let lines = agg_lines(multi, names, evals);
        if lines.len() > 0 {
            failed(
                if multi {
                    "✗ "@ + join(agg_branches(names, evals), ", "@)
                } else {
                    "✗"@
                },
                lines,
            )
        } else if any_pass(evals) {
            passed("✓"@)
        } else if any_gated(evals) {
            skipped_plan("N/A (plan)"@)
        } else {
            passed("✓"@)
        }
    }
}

/// The verdict for one branch from a flag: set passes, unset fails, and a
/// branch without protection fails unless its plan does not offer it.
pub open spec fn flag_eval(state: BranchProtectionState, pick: Option<bool>) -> EvalView {
    match pick {
        Some(true) => EvalView::Pass,
        Some(false) => EvalView::Fail(seq![]),
        None => match state {
            BranchProtectionState::PlanGated => EvalView::PlanGated,
            _ => EvalView::Fail(seq![]),
        },
    }
}

impl BranchProtections {
    pub open spec fn names(&self) -> Seq<Seq<char>> {
        self.branches@.map_values(|e: (String, BranchProtectionState)| e.0@)
    }

    pub open spec fn states(&self) -> Seq<BranchProtectionState> {
        self.branches@.map_values(|e: (String, BranchProtectionState)| e.1)
    }

    pub fn from_single(name: String, state: BranchProtectionState) -> (b: Self)
        ensures
            b.branches@.len() == 1,
            b.branches@[0].0 == name,
            b.branches@[0].1 == state,
    {
        let mut branches = Vec::new();
        branches.push((name, state));
        BranchProtections { branches }
    }

    pub fn none() -> (b: Self)
        ensures
            b.branches@.len() == 0,
    {
        BranchProtections { branches: Vec::new() }
    }

    pub fn is_empty(&self) -> (b: bool)
        ensures
            b == (self.branches@.len() == 0),
    {
        self.branches.len() == 0
    }

    pub open spec fn some_plan_gated(&self) -> bool {
        exists|i: int|
            0 <= i < self.branches@.len() && #[trigger] self.branches@[i].1 is PlanGated
    }

    pub fn any_plan_gated(&self) -> (b: bool)
        ensures
            b == self.some_plan_gated(),
    {
        let mut i: usize = 0;
        while i < self.branches.len()
            invariant
                i <= self.branches@.len(),
                forall|k: int| 0 <= k < i ==> !(#[trigger] self.branches@[k].1 is PlanGated),
            decreases self.branches@.len() - i,
        {
            if let BranchProtectionState::PlanGated = self.branches[i].1 {
                return true;
            }
            i += 1;
        }
        false
    }

    /// Aggregate a per-branch evaluation across all release branches.
    /// `eval` returns Ok(()) for pass, Err(reasons) for fail (reasons are appended
    /// prefixed with the branch name when more than one branch is tracked).
    pub fn aggregate<F>(&self, eval: F) -> (o: CheckOutcome) where
        F: Fn(&BranchProtectionState) -> BranchEval,

        requires
            forall|s: &BranchProtectionState| eval.requires((s,)),
        ensures
            exists|evals: Seq<BranchEval>|
                {
                    &&& evals.len() == self.branches@.len()
                    &&& forall|i: int|
                        0 <= i < evals.len() ==> eval.ensures(
                            (&self.branches@[i].1,),
                            #[trigger] evals[i],
                        )
                    &&& o@ == aggregate_outcome(self.names(), eval_views(evals))
                },
    {
        if self.is_empty() {
            let o = CheckOutcome::skipped_no_data("—", "repos, no release branches");
            assert(self.names().len() == 0);
            assert(eval_views(Seq::<BranchEval>::empty()) =~= Seq::empty());
            assert(o@ == aggregate_outcome(self.names(), eval_views(Seq::<BranchEval>::empty())));
            return o;
        }
        let ghost names = self.names();
        let multi = self.branches.len() > 1;
        let mut failures: Vec<String> = Vec::new();
        let mut failing_branches: Vec<String> = Vec::new();
        let mut any_plan_gated = false;
        let mut any_passed = false;
        let ghost mut evals: Seq<BranchEval> = Seq::empty();
        let mut i: usize = 0;
        assert(views(failures@) =~= Seq::empty());
        assert(views(failing_branches@) =~= Seq::empty());
        while i < self.branches.len()
            invariant
                i <= self.branches@.len(),
                names == self.names(),
                multi == (self.branches@.len() > 1),
                forall|s: &BranchProtectionState| eval.requires((s,)),
                evals.len() == i,
                forall|k: int|
                    0 <= k < i ==> eval.ensures((&self.branches@[k].1,), #[trigger] evals[k]),
                views(failures@) == agg_lines(multi, names, eval_views(evals)),
                views(failing_branches@) == agg_branches(names, eval_views(evals)),
                any_passed == any_pass(eval_views(evals)),
                any_plan_gated == any_gated(eval_views(evals)),
            decreases self.branches@.len() - i,
        {
            let name = &self.branches[i].0;
            let state = &self.branches[i].1;
            let e = eval(state);
            let ghost prev = evals;
            proof {
                evals = evals.push(e);
                assert(eval_views(evals).drop_last() =~= eval_views(prev));
                assert(eval_views(evals).last() == eval_view(e));
                assert(names[i as int] == name@);
            }
            let ghost lines_before = views(failures@);
            match e {
                BranchEval::Pass => {
                    any_passed = true;
                    assert(eval_views(evals)[i as int] is Pass);
                },
                BranchEval::Fail(reasons) => {
                    if !contains_string(&failing_branches, name) {
                        failing_branches.push(name.clone());
                        assert(views(failing_branches@) =~= agg_branches(names, eval_views(prev)).push(
                            name@,
                        ));
                    }
                    if reasons.len() == 0 {
                        let line = if multi {
                            let mut l = name.clone();
                            l.append(": ✗");
                            l
                        } else {
                            "✗".to_owned()
                        };
                        failures.push(line);
                        assert(views(failures@) =~= lines_before + fail_lines(
                            multi,
                            name@,
                            views(reasons@),
                        ));
                    } else {
                        let mut k: usize = 0;
                        while k < reasons.len()
                            invariant
                                k <= reasons@.len(),
                                reasons@.len() > 0,
                                views(failures@) == lines_before + fail_lines(
                                    multi,
                                    name@,
                                    views(reasons@),
                                ).take(k as int),
                            decreases reasons@.len() - k,
                        {
                            let ghost before = views(failures@);
                            let line = if multi {
                                let mut l = name.clone();
                                l.append(": ");
                                l.append(reasons[k].as_str());
                                l
                            } else {
                                reasons[k].clone()
                            };
                            assert(views(reasons@)[k as int] == reasons@[k as int]@);
                            assert(fail_lines(multi, name@, views(reasons@))[k as int] == line@);
                            failures.push(line);
                            assert(views(failures@) =~= before.push(line@));
                            assert(views(failures@) =~= lines_before + fail_lines(
                                multi,
                                name@,
                                views(reasons@),
                            ).take(k + 1));
                            k += 1;
                        }
                        assert(fail_lines(multi, name@, views(reasons@)).take(
                            reasons@.len() as int,
                        ) =~= fail_lines(multi, name@, views(reasons@)));
                    }
                },
                BranchEval::PlanGated => {
                    any_plan_gated = true;
                    assert(eval_views(evals)[i as int] is PlanGated);
                },
            }
            assert(views(failures@) == agg_lines(multi, names, eval_views(evals)));
            assert(views(failing_branches@) == agg_branches(names, eval_views(evals)));
            assert(any_passed == any_pass(eval_views(evals))) by {
                if any_pass(eval_views(prev)) {
                    let w = choose|j: int| 0 <= j < prev.len() && #[trigger] eval_views(prev)[j] is Pass;
                    assert(eval_views(evals)[w] == eval_views(prev)[w]);
                }
                if any_pass(eval_views(evals)) {
                    let w = choose|j: int| 0 <= j < evals.len() && #[trigger] eval_views(evals)[j] is Pass;
                    if w < i {
                        assert(eval_views(evals)[w] == eval_views(prev)[w]);
                    }
                }
            }
            assert(any_plan_gated == any_gated(eval_views(evals))) by {
                if any_gated(eval_views(prev)) {
                    let w = choose|j: int| 0 <= j < prev.len() && #[trigger] eval_views(prev)[j] is PlanGated;
                    assert(eval_views(evals)[w] == eval_views(prev)[w]);
                }
                if any_gated(eval_views(evals)) {
                    let w = choose|j: int| 0 <= j < evals.len() && #[trigger] eval_views(evals)[j] is PlanGated;
                    if w < i {
                        assert(eval_views(evals)[w] == eval_views(prev)[w]);
                    }
                }
            }
            i += 1;
        }
        let o = if failures.len() > 0 {
            let summary = if multi {
                let mut s = "✗ ".to_owned();
                let joined = join_strings(&failing_branches, ", ");
                s.append(joined.as_str());
                s
            } else {
                "✗".to_owned()
            };
            CheckOutcome::fail(summary.as_str()).with_items(failures)
        } else if any_passed {
            CheckOutcome::pass("✓")
        } else if any_plan_gated {
            CheckOutcome::skipped_plan_gated("N/A (plan)")
        } else {
            CheckOutcome::pass("✓")
        };
        assert(o@ == aggregate_outcome(self.names(), eval_views(evals)));
        o
    }

    /// Aggregate a single boolean flag across release branches. `pick` returns
    /// `Some(true)` to pass, `Some(false)` to fail with no detail, and `None`
    /// when the state isn't `Protected` (the helper supplies the standard
    /// mapping for Unprotected/PlanGated).
    pub fn aggregate_flag<F>(&self, pick: F) -> (o: CheckOutcome) where
        F: Fn(&BranchProtectionState) -> Option<bool>,

        requires
            forall|s: &BranchProtectionState| pick.requires((s,)),
            forall|s: &BranchProtectionState, p: Option<bool>|
                pick.ensures((s,), p) && s is Protected ==> p is Some,
        ensures
            exists|picks: Seq<Option<bool>>|
                {
                    &&& picks.len() == self.branches@.len()
                    &&& forall|i: int|
                        0 <= i < picks.len() ==> pick.ensures(
                            (&self.branches@[i].1,),
                            #[trigger] picks[i],
                        )
                    &&& o@ == aggregate_outcome(self.names(), flag_evals(self.states(), picks))
                },
    {
        let pr = &pick;
        let eval = |state: &BranchProtectionState| -> (e: BranchEval)
            requires
                pr.requires((state,)),
                forall|s: &BranchProtectionState, p: Option<bool>|
                    pr.ensures((s,), p) && s is Protected ==> p is Some,
            ensures
                exists|p: Option<bool>|
                    pr.ensures((state,), p) && eval_view(e) == flag_eval(*state, p),
            {
                let p = pr(state);
                let e = match p {
                    Some(true) => BranchEval::Pass,
                    Some(false) => BranchEval::Fail(Vec::new()),
                    None => match state {
                        BranchProtectionState::PlanGated => BranchEval::PlanGated,
                        _ => BranchEval::Fail(Vec::new()),
                    },
                };
                assert(eval_view(e) == flag_eval(*state, p)) by {
                    if let BranchEval::Fail(r) = e {
                        assert(views(r@) =~= Seq::empty());
                    }
                }
                e
            };
        let o = self.aggregate(eval);
        proof {
            let evals = choose|evals: Seq<BranchEval>|
                {
                    &&& evals.len() == self.branches@.len()
                    &&& forall|i: int|
                        0 <= i < evals.len() ==> eval.ensures(
                            (&self.branches@[i].1,),
                            #[trigger] evals[i],
                        )
                    &&& o@ == aggregate_outcome(self.names(), eval_views(evals))
                };
            let picks = Seq::new(
                evals.len(),
                |i: int|
                    choose|p: Option<bool>|
                        pick.ensures((&self.branches@[i].1,), p) && eval_view(evals[i])
                            == flag_eval(self.branches@[i].1, p),
            );
            assert forall|i: int| 0 <= i < picks.len() implies pick.ensures(
                (&self.branches@[i].1,),
                #[trigger] picks[i],
            ) && eval_view(evals[i]) == flag_eval(self.branches@[i].1, picks[i]) by {
                assert(eval.ensures((&self.branches@[i].1,), evals[i]));
            }
            assert(eval_views(evals) =~= flag_evals(self.states(), picks));
        }
        o
    }
}

/// The verdicts of all branches from their flags.
pub open spec fn flag_evals(states: Seq<BranchProtectionState>, picks: Seq<Option<bool>>) -> Seq<
    EvalView,
> {
    Seq::new(picks.len(), |i: int| flag_eval(states[i], picks[i]))
}


/// `names` with repeats removed, keeping the first occurrence of each.
pub open spec fn dedup(names: Seq<Seq<char>>) -> Seq<Seq<char>>
    decreases names.len(),
{
    if names.len() == 0 {
        seq![]
    } else {
        let prev = dedup(names.drop_last());
        if prev.contains(names.last()) {
            prev
        } else {
            prev.push(names.last())
        }
    }
}

/// The candidate release branches: the default branch first, then the ones
/// `moat.toml` adds.
pub open spec fn release_candidates(default_branch: Option<Seq<char>>, extra: Seq<Seq<char>>) -> Seq<
    Seq<char>,
> {
    match default_branch {
        Some(b) => seq![b] + extra,
        None => extra,
    }
}

pub open spec fn opt_string(o: Option<String>) -> Option<Seq<char>> {
    match o {
        Some(s) => Some(s@),
        None => None,
    }
}

/// The release branches of a repository: its default branch and the extra
/// branches its `moat.toml` names, each once, in that order.
pub fn compute_release_branches(default_branch: &Option<String>, config: &Config) -> (out: Vec<
    String,
>)
    ensures
        views(out@) == dedup(release_candidates(opt_string(*default_branch), config.branches())),
{
    let mut out: Vec<String> = Vec::new();
    let extra = config.release_branches();
    let ghost all = release_candidates(opt_string(*default_branch), config.branches());
    let mut start: usize = 0;
    match default_branch {
        Some(b) => {
            out.push(b.clone());
            start = 1;
            assert(all.take(1) =~= seq![b@]);
            assert(all.take(1).drop_last() =~= Seq::<Seq<char>>::empty());
            assert(dedup(Seq::<Seq<char>>::empty()) =~= Seq::<Seq<char>>::empty());
            assert(!Seq::<Seq<char>>::empty().contains(b@));
            assert(dedup(all.take(1)) =~= seq![b@]);
        },
        None => {
            assert(all.take(0) =~= Seq::<Seq<char>>::empty());
            assert(dedup(all.take(0)) =~= Seq::<Seq<char>>::empty());
        },
    }
    assert(views(out@) =~= dedup(all.take(start as int)));
    let mut i: usize = 0;
    while i < extra.len()
        invariant
            i <= extra@.len(),
            views(extra@) == config.branches(),
            all == release_candidates(opt_string(*default_branch), config.branches()),
            all.len() == start + extra@.len(),
            forall|k: int| 0 <= k < extra@.len() ==> all[start + k] == #[trigger] extra@[k]@,
            views(out@) == dedup(all.take(start + i)),
        decreases extra@.len() - i,
    {
        let ghost before = views(out@);
        assert(all.take(start + i + 1).drop_last() =~= all.take(start + i));
        assert(all.take(start + i + 1).last() == extra@[i as int]@);
        if !contains_string(&out, &extra[i]) {
            out.push(extra[i].clone());
            assert(views(out@) =~= before.push(extra@[i as int]@));
        }
        i += 1;
    }
    assert(all.take(start + extra@.len()) =~= all);
    out
}

/// Every release branch occurs once.
pub proof fn lemma_dedup_distinct(names: Seq<Seq<char>>)
    ensures
        dedup(names).no_duplicates(),
    decreases names.len(),
{
    if names.len() > 0 {
        lemma_dedup_distinct(names.drop_last());
    }
}

/// A name is kept exactly when it was a candidate.
pub proof fn lemma_dedup_keeps(names: Seq<Seq<char>>, x: Seq<char>)
    ensures
        dedup(names).contains(x) <==> names.contains(x),
    decreases names.len(),
{
    if names.len() > 0 {
        lemma_dedup_keeps(names.drop_last(), x);
        let prev = dedup(names.drop_last());
        if names.drop_last().contains(x) {
            let j = choose|j: int| 0 <= j < names.drop_last().len() && names.drop_last()[j] == x;
            assert(names[j] == x);
        }
        if names.contains(x) {
            let j = choose|j: int| 0 <= j < names.len() && names[j] == x;
            if j < names.len() - 1 {
                assert(names.drop_last()[j] == x);
            }
        }
        if !prev.contains(names.last()) {
            assert(prev.push(names.last())[prev.len() as int] == names.last());
            if prev.contains(x) {
                let j = choose|j: int| 0 <= j < prev.len() && prev[j] == x;
                assert(prev.push(names.last())[j] == x);
            }
        }
    }
}

/// The release branches of a repository are its default branch and every
/// branch its `moat.toml` adds, with none audited twice, and the default
/// branch (when there is one) first.
pub proof fn release_branches_are_distinct_and_complete(
    default_branch: Option<Seq<char>>,
    extra: Seq<Seq<char>>,
)
    ensures
        dedup(release_candidates(default_branch, extra)).no_duplicates(),
        forall|x: Seq<char>|
            #[trigger] dedup(release_candidates(default_branch, extra)).contains(x) <==> (
            default_branch == Some(x) || extra.contains(x)),
        default_branch is Some ==> dedup(release_candidates(default_branch, extra))[0]
            == default_branch.unwrap(),
{
    let all = release_candidates(default_branch, extra);
    lemma_dedup_distinct(all);
    assert forall|x: Seq<char>|
        #[trigger] dedup(all).contains(x) <==> (default_branch == Some(x) || extra.contains(x)) by {
        lemma_dedup_keeps(all, x);
        if let Some(b) = default_branch {
            assert(all[0] == b);
            if extra.contains(x) {
                let j = choose|j: int| 0 <= j < extra.len() && extra[j] == x;
                assert(all[j + 1] == x);
            }
            if all.contains(x) {
                let j = choose|j: int| 0 <= j < all.len() && all[j] == x;
                if j > 0 {
                    assert(extra[j - 1] == x);
                }
            }
        }
    }
    if let Some(b) = default_branch {
        lemma_dedup_first(all);
    }
}

proof fn lemma_dedup_first(names: Seq<Seq<char>>)
    requires
        names.len() > 0,
    ensures
        dedup(names).len() > 0,
        dedup(names)[0] == names[0],
    decreases names.len(),
{
    if names.len() > 1 {
        lemma_dedup_first(names.drop_last());
        assert(names.drop_last()[0] == names[0]);
    } else {
        assert(names.drop_last() =~= Seq::<Seq<char>>::empty());
        assert(dedup(names.drop_last()) =~= Seq::<Seq<char>>::empty());
    }
}

/// Which `security_and_analysis` feature to read.
pub enum SecurityFeature {
    SecretScanning,
    PushProtection,
}

pub open spec fn feature_status(sa: SecurityAndAnalysis, feature: SecurityFeature) -> Option<
    Seq<char>,
> {
    match feature {
        SecurityFeature::SecretScanning => match sa.secret_scanning {
            Some(f) => Some(f.status@),
            None => None,
        },
        SecurityFeature::PushProtection => match sa.secret_scanning_push_protection {
            Some(f) => Some(f.status@),
            None => None,
        },
    }
}

/// The state of a secret-scanning feature from the repository listing:
/// `enabled` is on; anything else is off, or not offered when the plan does
/// not offer the feature; a missing report is a permission error unless the
/// plan does not offer the feature.
pub open spec fn picked_feature(
    repo: RepoListing,
    feature: SecurityFeature,
    plan_gated: bool,
    resource: Seq<char>,
    org: Seq<char>,
) -> Result<FeatureState, Seq<char>> {
    let missing = if plan_gated {
        Ok(FeatureState::PlanGated)
    } else {
        Err(permission_message(resource, org, Some(repo.name@)))
    };
    match repo.security_and_analysis {
        None => missing,
        Some(sa) => match feature_status(sa, feature) {
            Some(status) => if status == "enabled"@ {
                Ok(FeatureState::Enabled)
            } else if plan_gated {
                Ok(FeatureState::PlanGated)
            } else {
                Ok(FeatureState::Disabled)
            },
            None => missing,
        },
    }
}

pub fn pick_feature(
    repo: &RepoListing,
    feature: SecurityFeature,
    plan_gated: bool,
    resource: &str,
    org: &str,
) -> (r: Result<FeatureState, String>)
    ensures
        match r {
            Ok(s) => picked_feature(*repo, feature, plan_gated, resource@, org@) == Ok::<
                FeatureState,
                Seq<char>,
            >(s),
            Err(m) => picked_feature(*repo, feature, plan_gated, resource@, org@) == Err::<
                FeatureState,
                Seq<char>,
            >(m@),
        },
{
    let status = match &repo.security_and_analysis {
        None => None,
        Some(sa) => match feature {
            SecurityFeature::SecretScanning => match &sa.secret_scanning {
                Some(f) => Some(&f.status),
                None => None,
            },
            SecurityFeature::PushProtection => match &sa.secret_scanning_push_protection {
                Some(f) => Some(&f.status),
                None => None,
            },
        },
    };
    match status {
        Some(st) => {
            if str_eq(st.as_str(), "enabled") {
                Ok(FeatureState::Enabled)
            } else if plan_gated {
                Ok(FeatureState::PlanGated)
            } else {
                Ok(FeatureState::Disabled)
            }
        },
        None => {
            if plan_gated {
                Ok(FeatureState::PlanGated)
            } else {
                Err(permission_error(resource, org, Some(repo.name.as_str())))
            }
        },
    }
}

/// A repository without a `SECURITY.md` of its own inherits the owner's
/// default from its `.github` repository, which GitHub serves as its policy.
pub fn inherit_security_md(own: FilePresence, org_default: FilePresence) -> (r: FilePresence)
    ensures
        r == (if own == FilePresence::Present {
            FilePresence::Present
        } else {
            org_default
        }),
{
    match own {
        FilePresence::Present => FilePresence::Present,
        FilePresence::Absent => org_default,
    }
}

/// The logins of the direct collaborators that count: all of them on a
/// private repository, only those with more than read access on a public one.
pub open spec fn counted_collaborators(entries: Seq<CollaboratorEntry>, private: bool) -> Seq<
    Seq<char>,
>
    decreases entries.len(),
{
    if entries.len() == 0 {
        seq![]
    } else {
        counted_collaborators(entries.drop_last(), private) + if private
            || entries.last().permissions.more_than_read() {
            seq![entries.last().login@]
        } else {
            seq![]
        }
    }
}

pub fn direct_collaborator_logins(entries: Vec<CollaboratorEntry>, private: bool) -> (out: Vec<
    String,
>)
    ensures
        views(out@) == counted_collaborators(entries@, private),
{
    let mut out: Vec<String> = Vec::new();
    let mut i: usize = 0;
    assert(entries@.take(0) =~= Seq::<CollaboratorEntry>::empty());
    assert(views(out@) =~= Seq::empty());
    while i < entries.len()
        invariant
            i <= entries@.len(),
            views(out@) == counted_collaborators(entries@.take(i as int), private),
        decreases entries@.len() - i,
    {
        let ghost before = views(out@);
        assert(entries@.take(i + 1).drop_last() =~= entries@.take(i as int));
        if private || entries[i].permissions.is_more_than_read() {
            out.push(entries[i].login.clone());
            assert(views(out@) =~= before.push(entries@[i as int].login@));
        } else {
            assert(views(out@) =~= before + Seq::<Seq<char>>::empty());
        }
        i += 1;
    }
    assert(entries@.take(entries@.len() as int) =~= entries@);
    out
}


/// The parameters of a `pull_request` ruleset rule.
pub struct RulePullRequestParams {
    pub required_approving_review_count: Option<u32>,
    pub dismiss_stale_reviews_on_push: Option<bool>,
    pub require_last_push_approval: Option<bool>,
    pub require_code_owner_review: Option<bool>,
}

/// One rule that applies to a branch through a ruleset.
pub struct RuleEntry {
    pub rule_type: String,
    pub parameters: Option<RulePullRequestParams>,
}

/// What the rulesets that apply to a branch require.
#[derive(Clone, Copy, Debug, PartialEq, Eq, Structural)]
pub struct RulesetFlags {
    pub any: bool,
    pub signed_commits: bool,
    pub pr_reviews: bool,
    pub pr_dismiss_stale_reviews: bool,
    pub pr_require_last_push_approval: bool,
    pub pr_require_code_owner_review: bool,
    pub required_linear_history: bool,
    pub non_fast_forward: bool,
    pub deletion: bool,
}

/// A requirement a `pull_request` rule can make.
pub enum PrRequirement {
    Reviews,
    DismissStale,
    LastPush,
    CodeOwner,
}

pub open spec fn pr_requires(p: Option<RulePullRequestParams>, which: PrRequirement) -> bool {
    match p {
        None => false,
        Some(p) => match which {
            PrRequirement::Reviews => match p.required_approving_review_count {
                Some(n) => n >= 1,
                None => false,
            },
            PrRequirement::DismissStale => p.dismiss_stale_reviews_on_push == Some(true),
            PrRequirement::LastPush => p.require_last_push_approval == Some(true),
            PrRequirement::CodeOwner => p.require_code_owner_review == Some(true),
        },
    }
}

/// Some rule has type `kind`.
pub open spec fn rule_present(entries: Seq<RuleEntry>, kind: Seq<char>) -> bool {
    exists|i: int| 0 <= i < entries.len() && #[trigger] entries[i].rule_type@ == kind
}

/// Some `pull_request` rule makes requirement `which`.
pub open spec fn pr_rule_present(entries: Seq<RuleEntry>, which: PrRequirement) -> bool {
    exists|i: int|
        0 <= i < entries.len() && #[trigger] entries[i].rule_type@ == "pull_request"@
            && pr_requires(entries[i].parameters, which)
}

/// What a list of ruleset rules requires of a branch.
pub open spec fn rules_of(entries: Seq<RuleEntry>) -> RulesetFlags {
    RulesetFlags {
        any: entries.len() > 0,
        signed_commits: rule_present(entries, "required_signatures"@),
        pr_reviews: pr_rule_present(entries, PrRequirement::Reviews),
        pr_dismiss_stale_reviews: pr_rule_present(entries, PrRequirement::DismissStale),
        pr_require_last_push_approval: pr_rule_present(entries, PrRequirement::LastPush),
        pr_require_code_owner_review: pr_rule_present(entries, PrRequirement::CodeOwner),
        required_linear_history: rule_present(entries, "required_linear_history"@),
        non_fast_forward: rule_present(entries, "non_fast_forward"@),
        deletion: rule_present(entries, "deletion"@),
    }
}

proof fn lemma_rule_present_step(entries: Seq<RuleEntry>, i: int, kind: Seq<char>)
    requires
        0 <= i < entries.len(),
    ensures
        rule_present(entries.take(i + 1), kind) == (rule_present(entries.take(i), kind)
            || entries[i].rule_type@ == kind),
{
    if rule_present(entries.take(i + 1), kind) {
        let j = choose|j: int|
            0 <= j < entries.take(i + 1).len() && #[trigger] entries.take(i + 1)[j].rule_type@
                == kind;
        if j < i {
            assert(entries.take(i)[j] == entries[j]);
        }
    }
    if rule_present(entries.take(i), kind) {
        let j = choose|j: int|
            0 <= j < entries.take(i).len() && #[trigger] entries.take(i)[j].rule_type@ == kind;
        assert(entries.take(i + 1)[j] == entries[j]);
    }
    if entries[i].rule_type@ == kind {
        assert(entries.take(i + 1)[i] == entries[i]);
    }
}

proof fn lemma_pr_rule_step(entries: Seq<RuleEntry>, i: int, which: PrRequirement)
    requires
        0 <= i < entries.len(),
    ensures
        pr_rule_present(entries.take(i + 1), which) == (pr_rule_present(entries.take(i), which)
            || (entries[i].rule_type@ == "pull_request"@ && pr_requires(
            entries[i].parameters,
            which,
        ))),
{
    if pr_rule_present(entries.take(i + 1), which) {
        let j = choose|j: int|
            0 <= j < entries.take(i + 1).len() && #[trigger] entries.take(i + 1)[j].rule_type@
                == "pull_request"@ && pr_requires(entries.take(i + 1)[j].parameters, which);
        if j < i {
            assert(entries.take(i)[j] == entries[j]);
        }
    }
    if pr_rule_present(entries.take(i), which) {
        let j = choose|j: int|
            0 <= j < entries.take(i).len() && #[trigger] entries.take(i)[j].rule_type@
                == "pull_request"@ && pr_requires(entries.take(i)[j].parameters, which);
        assert(entries.take(i + 1)[j] == entries[j]);
    }
    if entries[i].rule_type@ == "pull_request"@ && pr_requires(entries[i].parameters, which) {
        assert(entries.take(i + 1)[i] == entries[i]);
    }
}

/// Which of the rule types the checks read `t` is (0 for any other).
fn rule_kind(t: &str) -> (k: u8)
    ensures
        (k == 1) == (t@ == "required_signatures"@),
        (k == 2) == (t@ == "pull_request"@),
        (k == 3) == (t@ == "required_linear_history"@),
        (k == 4) == (t@ == "non_fast_forward"@),
        (k == 5) == (t@ == "deletion"@),
{
    proof {
        reveal_strlit("required_signatures");
        reveal_strlit("pull_request");
        reveal_strlit("required_linear_history");
        reveal_strlit("non_fast_forward");
        reveal_strlit("deletion");
        assert("required_signatures"@.len() == 19);
        assert("pull_request"@.len() == 12);
        assert("required_linear_history"@.len() == 23);
        assert("non_fast_forward"@.len() == 16);
        assert("deletion"@.len() == 8);
    }
    if str_eq(t, "required_signatures") {
        1
    } else if str_eq(t, "pull_request") {
        2
    } else if str_eq(t, "required_linear_history") {
        3
    } else if str_eq(t, "non_fast_forward") {
        4
    } else if str_eq(t, "deletion") {
        5
    } else {
        0
    }
}

fn pr_param(p: &Option<RulePullRequestParams>, which: PrRequirement) -> (b: bool)
    ensures
        b == pr_requires(*p, which),
{
    match p {
        None => false,
        Some(p) => match which {
            PrRequirement::Reviews => match p.required_approving_review_count {
                Some(n) => n >= 1,
                None => false,
            },
            PrRequirement::DismissStale => p.dismiss_stale_reviews_on_push == Some(true),
            PrRequirement::LastPush => p.require_last_push_approval == Some(true),
            PrRequirement::CodeOwner => p.require_code_owner_review == Some(true),
        },
    }
}

/// Combines the rules that apply to a branch into the requirements they make.
pub fn ruleset_flags(entries: &Vec<RuleEntry>) -> (flags: RulesetFlags)
    ensures
        flags == rules_of(entries@),
{
    let mut flags = RulesetFlags {
        any: false,
        signed_commits: false,
        pr_reviews: false,
        pr_dismiss_stale_reviews: false,
        pr_require_last_push_approval: false,
        pr_require_code_owner_review: false,
        required_linear_history: false,
        non_fast_forward: false,
        deletion: false,
    };
    let mut i: usize = 0;
    assert(entries@.take(0) =~= Seq::<RuleEntry>::empty());
    while i < entries.len()
        invariant
            i <= entries@.len(),
            flags == rules_of(entries@.take(i as int)),
        decreases entries@.len() - i,
    {
        let entry = &entries[i];
        let t = entry.rule_type.as_str();
        let kind = rule_kind(t);
        flags.any = true;
        if kind == 1 {
            flags.signed_commits = true;
        }
        if kind == 2 {
            if pr_param(&entry.parameters, PrRequirement::Reviews) {
                flags.pr_reviews = true;
            }
            if pr_param(&entry.parameters, PrRequirement::DismissStale) {
                flags.pr_dismiss_stale_reviews = true;
            }
            if pr_param(&entry.parameters, PrRequirement::LastPush) {
                flags.pr_require_last_push_approval = true;
            }
            if pr_param(&entry.parameters, PrRequirement::CodeOwner) {
                flags.pr_require_code_owner_review = true;
            }
        }
        if kind == 3 {
            flags.required_linear_history = true;
        }
        if kind == 4 {
            flags.non_fast_forward = true;
        }
        if kind == 5 {
            flags.deletion = true;
        }
        proof {
            let e = entries@;
            let k = i as int;
            let nf = rules_of(e.take(k + 1));
            assert(flags.signed_commits == nf.signed_commits) by {
                lemma_rule_present_step(e, k, "required_signatures"@);
            }
            assert(flags.required_linear_history == nf.required_linear_history) by {
                lemma_rule_present_step(e, k, "required_linear_history"@);
            }
            assert(flags.non_fast_forward == nf.non_fast_forward) by {
                lemma_rule_present_step(e, k, "non_fast_forward"@);
            }
            assert(flags.deletion == nf.deletion) by {
                lemma_rule_present_step(e, k, "deletion"@);
            }
            assert(flags.pr_reviews == nf.pr_reviews) by {
                lemma_pr_rule_step(e, k, PrRequirement::Reviews);
            }
            assert(flags.pr_dismiss_stale_reviews == nf.pr_dismiss_stale_reviews) by {
                lemma_pr_rule_step(e, k, PrRequirement::DismissStale);
            }
            assert(flags.pr_require_last_push_approval == nf.pr_require_last_push_approval) by {
                lemma_pr_rule_step(e, k, PrRequirement::LastPush);
            }
            assert(flags.pr_require_code_owner_review == nf.pr_require_code_owner_review) by {
                lemma_pr_rule_step(e, k, PrRequirement::CodeOwner);
            }
        }
        i += 1;
    }
    assert(entries@.take(entries@.len() as int) =~= entries@);
    flags
}

/// The required pull-request reviews of classic branch protection.
pub struct RequiredPullRequestReviews {
    pub required_approving_review_count: Option<u32>,
    pub dismiss_stale_reviews: Option<bool>,
    pub require_code_owner_reviews: Option<bool>,
    pub require_last_push_approval: Option<bool>,
}

/// Classic branch protection; each toggle is its `enabled` value when present.
pub struct BranchProtection {
    pub required_signatures: Option<bool>,
    pub required_pull_request_reviews: Option<RequiredPullRequestReviews>,
    pub enforce_admins: Option<bool>,
    pub required_linear_history: Option<bool>,
    pub allow_force_pushes: Option<bool>,
    pub allow_deletions: Option<bool>,
}

pub open spec fn enabled(flag: Option<bool>) -> bool {
    flag == Some(true)
}

/// Classic protection requires reviews: a review block whose approving count,
/// when given, is at least one.
pub open spec fn classic_reviews(r: Option<RequiredPullRequestReviews>) -> bool {
    match r {
        Some(r) => match r.required_approving_review_count {
            Some(n) => n >= 1,
            None => true,
        },
        None => false,
    }
}

pub open spec fn classic_review_flag(r: Option<RequiredPullRequestReviews>, which: PrRequirement) -> bool {
    match r {
        Some(r) => match which {
            PrRequirement::DismissStale => enabled(r.dismiss_stale_reviews),
            PrRequirement::LastPush => enabled(r.require_last_push_approval),
            PrRequirement::CodeOwner => enabled(r.require_code_owner_reviews),
            PrRequirement::Reviews => classic_reviews(Some(r)),
        },
        None => false,
    }
}

/// The protection of a branch from its classic protection (absent when the
/// endpoint answers 404) and the rulesets that apply to it. A requirement
/// holds if either source makes it; force pushes and deletions are allowed
/// only if classic protection allows them and no rule blocks them. Without
/// classic protection, rulesets alone protect the branch when there is any
/// rule (admins cannot bypass them).
pub open spec fn merged_protection(classic: Option<BranchProtection>, rules: RulesetFlags) -> BranchProtectionState {
    match classic {
        Some(bp) => BranchProtectionState::Protected {
            signed_commits: enabled(bp.required_signatures) || rules.signed_commits,
            pr_reviews: classic_reviews(bp.required_pull_request_reviews) || rules.pr_reviews,
            pr_dismiss_stale_reviews: classic_review_flag(
                bp.required_pull_request_reviews,
                PrRequirement::DismissStale,
            ) || rules.pr_dismiss_stale_reviews,
            pr_require_last_push_approval: classic_review_flag(
                bp.required_pull_request_reviews,
                PrRequirement::LastPush,
            ) || rules.pr_require_last_push_approval,
            pr_require_code_owner_review: classic_review_flag(
                bp.required_pull_request_reviews,
                PrRequirement::CodeOwner,
            ) || rules.pr_require_code_owner_review,
            enforce_admins: enabled(bp.enforce_admins) || rules.any,
            required_linear_history: enabled(bp.required_linear_history)
                || rules.required_linear_history,
            allow_force_pushes: enabled(bp.allow_force_pushes) && !rules.non_fast_forward,
            allow_deletions: enabled(bp.allow_deletions) && !rules.deletion,
        },
        None => if rules.any {
            BranchProtectionState::Protected {
                signed_commits: rules.signed_commits,
                pr_reviews: rules.pr_reviews,
                pr_dismiss_stale_reviews: rules.pr_dismiss_stale_reviews,
                pr_require_last_push_approval: rules.pr_require_last_push_approval,
                pr_require_code_owner_review: rules.pr_require_code_owner_review,
                enforce_admins: true,
                required_linear_history: rules.required_linear_history,
                allow_force_pushes: !rules.non_fast_forward,
                allow_deletions: !rules.deletion,
            }
        } else {
            BranchProtectionState::Unprotected
        },
    }
}

fn is_on(flag: Option<bool>) -> (b: bool)
    ensures
        b == enabled(flag),
{
    match flag {
        Some(b) => b,
        None => false,
    }
}

pub open spec fn owned_protection(classic: Option<&BranchProtection>) -> Option<BranchProtection> {
    match classic {
        Some(bp) => Some(*bp),
        None => None,
    }
}

pub fn protection_state(classic: Option<&BranchProtection>, rules: &RulesetFlags) -> (s: BranchProtectionState)
    ensures
        s == merged_protection(owned_protection(classic), *rules),
{
    match classic {
        Some(bp) => {
            let (reviews, dismiss, last_push, code_owner) = match &bp.required_pull_request_reviews {
                Some(r) => (
                    match r.required_approving_review_count {
                        Some(n) => n >= 1,
                        None => true,
                    },
                    is_on(r.dismiss_stale_reviews),
                    is_on(r.require_last_push_approval),
                    is_on(r.require_code_owner_reviews),
                ),
                None => (false, false, false, false),
            };
            BranchProtectionState::Protected {
                signed_commits: is_on(bp.required_signatures) || rules.signed_commits,
                pr_reviews: reviews || rules.pr_reviews,
                pr_dismiss_stale_reviews: dismiss || rules.pr_dismiss_stale_reviews,
                pr_require_last_push_approval: last_push || rules.pr_require_last_push_approval,
                pr_require_code_owner_review: code_owner || rules.pr_require_code_owner_review,
                enforce_admins: is_on(bp.enforce_admins) || rules.any,
                required_linear_history: is_on(bp.required_linear_history)
                    || rules.required_linear_history,
                allow_force_pushes: is_on(bp.allow_force_pushes) && !rules.non_fast_forward,
                allow_deletions: is_on(bp.allow_deletions) && !rules.deletion,
            }
        },
        None => {
            if rules.any {
                BranchProtectionState::Protected {
                    signed_commits: rules.signed_commits,
                    pr_reviews: rules.pr_reviews,
                    pr_dismiss_stale_reviews: rules.pr_dismiss_stale_reviews,
                    pr_require_last_push_approval: rules.pr_require_last_push_approval,
                    pr_require_code_owner_review: rules.pr_require_code_owner_review,
                    enforce_admins: true,
                    required_linear_history: rules.required_linear_history,
                    allow_force_pushes: !rules.non_fast_forward,
                    allow_deletions: !rules.deletion,
                }
            } else {
                BranchProtectionState::Unprotected
            }
        },
    }
}


/// A result whose error message is taken by its view.
pub open spec fn msg_view<T>(r: Result<T, String>) -> Result<T, Seq<char>> {
    match r {
        Ok(x) => Ok(x),
        Err(m) => Err(m@),
    }
}

/// The default permission of the workflow token, from the repository's
/// `default_workflow_permissions` setting: `read` is read-only, anything else
/// grants write; a setting that cannot be read is a permission error.
pub open spec fn workflow_token_of(fetched: Fetch<String>, org: Seq<char>, repo: Seq<char>) -> Result<
    WorkflowTokenState,
    Seq<char>,
> {
    match fetched {
        Fetch::Found(s) => if s@ == "read"@ {
            Ok(WorkflowTokenState::Read)
        } else {
            Ok(WorkflowTokenState::Write)
        },
        _ => Err(permission_message("workflow token permissions"@, org, Some(repo))),
    }
}

pub fn workflow_token_from(fetched: Fetch<String>, org: &str, repo: &str) -> (r: Result<
    WorkflowTokenState,
    String,
>)
    ensures
        msg_view(r) == workflow_token_of(fetched, org@, repo@),
{
    match fetched {
        Fetch::Found(s) => if str_eq(s.as_str(), "read") {
            Ok(WorkflowTokenState::Read)
        } else {
            Ok(WorkflowTokenState::Write)
        },
        _ => Err(permission_error("workflow token permissions", org, Some(repo))),
    }
}

/// Dependabot alerts from the probe of the repository's alerts endpoint: a
/// 204 is on, a 404 off.
pub open spec fn dependabot_alerts_of(fetched: Fetch403<()>, org: Seq<char>, repo: Seq<char>) -> Result<
    FeatureState,
    Seq<char>,
> {
    match fetched {
        Fetch403::Found(_) => Ok(FeatureState::Enabled),
        Fetch403::NotFound => Ok(FeatureState::Disabled),
        Fetch403::PlanGated => Ok(FeatureState::PlanGated),
        Fetch403::Forbidden => Err(permission_message("dependabot alerts"@, org, Some(repo))),
    }
}

pub fn dependabot_alerts_from(fetched: Fetch403<()>, org: &str, repo: &str) -> (r: Result<
    FeatureState,
    String,
>)
    ensures
        msg_view(r) == dependabot_alerts_of(fetched, org@, repo@),
{
    match fetched {
        Fetch403::Found(_) => Ok(FeatureState::Enabled),
        Fetch403::NotFound => Ok(FeatureState::Disabled),
        Fetch403::PlanGated => Ok(FeatureState::PlanGated),
        Fetch403::Forbidden => Err(permission_error("dependabot alerts", org, Some(repo))),
    }
}

/// A feature read as an `enabled` flag: on when the flag is set, off when it
/// is not or the endpoint does not exist, not offered when the plan lacks
/// it, and a permission error about `resource` when the read is refused.
pub open spec fn flag_feature_of(
    fetched: Fetch403<bool>,
    resource: Seq<char>,
    org: Seq<char>,
    repo: Seq<char>,
) -> Result<FeatureState, Seq<char>> {
    match fetched {
        Fetch403::Found(enabled) => if enabled {
            Ok(FeatureState::Enabled)
        } else {
            Ok(FeatureState::Disabled)
        },
        Fetch403::NotFound => Ok(FeatureState::Disabled),
        Fetch403::PlanGated => Ok(FeatureState::PlanGated),
        Fetch403::Forbidden => Err(permission_message(resource, org, Some(repo))),
    }
}

fn flag_feature_from(fetched: Fetch403<bool>, resource: &str, org: &str, repo: &str) -> (r: Result<
    FeatureState,
    String,
>)
    ensures
        msg_view(r) == flag_feature_of(fetched, resource@, org@, repo@),
{
    match fetched {
        Fetch403::Found(enabled) => if enabled {
            Ok(FeatureState::Enabled)
        } else {
            Ok(FeatureState::Disabled)
        },
        Fetch403::NotFound => Ok(FeatureState::Disabled),
        Fetch403::PlanGated => Ok(FeatureState::PlanGated),
        Fetch403::Forbidden => Err(permission_error(resource, org, Some(repo))),
    }
}

/// Dependabot security updates, from the `enabled` flag of the repository's
/// automated-security-fixes setting.
pub fn dependabot_security_updates_from(fetched: Fetch403<bool>, org: &str, repo: &str) -> (r:
    Result<FeatureState, String>)
    ensures
        msg_view(r) == flag_feature_of(fetched, "dependabot security updates"@, org@, repo@),
{
    flag_feature_from(fetched, "dependabot security updates", org, repo)
}

/// Private vulnerability reporting. Private repositories cannot take private
/// reports, so for them nothing is read (`fetched` is `None`) and the
/// feature counts as not offered; otherwise it is the `enabled` flag read.
pub fn private_vulnerability_reporting_from(
    private: bool,
    fetched: Option<Fetch403<bool>>,
    org: &str,
    repo: &str,
) -> (r: Result<FeatureState, String>)
    requires
        !private ==> fetched is Some,
    ensures
        private ==> r == Ok::<FeatureState, String>(FeatureState::PlanGated),
        !private ==> msg_view(r) == flag_feature_of(
            fetched.unwrap(),
            "private vulnerability reporting"@,
            org@,
            repo@,
        ),
{
    if private {
        return Ok(FeatureState::PlanGated);
    }
    match fetched {
        Some(f) => flag_feature_from(f, "private vulnerability reporting", org, repo),
        None => Ok(FeatureState::PlanGated),
    }
}

/// Release immutability, from the `enabled` flag of the repository's
/// immutable-releases setting; unlike the other flags, a setting that is
/// missing is a permission error too.
pub open spec fn release_immutability_of(fetched: Fetch403<bool>, org: Seq<char>, repo: Seq<char>) -> Result<
    ReleaseImmutabilityRepoState,
    Seq<char>,
> {
    match fetched {
        Fetch403::Found(enabled) => if enabled {
            Ok(ReleaseImmutabilityRepoState::Enabled)
        } else {
            Ok(ReleaseImmutabilityRepoState::Disabled)
        },
        Fetch403::PlanGated => Ok(ReleaseImmutabilityRepoState::PlanGated),
        _ => Err(permission_message("release immutability setting"@, org, Some(repo))),
    }
}

pub fn release_immutability_from(fetched: Fetch403<bool>, org: &str, repo: &str) -> (r: Result<
    ReleaseImmutabilityRepoState,
    String,
>)
    ensures
        msg_view(r) == release_immutability_of(fetched, org@, repo@),
{
    match fetched {
        Fetch403::Found(enabled) => if enabled {
            Ok(ReleaseImmutabilityRepoState::Enabled)
        } else {
            Ok(ReleaseImmutabilityRepoState::Disabled)
        },
        Fetch403::PlanGated => Ok(ReleaseImmutabilityRepoState::PlanGated),
        _ => Err(permission_error("release immutability setting", org, Some(repo))),
    }
}

/// The fork pull-request approval policy from its `approval_policy` value;
/// a policy that cannot be read, or that the response leaves out, is a
/// permission error.
pub open spec fn fork_pr_approval_of(
    fetched: Fetch403<Option<String>>,
    org: Seq<char>,
    repo: Seq<char>,
) -> Result<ForkPrContributorApprovalState, Seq<char>> {
    let denied = Err(permission_message("fork PR contributor approval policy"@, org, Some(repo)));
    match fetched {
        Fetch403::Found(policy) => match policy {
            Some(p) => if p@ == "all_external_contributors"@ {
                Ok(ForkPrContributorApprovalState::AllExternalContributors)
            } else if p@ == "first_time_contributors"@ {
                Ok(ForkPrContributorApprovalState::FirstTimeContributors)
            } else if p@ == "first_time_contributors_new_to_github"@ {
                Ok(ForkPrContributorApprovalState::FirstTimeContributorsNewToGithub)
            } else {
                Ok(ForkPrContributorApprovalState::Other)
            },
            None => denied,
        },
        Fetch403::PlanGated => Ok(ForkPrContributorApprovalState::PlanGated),
        _ => denied,
    }
}

/// The fork pull-request approval policy. It does not apply to private
/// repositories (GitHub answers 422), so for them nothing is read
/// (`fetched` is `None`) and it counts as not offered.
pub fn fork_pr_approval_from(
    private: bool,
    fetched: Option<Fetch403<Option<String>>>,
    org: &str,
    repo: &str,
) -> (r: Result<ForkPrContributorApprovalState, String>)
    requires
        !private ==> fetched is Some,
    ensures
        private ==> r == Ok::<ForkPrContributorApprovalState, String>(
            ForkPrContributorApprovalState::PlanGated,
        ),
        !private ==> msg_view(r) == fork_pr_approval_of(fetched.unwrap(), org@, repo@),
{
    if private {
        return Ok(ForkPrContributorApprovalState::PlanGated);
    }
    let f = match fetched {
        Some(f) => f,
        None => {
            return Ok(ForkPrContributorApprovalState::PlanGated);
        },
    };
    match f {
        Fetch403::Found(policy) => match policy {
            Some(p) => {
                if str_eq(p.as_str(), "all_external_contributors") {
                    Ok(ForkPrContributorApprovalState::AllExternalContributors)
                } else if str_eq(p.as_str(), "first_time_contributors") {
                    Ok(ForkPrContributorApprovalState::FirstTimeContributors)
                } else if str_eq(p.as_str(), "first_time_contributors_new_to_github") {
                    Ok(ForkPrContributorApprovalState::FirstTimeContributorsNewToGithub)
                } else {
                    Ok(ForkPrContributorApprovalState::Other)
                }
            },
            None => Err(permission_error("fork PR contributor approval policy", org, Some(repo))),
        },
        Fetch403::PlanGated => Ok(ForkPrContributorApprovalState::PlanGated),
        _ => Err(permission_error("fork PR contributor approval policy", org, Some(repo))),
    }
}

/// Whether the repository requires actions pinned to a full commit SHA, from
/// the `sha_pinning_required` flag of its actions permissions; a flag that is
/// missing or cannot be read is a permission error.
pub open spec fn sha_pinning_of(fetched: Fetch403<Option<bool>>, org: Seq<char>, repo: Seq<char>) -> Result<
    SHAPinningState,
    Seq<char>,
> {
    let denied = Err(permission_message("actions SHA pinning setting"@, org, Some(repo)));
    match fetched {
        Fetch403::Found(flag) => match flag {
            Some(true) => Ok(SHAPinningState::Enforced),
            Some(false) => Ok(SHAPinningState::NotEnforced),
            None => denied,
        },
        Fetch403::PlanGated => Ok(SHAPinningState::PlanGated),
        _ => denied,
    }
}

pub fn sha_pinning_from(fetched: Fetch403<Option<bool>>, org: &str, repo: &str) -> (r: Result<
    SHAPinningState,
    String,
>)
    ensures
        msg_view(r) == sha_pinning_of(fetched, org@, repo@),
{
    match fetched {
        Fetch403::Found(flag) => match flag {
            Some(true) => Ok(SHAPinningState::Enforced),
            Some(false) => Ok(SHAPinningState::NotEnforced),
            None => Err(permission_error("actions SHA pinning setting", org, Some(repo))),
        },
        Fetch403::PlanGated => Ok(SHAPinningState::PlanGated),
        _ => Err(permission_error("actions SHA pinning setting", org, Some(repo))),
    }
}

/// The settings of a repository from its `moat.toml`: the file as validated
/// when there is one; the defaults when there is none or it cannot be read.
/// An invalid file is an error naming the repository, which stops the run.
pub fn config_from(fetched: Fetch<Result<Config, ConfigError>>, org: &str, repo: &str) -> (r: Result<
    Config,
    InvalidConfigError,
>)
    ensures
        match fetched {
            Fetch::Found(Ok(c)) => r == Ok::<Config, InvalidConfigError>(c),
            Fetch::Found(Err(e)) => r matches Err(err) && err.source == e && err.org_repo@ == org@
                + "/"@ + repo@,
            _ => r matches Ok(c) && c.is_default(),
        },
{
    match fetched {
        Fetch::Found(Ok(c)) => Ok(c),
        Fetch::Found(Err(e)) => {
            let mut org_repo = String::new();
            org_repo.append(org);
            org_repo.append("/");
            org_repo.append(repo);
            Err(InvalidConfigError { org_repo, source: e })
        },
        _ => Ok(Config::default()),
    }
}

/// The `security_and_analysis` block from the repository's detail, when the
/// listing left it out: nothing when the detail cannot be read.
pub fn security_and_analysis_from(fetched: Fetch<Option<SecurityAndAnalysis>>) -> (r: Option<
    SecurityAndAnalysis,
>)
    ensures
        r == match fetched {
            Fetch::Found(sa) => sa,
            _ => None::<SecurityAndAnalysis>,
        },
{
    match fetched {
        Fetch::Found(sa) => sa,
        _ => None,
    }
}

/// Whether the listing left out the `security_and_analysis` block, so that
/// the repository's detail has to be read for it.
pub fn needs_security_and_analysis(repo: &RepoListing) -> (b: bool)
    ensures
        b == repo.security_and_analysis is None,
{
    repo.security_and_analysis.is_none()
}

/// The listing with its `security_and_analysis` block filled from the read
/// of the repository's detail, where the listing had none; a block the
/// listing had is kept and the read is not used.
pub fn with_security_and_analysis(
    repo: RepoListing,
    fetched: Fetch<Option<SecurityAndAnalysis>>,
) -> (r: RepoListing)
    ensures
        r.name == repo.name,
        r.archived == repo.archived,
        r.fork == repo.fork,
        r.private == repo.private,
        r.default_branch == repo.default_branch,
        r.permissions == repo.permissions,
        r.security_and_analysis == match repo.security_and_analysis {
            Some(sa) => Some(sa),
            None => match fetched {
                Fetch::Found(sa) => sa,
                _ => None::<SecurityAndAnalysis>,
            },
        },
{
    let mut repo = repo;
    if repo.security_and_analysis.is_none() {
        repo.security_and_analysis = security_and_analysis_from(fetched);
    }
    repo
}

/// Where a repository's Dependabot configuration may be, in order.
pub fn dependabot_config_paths() -> (paths: Vec<&'static str>)
    ensures
        paths@.len() == 2,
        paths@[0]@ == ".github/dependabot.yml"@,
        paths@[1]@ == ".github/dependabot.yaml"@,
{
    let mut paths: Vec<&'static str> = Vec::new();
    paths.push(".github/dependabot.yml");
    paths.push(".github/dependabot.yaml");
    paths
}

/// The Dependabot configuration from the answers for its candidate paths,
/// probed in order, each found file given as whether it updates GitHub
/// Actions: the first file found decides; a refused read is a permission
/// error; with every path missing there is none.
pub open spec fn dependabot_config_of(probes: Seq<Fetch<bool>>, org: Seq<char>, repo: Seq<char>) -> Result<
    DependabotConfigState,
    Seq<char>,
>
    decreases probes.len(),
{
    if probes.len() == 0 {
        Ok(DependabotConfigState::Missing)
    } else {
        match probes[0] {
            Fetch::Found(github_actions) => Ok(DependabotConfigState::Present { github_actions }),
            Fetch::Forbidden => Err(permission_message("dependabot config"@, org, Some(repo))),
            Fetch::NotFound => dependabot_config_of(probes.drop_first(), org, repo),
        }
    }
}

pub fn dependabot_config_from(probes: &[Fetch<bool>], org: &str, repo: &str) -> (r: Result<
    DependabotConfigState,
    String,
>)
    ensures
        msg_view(r) == dependabot_config_of(probes@, org@, repo@),
{
    let mut i: usize = 0;
    assert(probes@.skip(0) =~= probes@);
    while i < probes.len()
        invariant
            i <= probes@.len(),
            dependabot_config_of(probes@, org@, repo@) == dependabot_config_of(
                probes@.skip(i as int),
                org@,
                repo@,
            ),
        decreases probes@.len() - i,
    {
        let ghost rest = probes@.skip(i as int);
        assert(rest[0] == probes@[i as int]);
        assert(rest.drop_first() =~= probes@.skip(i + 1));
        match &probes[i] {
            Fetch::Found(github_actions) => {
                return Ok(DependabotConfigState::Present { github_actions: *github_actions });
            },
            Fetch::Forbidden => {
                return Err(permission_error("dependabot config", org, Some(repo)));
            },
            Fetch::NotFound => {},
        }
        i += 1;
    }
    assert(probes@.skip(i as int) =~= Seq::<Fetch<bool>>::empty());
    Ok(DependabotConfigState::Missing)
}

/// The direct collaborators that count, from the listing of them; a listing
/// that cannot be read is a permission error.
pub fn direct_collaborators_from(
    fetched: Fetch<Vec<CollaboratorEntry>>,
    private: bool,
    org: &str,
    repo: &str,
) -> (r: Result<Vec<String>, String>)
    ensures
        match fetched {
            Fetch::Found(v) => r matches Ok(names) && views(names@) == counted_collaborators(
                v@,
                private,
            ),
            _ => r matches Err(m) && m@ == permission_message(
                "direct collaborators"@,
                org@,
                Some(repo@),
            ),
        },
{
    match fetched {
        Fetch::Found(v) => Ok(direct_collaborator_logins(v, private)),
        _ => Err(permission_error("direct collaborators", org, Some(repo))),
    }
}

/// `what for `branch``, the resource named in a branch's permission error.
pub open spec fn for_branch(what: Seq<char>, branch: Seq<char>) -> Seq<char> {
    what + " for `"@ + branch + "`"@
}

fn branch_resource(what: &str, branch: &str) -> (s: String)
    ensures
        s@ == for_branch(what@, branch@),
{
    let mut s = String::new();
    s.append(what);
    s.append(" for `");
    s.append(branch);
    s.append("`");
    s
}

/// The rules without any requirement.
pub open spec fn no_rules() -> RulesetFlags {
    RulesetFlags {
        any: false,
        signed_commits: false,
        pr_reviews: false,
        pr_dismiss_stale_reviews: false,
        pr_require_last_push_approval: false,
        pr_require_code_owner_review: false,
        required_linear_history: false,
        non_fast_forward: false,
        deletion: false,
    }
}

/// The ruleset requirements on a branch from the rules read for it; when the
/// plan does not offer rulesets, or there are none, nothing is required.
pub open spec fn branch_rules_of(
    fetched: Fetch403<Vec<RuleEntry>>,
    org: Seq<char>,
    repo: Seq<char>,
    branch: Seq<char>,
) -> Result<RulesetFlags, Seq<char>> {
    match fetched {
        Fetch403::Found(v) => Ok(rules_of(v@)),
        Fetch403::Forbidden => Err(
            permission_message(for_branch("branch rules"@, branch), org, Some(repo)),
        ),
        _ => Ok(no_rules()),
    }
}

pub fn branch_rules_from(fetched: Fetch403<Vec<RuleEntry>>, org: &str, repo: &str, branch: &str) -> (r:
    Result<RulesetFlags, String>)
    ensures
        msg_view(r) == branch_rules_of(fetched, org@, repo@, branch@),
{
    match fetched {
        Fetch403::Found(v) => Ok(ruleset_flags(&v)),
        Fetch403::Forbidden => {
            let what = branch_resource("branch rules", branch);
            Err(permission_error(what.as_str(), org, Some(repo)))
        },
        _ => Ok(
            RulesetFlags {
                any: false,
                signed_commits: false,
                pr_reviews: false,
                pr_dismiss_stale_reviews: false,
                pr_require_last_push_approval: false,
                pr_require_code_owner_review: false,
                required_linear_history: false,
                non_fast_forward: false,
                deletion: false,
            },
        ),
    }
}

/// The protection of a branch from its classic protection as read and the
/// ruleset requirements on it.
pub open spec fn branch_protection_of(
    classic: Fetch403<BranchProtection>,
    rules: RulesetFlags,
    org: Seq<char>,
    repo: Seq<char>,
    branch: Seq<char>,
) -> Result<BranchProtectionState, Seq<char>> {
    match classic {
        Fetch403::Found(bp) => Ok(merged_protection(Some(bp), rules)),
        Fetch403::NotFound => Ok(merged_protection(None, rules)),
        Fetch403::Forbidden => Err(
            permission_message(for_branch("branch protection"@, branch), org, Some(repo)),
        ),
        Fetch403::PlanGated => Ok(BranchProtectionState::PlanGated),
    }
}

pub fn branch_protection_from(
    classic: Fetch403<BranchProtection>,
    rules: &RulesetFlags,
    org: &str,
    repo: &str,
    branch: &str,
) -> (r: Result<BranchProtectionState, String>)
    ensures
        msg_view(r) == branch_protection_of(classic, *rules, org@, repo@, branch@),
{
    match classic {
        Fetch403::Found(bp) => Ok(protection_state(Some(&bp), rules)),
        Fetch403::NotFound => Ok(protection_state(None, rules)),
        Fetch403::Forbidden => {
            let what = branch_resource("branch protection", branch);
            Err(permission_error(what.as_str(), org, Some(repo)))
        },
        Fetch403::PlanGated => Ok(BranchProtectionState::PlanGated),
    }
}

/// The refusal to audit a fork: its settings derive from upstream.
pub open spec fn fork_message(org: Seq<char>, name: Seq<char>) -> Seq<char> {
    "`"@ + org + "/"@ + name + "` is a fork — Moat does not audit forks (their settings inherit from upstream)"@
}

/// Forks are not audited: a listed fork is refused with an error.
pub fn reject_fork(repo: &RepoListing, org: &str) -> (r: Result<(), String>)
    ensures
        repo.fork ==> (r matches Err(m) && m@ == fork_message(org@, repo.name@)),
        !repo.fork ==> r is Ok,
{
    if repo.fork {
        let mut m = String::new();
        m.append("`");
        m.append(org);
        m.append("/");
        m.append(repo.name.as_str());
        m.append("` is a fork — Moat does not audit forks (their settings inherit from upstream)");
        Err(m)
    } else {
        Ok(())
    }
}

/// What is read about a repository besides its listing: the settings its
/// checks need, each already decided from what GitHub answered.
pub struct RepoParts {
    pub config: Config,
    pub branches: Vec<(String, BranchProtectionState)>,
    pub workflow_token: WorkflowTokenState,
    pub dependabot_alerts: FeatureState,
    pub dependabot_security_updates: FeatureState,
    pub private_vulnerability_reporting: FeatureState,
    pub workflows: BranchedWorkflows,
    pub own_security_md: FilePresence,
    pub dependabot_config: DependabotConfigState,
    pub webhooks: Vec<WebhookInfo>,
    pub direct_collaborators: Vec<String>,
    pub release_immutability: ReleaseImmutabilityRepoState,
    pub fork_pr_contributor_approval: ForkPrContributorApprovalState,
    pub sha_pinning: SHAPinningState,
    pub codeowners: FilePresence,
}

/// Whether the branch protection of a private repository shows that its plan
/// lacks protected branches, which then also explains missing secret
/// scanning reports.
pub open spec fn parts_plan_gated(private: bool, branches: Seq<(String, BranchProtectionState)>) -> bool {
    private && exists|i: int| 0 <= i < branches.len() && #[trigger] branches[i].1 is PlanGated
}

impl RepoContext {
    /// The context of one repository from its listing and what was read
    /// about it. Its `SECURITY.md` falls back to the owner's default; the two
    /// secret-scanning features come from the listing (`pick_feature`), and a
    /// permission error from either is the error of the whole.
    pub fn assemble(
        repo: RepoListing,
        org: &str,
        org_default_security_md: FilePresence,
        parts: RepoParts,
    ) -> (r: Result<RepoContext, String>)
        ensures
            ({
                let gated = parts_plan_gated(repo.private, parts.branches@);
                let ss = picked_feature(
                    repo,
                    SecurityFeature::SecretScanning,
                    gated,
                    "secret scanning"@,
                    org@,
                );
                let pp = picked_feature(
                    repo,
                    SecurityFeature::PushProtection,
                    gated,
                    "secret push protection"@,
                    org@,
                );
                match (ss, pp) {
                    (Ok(secret_scanning), Ok(push_protection)) => r matches Ok(c) && {
                        &&& c.name == repo.name
                        &&& c.archived == repo.archived
                        &&& c.private == repo.private
                        &&& c.default_branch == repo.default_branch
                        &&& c.branch_protections.branches == parts.branches
                        &&& c.workflow_token == parts.workflow_token
                        &&& c.secret_scanning == secret_scanning
                        &&& c.push_protection == push_protection
                        &&& c.dependabot_alerts == parts.dependabot_alerts
                        &&& c.dependabot_security_updates == parts.dependabot_security_updates
                        &&& c.private_vulnerability_reporting
                            == parts.private_vulnerability_reporting
                        &&& c.workflows == parts.workflows
                        &&& c.security_md == (if parts.own_security_md == FilePresence::Present {
                            FilePresence::Present
                        } else {
                            org_default_security_md
                        })
                        &&& c.dependabot_config == parts.dependabot_config
                        &&& c.webhooks == parts.webhooks
                        &&& c.direct_collaborators == parts.direct_collaborators
                        &&& c.release_immutability == parts.release_immutability
                        &&& c.fork_pr_contributor_approval == parts.fork_pr_contributor_approval
                        &&& c.sha_pinning == parts.sha_pinning
                        &&& c.codeowners == parts.codeowners
                        &&& c.config == parts.config
                    },
                    (Err(m), _) => r matches Err(e) && e@ == m,
                    (Ok(_), Err(m)) => r matches Err(e) && e@ == m,
                }
            }),
    {
        let branch_protections = BranchProtections { branches: parts.branches };
        let security_md = inherit_security_md(parts.own_security_md, org_default_security_md);
        let plan_gated = repo.private && branch_protections.any_plan_gated();
        let secret_scanning = match pick_feature(
            &repo,
            SecurityFeature::SecretScanning,
            plan_gated,
            "secret scanning",
            org,
        ) {
            Ok(s) => s,
            Err(m) => {
                return Err(m);
            },
        };
        let push_protection = match pick_feature(
            &repo,
            SecurityFeature::PushProtection,
            plan_gated,
            "secret push protection",
            org,
        ) {
            Ok(s) => s,
            Err(m) => {
                return Err(m);
            },
        };
        Ok(
            RepoContext {
                name: repo.name,
                archived: repo.archived,
                private: repo.private,
                default_branch: repo.default_branch,
                branch_protections,
                workflow_token: parts.workflow_token,
                secret_scanning,
                push_protection,
                dependabot_alerts: parts.dependabot_alerts,
                dependabot_security_updates: parts.dependabot_security_updates,
                private_vulnerability_reporting: parts.private_vulnerability_reporting,
                workflows: parts.workflows,
                security_md,
                dependabot_config: parts.dependabot_config,
                webhooks: parts.webhooks,
                direct_collaborators: parts.direct_collaborators,
                release_immutability: parts.release_immutability,
                fork_pr_contributor_approval: parts.fork_pr_contributor_approval,
                sha_pinning: parts.sha_pinning,
                codeowners: parts.codeowners,
                config: parts.config,
            },
        )
    }
}

/// `a` comes before `b` in the order of `str`'s `Ord`: character by character
/// by code point (which for UTF-8 is also the order of the bytes), a proper
/// prefix first.
pub open spec fn text_lt(a: Seq<char>, b: Seq<char>) -> bool
    decreases a.len(),
{
    if a.len() == 0 {
        b.len() > 0
    } else if b.len() == 0 {
        false
    } else if a[0] != b[0] {
        (a[0] as int) < (b[0] as int)
    } else {
        text_lt(a.drop_first(), b.drop_first())
    }
}

/// `a` is `b` or comes before it.
pub open spec fn text_le(a: Seq<char>, b: Seq<char>) -> bool {
    a == b || text_lt(a, b)
}

/// The names are in ascending order.
pub open spec fn ascending(names: Seq<Seq<char>>) -> bool {
    forall|i: int, j: int| 0 <= i < j < names.len() ==> text_le(#[trigger] names[i], #[trigger] names[j])
}

proof fn lemma_text_lt_total(a: Seq<char>, b: Seq<char>)
    ensures
        a != b ==> text_lt(a, b) || text_lt(b, a),
    decreases a.len(),
{
    if a.len() > 0 && b.len() > 0 && a[0] == b[0] {
        lemma_text_lt_total(a.drop_first(), b.drop_first());
        if a.drop_first() == b.drop_first() {
            assert(a =~= seq![a[0]] + a.drop_first());
            assert(b =~= seq![b[0]] + b.drop_first());
        }
    }
    if a.len() == 0 && b.len() == 0 {
        assert(a =~= b);
    }
}

proof fn lemma_text_lt_trans(a: Seq<char>, b: Seq<char>, c: Seq<char>)
    requires
        text_lt(a, b),
        text_lt(b, c),
    ensures
        text_lt(a, c),
    decreases a.len(),
{
    if a.len() > 0 && b.len() > 0 && c.len() > 0 && a[0] == b[0] && b[0] == c[0] {
        lemma_text_lt_trans(a.drop_first(), b.drop_first(), c.drop_first());
    }
}

/// `a < b` on strings.
fn text_less(a: &str, b: &str) -> (r: bool)
    ensures
        r == text_lt(a@, b@),
{
    let av = crate::text::to_chars(a);
    let bv = crate::text::to_chars(b);
    let mut i: usize = 0;
    assert(a@.skip(0) =~= a@);
    assert(b@.skip(0) =~= b@);
    while i < av.len() && i < bv.len()
        invariant
            av@ == a@,
            bv@ == b@,
            i <= a@.len(),
            i <= b@.len(),
            text_lt(a@, b@) == text_lt(a@.skip(i as int), b@.skip(i as int)),
        decreases a@.len() - i,
    {
        let ghost sa = a@.skip(i as int);
        let ghost sb = b@.skip(i as int);
        assert(sa[0] == a@[i as int]);
        assert(sb[0] == b@[i as int]);
        if av[i] != bv[i] {
            return av[i] < bv[i];
        }
        assert(sa.drop_first() =~= a@.skip(i + 1));
        assert(sb.drop_first() =~= b@.skip(i + 1));
        i += 1;
    }
    i == av.len() && i < bv.len()
}

/// The release branches in the order they are audited: those of
/// `compute_release_branches`, sorted ascending.
pub fn sorted_release_branches(default_branch: &Option<String>, config: &Config) -> (out: Vec<String>)
    ensures
        views(out@).to_multiset() == dedup(
            release_candidates(opt_string(*default_branch), config.branches()),
        ).to_multiset(),
        ascending(views(out@)),
{
    let names = compute_release_branches(default_branch, config);
    sort_names(names)
}

/// Sorts `names` ascending (insertion sort).
pub fn sort_names(names: Vec<String>) -> (out: Vec<String>)
    ensures
        views(out@).to_multiset() == views(names@).to_multiset(),
        ascending(views(out@)),
{
    let mut out: Vec<String> = Vec::new();
    let mut i: usize = 0;
    assert(views(names@).take(0) =~= Seq::<Seq<char>>::empty());
    assert(views(out@) =~= Seq::<Seq<char>>::empty());
    while i < names.len()
        invariant
            i <= names@.len(),
            views(out@).to_multiset() == views(names@).take(i as int).to_multiset(),
            ascending(views(out@)),
        decreases names@.len() - i,
    {
        let x = names[i].clone();
        let ghost xv = x@;
        let ghost before = views(out@);
        // the first position whose name comes after `x`
        let mut p: usize = 0;
        while p < out.len() && !text_less(x.as_str(), out[p].as_str())
            invariant
                p <= out@.len(),
                views(out@) == before,
                x@ == xv,
                forall|k: int| 0 <= k < p ==> !text_lt(xv, #[trigger] before[k]),
            decreases out@.len() - p,
        {
            p += 1;
        }
        proof {
            assert forall|k: int| 0 <= k < p implies text_le(#[trigger] before[k], xv) by {
                lemma_text_lt_total(before[k], xv);
            }
            if p < before.len() {
                assert(text_lt(xv, before[p as int]));
                assert forall|k: int| p <= k < before.len() implies text_lt(xv, #[trigger] before[k]) by {
                    if k > p {
                        assert(text_le(before[p as int], before[k]));
                        if before[p as int] != before[k] {
                            lemma_text_lt_trans(xv, before[p as int], before[k]);
                        }
                    }
                }
            }
        }
        out.insert(p, x);
        proof {
            let now = views(out@);
            assert(now =~= before.insert(p as int, xv));
            assert forall|a: int, b: int| 0 <= a < b < now.len() implies text_le(
                #[trigger] now[a],
                #[trigger] now[b],
            ) by {
                if a < p && b < p {
                    assert(now[a] == before[a] && now[b] == before[b]);
                } else if a < p && b == p {
                    assert(now[a] == before[a]);
                } else if a < p && b > p {
                    assert(now[a] == before[a] && now[b] == before[b - 1]);
                    if a < b - 1 {
                        assert(text_le(before[a], before[b - 1]));
                    }
                    assert(text_le(before[a], xv));
                    assert(text_lt(xv, before[b - 1]));
                    if before[a] != xv {
                        lemma_text_lt_trans(before[a], xv, before[b - 1]);
                    }
                } else if a == p {
                    assert(now[b] == before[b - 1]);
                } else {
                    assert(now[a] == before[a - 1] && now[b] == before[b - 1]);
                }
            }
            assert(views(names@).take(i + 1) =~= views(names@).take(i as int).push(xv));
            vstd::seq_lib::to_multiset_insert(before, p as int, xv);
            vstd::seq_lib::to_multiset_build(views(names@).take(i as int), xv);
        }
        i += 1;
    }
    assert(views(names@).take(names@.len() as int) =~= views(names@));
    out
}

/// A read that GitHub refuses because of the account's plan never stops the
/// audit: the setting counts as not offered, and rulesets as requiring
/// nothing.
pub proof fn plan_gated_reads_never_fail(
    resource: Seq<char>,
    org: Seq<char>,
    repo: Seq<char>,
    branch: Seq<char>,
    rules: RulesetFlags,
)
    ensures
        dependabot_alerts_of(Fetch403::<()>::PlanGated, org, repo) == Ok::<FeatureState, Seq<char>>(
            FeatureState::PlanGated,
        ),
        flag_feature_of(Fetch403::<bool>::PlanGated, resource, org, repo) == Ok::<
            FeatureState,
            Seq<char>,
        >(FeatureState::PlanGated),
        release_immutability_of(Fetch403::<bool>::PlanGated, org, repo) == Ok::<
            ReleaseImmutabilityRepoState,
            Seq<char>,
        >(ReleaseImmutabilityRepoState::PlanGated),
        fork_pr_approval_of(Fetch403::<Option<String>>::PlanGated, org, repo) == Ok::<
            ForkPrContributorApprovalState,
            Seq<char>,
        >(ForkPrContributorApprovalState::PlanGated),
        sha_pinning_of(Fetch403::<Option<bool>>::PlanGated, org, repo) == Ok::<
            SHAPinningState,
            Seq<char>,
        >(SHAPinningState::PlanGated),
        branch_rules_of(Fetch403::<Vec<RuleEntry>>::PlanGated, org, repo, branch) == Ok::<
            RulesetFlags,
            Seq<char>,
        >(no_rules()),
        branch_protection_of(Fetch403::<BranchProtection>::PlanGated, rules, org, repo, branch)
            == Ok::<BranchProtectionState, Seq<char>>(BranchProtectionState::PlanGated),
{
}

/// A read that the token may not make stops the audit with an error that
/// names what could not be read and where, so the token's scopes can be
/// fixed.
pub proof fn forbidden_reads_name_the_setting(
    org: Seq<char>,
    repo: Seq<char>,
    branch: Seq<char>,
    rules: RulesetFlags,
)
    ensures
        workflow_token_of(Fetch::<String>::Forbidden, org, repo) == Err::<
            WorkflowTokenState,
            Seq<char>,
        >(permission_message("workflow token permissions"@, org, Some(repo))),
        dependabot_alerts_of(Fetch403::<()>::Forbidden, org, repo) == Err::<FeatureState, Seq<char>>(
            permission_message("dependabot alerts"@, org, Some(repo)),
        ),
        release_immutability_of(Fetch403::<bool>::Forbidden, org, repo) == Err::<
            ReleaseImmutabilityRepoState,
            Seq<char>,
        >(permission_message("release immutability setting"@, org, Some(repo))),
        fork_pr_approval_of(Fetch403::<Option<String>>::Forbidden, org, repo) == Err::<
            ForkPrContributorApprovalState,
            Seq<char>,
        >(permission_message("fork PR contributor approval policy"@, org, Some(repo))),
        sha_pinning_of(Fetch403::<Option<bool>>::Forbidden, org, repo) == Err::<
            SHAPinningState,
            Seq<char>,
        >(permission_message("actions SHA pinning setting"@, org, Some(repo))),
        dependabot_config_of(seq![Fetch::<bool>::Forbidden], org, repo) == Err::<
            DependabotConfigState,
            Seq<char>,
        >(permission_message("dependabot config"@, org, Some(repo))),
        branch_rules_of(Fetch403::<Vec<RuleEntry>>::Forbidden, org, repo, branch) == Err::<
            RulesetFlags,
            Seq<char>,
        >(permission_message(for_branch("branch rules"@, branch), org, Some(repo))),
        branch_protection_of(Fetch403::<BranchProtection>::Forbidden, rules, org, repo, branch)
            == Err::<BranchProtectionState, Seq<char>>(
            permission_message(for_branch("branch protection"@, branch), org, Some(repo)),
        ),
{
}

proof fn lemma_agg_lines_nonempty(multi: bool, names: Seq<Seq<char>>, evals: Seq<EvalView>)
    ensures
        agg_lines(multi, names, evals).len() > 0 <==> exists|i: int|
            0 <= i < evals.len() && #[trigger] evals[i] is Fail,
    decreases evals.len(),
{
    if evals.len() > 0 {
        let p = evals.drop_last();
        lemma_agg_lines_nonempty(multi, names, p);
        if let EvalView::Fail(reasons) = evals.last() {
            let lines = fail_lines(multi, names[evals.len() - 1], reasons);
            if reasons.len() > 0 {
                assert(lines.len() == reasons.len());
            }
            assert(evals[evals.len() - 1] is Fail);
        }
        if exists|i: int| 0 <= i < p.len() && #[trigger] p[i] is Fail {
            let i = choose|i: int| 0 <= i < p.len() && #[trigger] p[i] is Fail;
            assert(evals[i] == p[i]);
        }
        if exists|i: int| 0 <= i < evals.len() && #[trigger] evals[i] is Fail {
            let i = choose|i: int| 0 <= i < evals.len() && #[trigger] evals[i] is Fail;
            if i < p.len() {
                assert(p[i] == evals[i]);
            }
        }
    }
}

/// Over the release branches of a repository, a check fails exactly when
/// some branch fails. Otherwise it passes when some branch passes, skips
/// when the branches that did not pass all need a plan that is not there,
/// and passes when there are none of either. With no branches it skips.
pub proof fn branch_outcome_fails_iff_a_branch_fails(names: Seq<Seq<char>>, evals: Seq<EvalView>)
    requires
        names.len() == evals.len(),
    ensures
        names.len() == 0 ==> aggregate_outcome(names, evals).status == Status::Skipped,
        names.len() > 0 ==> ((aggregate_outcome(names, evals).status == Status::Fail) <==> exists|
            i: int,
        | 0 <= i < evals.len() && #[trigger] evals[i] is Fail),
        names.len() > 0 && !(exists|i: int| 0 <= i < evals.len() && #[trigger] evals[i] is Fail)
            ==> (aggregate_outcome(names, evals).status == Status::Skipped <==> !any_pass(evals)
            && any_gated(evals)),
{
    lemma_agg_lines_nonempty(names.len() > 1, names, evals);
}

/// With classic protection present the branch is protected, and each
/// requirement holds exactly when classic protection or a ruleset makes it:
/// turning either source on never turns the merged requirement off, and
/// with both off it is off. Force pushes and deletions stay allowed only
/// when classic protection allows them and no rule blocks them.
pub proof fn either_source_makes_a_requirement(bp: BranchProtection, rules: RulesetFlags)
    ensures
        merged_protection(Some(bp), rules) is Protected,
        enabled(bp.required_signatures) ==> merged_protection(Some(bp), rules)->signed_commits,
        rules.signed_commits ==> merged_protection(Some(bp), rules)->signed_commits,
        !enabled(bp.required_signatures) && !rules.signed_commits ==> !merged_protection(
            Some(bp),
            rules,
        )->signed_commits,
        classic_reviews(bp.required_pull_request_reviews) ==> merged_protection(
            Some(bp),
            rules,
        )->pr_reviews,
        rules.pr_reviews ==> merged_protection(Some(bp), rules)->pr_reviews,
        !classic_reviews(bp.required_pull_request_reviews) && !rules.pr_reviews
            ==> !merged_protection(Some(bp), rules)->pr_reviews,
        classic_review_flag(bp.required_pull_request_reviews, PrRequirement::DismissStale)
            ==> merged_protection(Some(bp), rules)->pr_dismiss_stale_reviews,
        rules.pr_dismiss_stale_reviews ==> merged_protection(
            Some(bp),
            rules,
        )->pr_dismiss_stale_reviews,
        classic_review_flag(bp.required_pull_request_reviews, PrRequirement::LastPush)
            ==> merged_protection(Some(bp), rules)->pr_require_last_push_approval,
        rules.pr_require_last_push_approval ==> merged_protection(
            Some(bp),
            rules,
        )->pr_require_last_push_approval,
        classic_review_flag(bp.required_pull_request_reviews, PrRequirement::CodeOwner)
            ==> merged_protection(Some(bp), rules)->pr_require_code_owner_review,
        rules.pr_require_code_owner_review ==> merged_protection(
            Some(bp),
            rules,
        )->pr_require_code_owner_review,
        enabled(bp.enforce_admins) ==> merged_protection(Some(bp), rules)->enforce_admins,
        rules.any ==> merged_protection(Some(bp), rules)->enforce_admins,
        enabled(bp.required_linear_history) ==> merged_protection(
            Some(bp),
            rules,
        )->required_linear_history,
        rules.required_linear_history ==> merged_protection(
            Some(bp),
            rules,
        )->required_linear_history,
        merged_protection(Some(bp), rules)->allow_force_pushes <==> (enabled(bp.allow_force_pushes)
            && !rules.non_fast_forward),
        merged_protection(Some(bp), rules)->allow_deletions <==> (enabled(bp.allow_deletions)
            && !rules.deletion),
{
}

/// Without classic protection a branch is protected exactly when some rule
/// applies to it, and then admins cannot bypass the protection.
pub proof fn rulesets_alone_protect(rules: RulesetFlags)
    ensures
        merged_protection(None, rules) is Protected <==> rules.any,
        !rules.any ==> merged_protection(None, rules) is Unprotected,
        rules.any ==> merged_protection(None, rules)->enforce_admins,
        rules.any ==> (merged_protection(None, rules)->signed_commits <==> rules.signed_commits),
{
}

} // verus!
