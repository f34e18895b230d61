//! Every `uses:` reference in the repositories' workflows is pinned to a commit SHA.
use vstd::prelude::*;

use crate::checks::common::{count_repos, decimal_slash, noun, opt_text, repos_noun, repos_word};
use crate::checks::repo_context::RepoContext;
use crate::checks::StateCtx;
use crate::support::outcome::{failed_on, passed, skipped_empty, CheckOutcome, OutcomeView, Status};
use crate::support::workflows::{collect_uses, is_pinned, pinned, uses_in, Workflow};
use crate::text::{contains_string, decimal, decimal_string, views};

verus! {

pub const LABEL: &'static str = "Repositories workflow actions are SHA-pinned";

pub const HOW_TO_FIX: &'static str = "In each affected workflow file below, replace every tag or branch ref with the full-length commit SHA (keep the tag as a trailing comment for readability). For example:\n```diff\n    - name: Cache dependencies\n-      uses: actions/cache@v5\n+      uses: actions/cache@27d5ce7f107fe9357f9df03efb73ab90386fccae # v5\n```\nTip: hand the file list to your coding agent and ask it to pin every `uses:` ref — it can resolve each tag to its commit SHA for you.";

pub const WHY_ENABLE: &'static str = "Tags and branches are mutable — when tj-actions/changed-files was compromised in 2025, the attacker repointed the existing tags, so every workflow `@v1` instantly ran malicious code; pinning each `uses:` ref to a full-length commit SHA makes that impossible. Note: pinning the refs is necessary but not sufficient — pair it with the repo-level enforcement setting (see `repositories_enforce_workflow_actions_sha_pinning`) so unpinned refs can't be reintroduced.";

pub fn how_to_fix(_ctx: StateCtx<'_>) -> (s: &'static str)
    ensures
        s == HOW_TO_FIX,
{
    HOW_TO_FIX
}

/// One finding per unpinned `uses:` value of a workflow, in document order.
pub open spec fn unpinned_lines(path: Seq<char>, uses: Seq<Seq<char>>) -> Seq<Seq<char>>
    decreases uses.len(),
{
    if uses.len() == 0 {
        seq![]
    } else {
        unpinned_lines(path, uses.drop_last()) + if pinned(uses.last()) {
            seq![]
        } else {
            seq!["unpinned ref — "@ + path + ": "@ + uses.last()]
        }
    }
}

/// The findings of a list of workflows, in order.
pub open spec fn workflows_unpinned(wfs: Seq<Workflow>) -> Seq<Seq<char>>
    decreases wfs.len(),
{
    if wfs.len() == 0 {
        seq![]
    } else {
        workflows_unpinned(wfs.drop_last()) + unpinned_lines(
            wfs.last().path@,
            uses_in(wfs.last().doc),
        )
    }
}

/// Findings prefixed with their branch when several branches are tracked.
pub open spec fn prefixed(multi: bool, branch: Seq<char>, lines: Seq<Seq<char>>) -> Seq<Seq<char>> {
    if multi {
        lines.map_values(|l: Seq<char>| branch + ": "@ + l)
    } else {
        lines
    }
}

pub open spec fn branches_unpinned(multi: bool, per_branch: Seq<(String, Vec<Workflow>)>) -> Seq<
    Seq<char>,
>
    decreases per_branch.len(),
{
    if per_branch.len() == 0 {
        seq![]
    } else {
        branches_unpinned(multi, per_branch.drop_last()) + prefixed(
            multi,
            per_branch.last().0@,
            workflows_unpinned(per_branch.last().1@),
        )
    }
}

/// The branches with at least one unpinned reference, each once.
pub open spec fn unpinned_branches(per_branch: Seq<(String, Vec<Workflow>)>) -> Seq<Seq<char>>
    decreases per_branch.len(),
{
    if per_branch.len() == 0 {
        seq![]
    } else {
        let prev = unpinned_branches(per_branch.drop_last());
        let name = per_branch.last().0@;
        if workflows_unpinned(per_branch.last().1@).len() > 0 && !prev.contains(name) {
            prev.push(name)
        } else {
            prev
        }
    }
}

/// Skipped without workflows; otherwise fails listing every unpinned
/// reference (and the branches holding them), or passes.
pub open spec fn sha_pinned_outcome(r: &RepoContext) -> OutcomeView {
    if !r.workflows.any_workflows() {
        skipped_empty("N/A (no workflows)"@, "repos, no workflows"@)
    } else {
        let per = r.workflows.per_branch@;
        let lines = branches_unpinned(per.len() > 1, per);
        if lines.len() == 0 {
            passed("✓"@)
        } else {
            failed_on("✗"@, lines, unpinned_branches(per))
        }
    }
}

fn workflow_lines(wf: &Workflow, out: &mut Vec<String>)
    ensures
        views(final(out)@) == views(old(out)@) + unpinned_lines(wf.path@, uses_in(wf.doc)),
{
    let all = collect_uses(&wf.doc);
    let ghost start = views(out@);
    let mut i: usize = 0;
    assert(views(all@).take(0) =~= Seq::<Seq<char>>::empty());
    assert(views(out@) =~= start + unpinned_lines(wf.path@, views(all@).take(0)));
    while i < all.len()
        invariant
            i <= all@.len(),
            views(all@) == uses_in(wf.doc),
            views(out@) == start + unpinned_lines(wf.path@, views(all@).take(i as int)),
        decreases all@.len() - i,
    {
        let ghost before = views(out@);
        assert(views(all@).take(i + 1).drop_last() =~= views(all@).take(i as int));
        assert(views(all@).take(i + 1).last() == all@[i as int]@);
        if !is_pinned(all[i].as_str()) {
            let mut line = "unpinned ref — ".to_owned();
            line.append(wf.path.as_str());
            line.append(": ");
            line.append(all[i].as_str());
            out.push(line);
            assert(views(out@) =~= before.push(line@));
        }
        assert(views(out@) =~= start + unpinned_lines(wf.path@, views(all@).take(i + 1)));
        i += 1;
    }
    assert(views(all@).take(all@.len() as int) =~= views(all@));
}

fn unpinned_in(wfs: &Vec<Workflow>) -> (out: Vec<String>)
    ensures
        views(out@) == workflows_unpinned(wfs@),
{
    let mut out: Vec<String> = Vec::new();
    let mut i: usize = 0;
    assert(wfs@.take(0) =~= Seq::<Workflow>::empty());
    assert(views(out@) =~= Seq::empty());
    while i < wfs.len()
        invariant
            i <= wfs@.len(),
            views(out@) == workflows_unpinned(wfs@.take(i as int)),
        decreases wfs@.len() - i,
    {
        assert(wfs@.take(i + 1).drop_last() =~= wfs@.take(i as int));
        workflow_lines(&wfs[i], &mut out);
        i += 1;
    }
    assert(wfs@.take(wfs@.len() as int) =~= wfs@);
    out
}

pub fn repo_check(ctx: &RepoContext) -> (o: CheckOutcome)
    ensures
        o@ == sha_pinned_outcome(ctx),
{
    if !ctx.workflows.has_any_workflows() {
        return CheckOutcome::skipped_no_data("N/A (no workflows)", "repos, no workflows");
    }
    let per = &ctx.workflows.per_branch;
    let multi = ctx.workflows.len() > 1;
    let mut unpinned: Vec<String> = Vec::new();
    let mut failing_branches: Vec<String> = Vec::new();
    let mut i: usize = 0;
    assert(per@.take(0) =~= Seq::<(String, Vec<Workflow>)>::empty());
    assert(views(unpinned@) =~= Seq::empty());
    assert(views(failing_branches@) =~= Seq::empty());
    while i < per.len()
        invariant
            i <= per@.len(),
            multi == (per@.len() > 1),
            views(unpinned@) == branches_unpinned(multi, per@.take(i as int)),
            views(failing_branches@) == unpinned_branches(per@.take(i as int)),
        decreases per@.len() - i,
    {
        let branch = &per[i].0;
        let branch_unpinned = unpinned_in(&per[i].1);
        assert(per@.take(i + 1).drop_last() =~= per@.take(i as int));
        assert(per@.take(i + 1).last() == per@[i as int]);
        let ghost fb_before = views(failing_branches@);
        if branch_unpinned.len() > 0 && !contains_string(&failing_branches, branch) {
            failing_branches.push(branch.clone());
            assert(views(failing_branches@) =~= fb_before.push(branch@));
        }
        let ghost lines_before = views(unpinned@);
        let mut k: usize = 0;
        while k < branch_unpinned.len()
            invariant
                k <= branch_unpinned@.len(),
                views(unpinned@) == lines_before + prefixed(
                    multi,
                    branch@,
                    views(branch_unpinned@),
                ).take(k as int),
            decreases branch_unpinned@.len() - k,
        {
            let ghost before = views(unpinned@);
            let line = if multi {
                let mut l = branch.clone();
                l.append(": ");
                l.append(branch_unpinned[k].as_str());
                l
            } else {
                branch_unpinned[k].clone()
            };
            assert(prefixed(multi, branch@, views(branch_unpinned@))[k as int] == line@);
            unpinned.push(line);
            assert(views(unpinned@) =~= before.push(line@));
            assert(views(unpinned@) =~= lines_before + prefixed(
                multi,
                branch@,
                views(branch_unpinned@),
            ).take(k + 1));
            k += 1;
        }
        assert(prefixed(multi, branch@, views(branch_unpinned@)).take(
            branch_unpinned@.len() as int,
        ) =~= prefixed(multi, branch@, views(branch_unpinned@)));
        i += 1;
    }
    assert(per@.take(per@.len() as int) =~= per@);
    if unpinned.len() == 0 {
        return CheckOutcome::pass("✓");
    }
    let mut outcome = CheckOutcome::fail("✗").with_items(unpinned);
    if failing_branches.len() > 0 {
        outcome = outcome.with_failing_branches(failing_branches);
    } else {
        assert(views(failing_branches@) =~= Seq::empty());
    }
    outcome
}

/// The unpinned references of a repository, over all its release branches.
pub open spec fn repo_unpinned(per_branch: Seq<(String, Vec<Workflow>)>) -> nat
    decreases per_branch.len(),
{
    if per_branch.len() == 0 {
        0
    } else {
        repo_unpinned(per_branch.drop_last()) + workflows_unpinned(per_branch.last().1@).len()
    }
}

/// Over the repositories with workflows: how many there are, how many have
/// an unpinned reference, and how many unpinned references there are.
pub open spec fn pinned_tally(repos: Seq<&RepoContext>) -> (nat, nat, nat)
    decreases repos.len(),
{
    if repos.len() == 0 {
        (0, 0, 0)
    } else {
        let (applicable, bad, total) = pinned_tally(repos.drop_last());
        let r = repos.last();
        if !r.workflows.any_workflows() {
            (applicable, bad, total)
        } else {
            let n = repo_unpinned(r.workflows.per_branch@);
            if n > 0 {
                (applicable + 1, bad + 1, total + n)
            } else {
                (applicable + 1, bad, total)
            }
        }
    }
}

pub open spec fn pinned_description(repos: Seq<&RepoContext>) -> Option<Seq<char>> {
    let (applicable, bad, total) = pinned_tally(repos);
    if applicable == 0 {
        None
    } else if total == 0 {
        Some(
            "every workflow action is SHA-pinned across all "@ + count_repos(applicable)
                + " with workflows"@,
        )
    } else {
        Some(
            decimal(total) + " unpinned "@ + (if total == 1 {
                "action reference"@
            } else {
                "action references"@
            }) + " across "@ + decimal_slash(bad, applicable) + " "@ + repos_noun(applicable)
                + " with workflows"@,
        )
    }
}

proof fn lemma_tally_bounds(repos: Seq<&RepoContext>)
    ensures
        pinned_tally(repos).1 <= pinned_tally(repos).0 <= repos.len(),
        pinned_tally(repos).2 <= unpinned_all(repos),
    decreases repos.len(),
{
    if repos.len() > 0 {
        lemma_tally_bounds(repos.drop_last());
    }
}

/// Every unpinned reference of every repository (with workflows or not).
pub open spec fn unpinned_all(repos: Seq<&RepoContext>) -> nat
    decreases repos.len(),
{
    if repos.len() == 0 {
        0
    } else {
        unpinned_all(repos.drop_last()) + repo_unpinned(repos.last().workflows.per_branch@)
    }
}

pub fn description(ctx: StateCtx<'_>) -> (r: Option<String>)
    requires
        unpinned_all(ctx.repos@) <= usize::MAX,
    ensures
        opt_text(r) == pinned_description(ctx.repos@),
{
    let repos = ctx.repos;
    let mut total_unpinned: usize = 0;
    let mut bad_repos: usize = 0;
    let mut applicable: usize = 0;
    let mut i: usize = 0;
    assert(repos@.take(0) =~= Seq::<&RepoContext>::empty());
    while i < repos.len()
        invariant
            i <= repos@.len(),
            unpinned_all(repos@) <= usize::MAX,
            (applicable as nat, bad_repos as nat, total_unpinned as nat) == pinned_tally(
                repos@.take(i as int),
            ),
        decreases repos@.len() - i,
    {
        let r = repos[i];
        proof {
            assert(repos@.take(i + 1).drop_last() =~= repos@.take(i as int));
            assert(repos@.take(i + 1).last() == r);
            lemma_tally_bounds(repos@.take(i + 1));
            lemma_unpinned_all_prefix(repos@, i + 1);
        }
        if r.workflows.has_any_workflows() {
            let per = &r.workflows.per_branch;
            let mut repo_count: usize = 0;
            let mut j: usize = 0;
            assert(per@.take(0) =~= Seq::<(String, Vec<Workflow>)>::empty());
            while j < per.len()
                invariant
                    j <= per@.len(),
                    repo_count == repo_unpinned(per@.take(j as int)),
                    repo_unpinned(per@) <= usize::MAX,
                decreases per@.len() - j,
            {
                let lines = unpinned_in(&per[j].1);
                assert(per@.take(j + 1).drop_last() =~= per@.take(j as int));
                proof {
                    lemma_repo_unpinned_prefix(per@, j + 1);
                }
                repo_count = repo_count + lines.len();
                j += 1;
            }
            assert(per@.take(per@.len() as int) =~= per@);
            applicable += 1;
            if repo_count > 0 {
                bad_repos += 1;
                total_unpinned = total_unpinned + repo_count;
            }
        }
        i += 1;
    }
    assert(repos@.take(repos@.len() as int) =~= repos@);
    if applicable == 0 {
        return None;
    }
    if total_unpinned == 0 {
        let mut s = "every workflow action is SHA-pinned across all ".to_owned();
        s.append(decimal_string(applicable).as_str());
        s.append(" ");
        s.append(repos_word(applicable));
        s.append(" with workflows");
        Some(s)
    } else {
        let mut s = decimal_string(total_unpinned);
        s.append(" unpinned ");
        s.append(noun(total_unpinned, "action reference", "action references"));
        s.append(" across ");
        s.append(decimal_string(bad_repos).as_str());
        s.append("/");
        s.append(decimal_string(applicable).as_str());
        s.append(" ");
        s.append(repos_word(applicable));
        s.append(" with workflows");
        Some(s)
    }
}

proof fn lemma_repo_unpinned_prefix(per: Seq<(String, Vec<Workflow>)>, n: int)
    requires
        0 <= n <= per.len(),
    ensures
        repo_unpinned(per.take(n)) <= repo_unpinned(per),
    decreases per.len() - n,
{
    if n < per.len() {
        assert(per.take(n + 1).drop_last() =~= per.take(n));
        lemma_repo_unpinned_prefix(per, n + 1);
    } else {
        assert(per.take(n) =~= per);
    }
}

proof fn lemma_unpinned_all_prefix(repos: Seq<&RepoContext>, n: int)
    requires
        0 <= n <= repos.len(),
    ensures
        unpinned_all(repos.take(n)) <= unpinned_all(repos),
        n > 0 ==> repo_unpinned(repos[n - 1].workflows.per_branch@) + unpinned_all(repos.take(n - 1))
            == unpinned_all(repos.take(n)),
    decreases repos.len() - n,
{
    if n > 0 {
        assert(repos.take(n).drop_last() =~= repos.take(n - 1));
    }
    if n < repos.len() {
        assert(repos.take(n + 1).drop_last() =~= repos.take(n));
        lemma_unpinned_all_prefix(repos, n + 1);
    } else {
        assert(repos.take(n) =~= repos);
    }
}

/// Every reference in `uses` is pinned.
pub open spec fn uses_pinned(uses: Seq<Seq<char>>) -> bool {
    forall|k: int| 0 <= k < uses.len() ==> pinned(#[trigger] uses[k])
}

/// Every `uses:` reference of every workflow in `wfs` is pinned.
pub open spec fn workflows_pinned(wfs: Seq<Workflow>) -> bool {
    forall|w: int| 0 <= w < wfs.len() ==> uses_pinned(uses_in(#[trigger] wfs[w].doc))
}

/// Every `uses:` reference on every tracked branch is pinned.
pub open spec fn all_pinned(per_branch: Seq<(String, Vec<Workflow>)>) -> bool {
    forall|b: int| 0 <= b < per_branch.len() ==> workflows_pinned(#[trigger] per_branch[b].1@)
}

proof fn lemma_unpinned_lines_empty(path: Seq<char>, uses: Seq<Seq<char>>)
    ensures
        unpinned_lines(path, uses).len() == 0 <==> uses_pinned(uses),
    decreases uses.len(),
{
    if uses.len() > 0 {
        let p = uses.drop_last();
        lemma_unpinned_lines_empty(path, p);
        assert forall|k: int| 0 <= k < p.len() implies p[k] == uses[k] by {}
        if uses_pinned(uses) {
            assert(pinned(uses[uses.len() - 1]));
        }
        if unpinned_lines(path, uses).len() == 0 {
            assert forall|k: int| 0 <= k < uses.len() implies pinned(#[trigger] uses[k]) by {
                if k < p.len() {
                    assert(p[k] == uses[k]);
                }
            }
        }
    }
}

proof fn lemma_workflows_unpinned_empty(wfs: Seq<Workflow>)
    ensures
        workflows_unpinned(wfs).len() == 0 <==> workflows_pinned(wfs),
    decreases wfs.len(),
{
    if wfs.len() > 0 {
        let p = wfs.drop_last();
        lemma_workflows_unpinned_empty(p);
        lemma_unpinned_lines_empty(wfs.last().path@, uses_in(wfs.last().doc));
        if workflows_pinned(wfs) {
            assert(uses_pinned(uses_in(wfs[wfs.len() - 1].doc)));
            assert forall|w: int| 0 <= w < p.len() implies uses_pinned(uses_in(#[trigger] p[w].doc)) by {
                assert(p[w] == wfs[w]);
            }
        }
        if workflows_unpinned(wfs).len() == 0 {
            assert forall|w: int| 0 <= w < wfs.len() implies uses_pinned(
                uses_in(#[trigger] wfs[w].doc),
            ) by {
                if w < p.len() {
                    assert(p[w] == wfs[w]);
                }
            }
        }
    }
}

proof fn lemma_branches_unpinned_empty(multi: bool, per: Seq<(String, Vec<Workflow>)>)
    ensures
        branches_unpinned(multi, per).len() == 0 <==> all_pinned(per),
    decreases per.len(),
{
    if per.len() > 0 {
        let p = per.drop_last();
        lemma_branches_unpinned_empty(multi, p);
        lemma_workflows_unpinned_empty(per.last().1@);
        let lines = workflows_unpinned(per.last().1@);
        assert(prefixed(multi, per.last().0@, lines).len() == lines.len());
        if all_pinned(per) {
            assert(workflows_pinned(per[per.len() - 1].1@));
            assert forall|b: int| 0 <= b < p.len() implies workflows_pinned(#[trigger] p[b].1@) by {
                assert(p[b] == per[b]);
            }
        }
        if branches_unpinned(multi, per).len() == 0 {
            assert forall|b: int| 0 <= b < per.len() implies workflows_pinned(#[trigger] per[b].1@) by {
                if b < p.len() {
                    assert(p[b] == per[b]);
                }
            }
        }
    }
}

/// The SHA-pinning check skips a repository without workflows; otherwise it
/// passes exactly when every `uses:` reference of every workflow on every
/// tracked branch is pinned, and fails when any is not.
pub proof fn sha_pinned_passes_iff_all_pinned(r: RepoContext)
    ensures
        !r.workflows.any_workflows() ==> sha_pinned_outcome(&r).status == Status::Skipped,
        r.workflows.any_workflows() ==> ((sha_pinned_outcome(&r).status == Status::Pass)
            <==> all_pinned(r.workflows.per_branch@)),
        r.workflows.any_workflows() && !all_pinned(r.workflows.per_branch@) ==> sha_pinned_outcome(
            &r,
        ).status == Status::Fail,
{
    let per = r.workflows.per_branch@;
    lemma_branches_unpinned_empty(per.len() > 1, per);
}

/// The repositories that have at least one workflow, in order.
pub open spec fn repos_with_workflows(repos: Seq<&RepoContext>) -> Seq<&RepoContext> {
    repos.filter(|r: &RepoContext| r.workflows.any_workflows())
}

proof fn lemma_tally_filter(repos: Seq<&RepoContext>)
    ensures
        pinned_tally(repos).0 == repos_with_workflows(repos).len(),
    decreases repos.len(),
{
    reveal(Seq::filter);
    if repos.len() > 0 {
        lemma_tally_filter(repos.drop_last());
    }
}

/// The repositories the description counts are exactly those with at least
/// one workflow; it says nothing when no repository has one, and a
/// repository without workflows added to the set never changes it.
pub proof fn pinned_description_counts_repos_with_workflows(
    repos: Seq<&RepoContext>,
    r: &RepoContext,
)
    ensures
        pinned_tally(repos).0 == repos_with_workflows(repos).len(),
        pinned_description(repos) is None <==> forall|i: int|
            0 <= i < repos.len() ==> !(#[trigger] repos[i]).workflows.any_workflows(),
        !r.workflows.any_workflows() ==> pinned_description(repos.push(r)) == pinned_description(
            repos,
        ),
{
    lemma_tally_filter(repos);
    lemma_tally_filter(repos.push(r));
    assert(repos.push(r).drop_last() =~= repos);
    broadcast use Seq::lemma_filter_contains, Seq::lemma_filter_pred, Seq::lemma_filter_contains_rev;
    let p = |x: &RepoContext| x.workflows.any_workflows();
    if forall|i: int| 0 <= i < repos.len() ==> !(#[trigger] repos[i]).workflows.any_workflows() {
        if repos_with_workflows(repos).len() > 0 {
            let f = repos_with_workflows(repos);
            assert(f.contains(f[0]));
            assert(p(f[0]));
            assert(repos.contains(f[0]));
        }
    } else {
        let i = choose|i: int| 0 <= i < repos.len() && (#[trigger] repos[i]).workflows.any_workflows();
        assert(repos.filter(p).contains(repos[i]));
    }
}

} // verus!
