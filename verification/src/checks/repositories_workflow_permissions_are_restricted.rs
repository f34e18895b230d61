//! Every workflow declares a restrictive `permissions:` block.
use vstd::prelude::*;

use crate::checks::common::{count_repos, decimal_slash, noun, opt_text, repos_noun, repos_word};
use crate::checks::repo_context::RepoContext;
use crate::checks::StateCtx;
use crate::config::{strs_view, Config};
use crate::support::outcome::{failed_on, passed, skipped_empty, CheckOutcome, OutcomeView, Status};
use crate::support::workflows::{
    job_action_uses, job_blocks_view, job_level_permissions, job_permissions, job_uses,
    top_level_permissions, top_permissions, Permissions, PermissionsBlock, Workflow,
};
use crate::text::{
    contains_string, decimal, decimal_string, join, join_strings, starts_with, str_eq, to_chars,
    views,
};

verus! {

pub const LABEL: &'static str = "Repositories workflow permissions are restricted";

pub const HOW_TO_FIX: &'static str = "In each `.github/workflows/*.yml` below > *Add* -> A top-level `permissions:` block > *Set* -> The minimum scopes needed — for read-only workflows:\n```yaml\npermissions:\n  contents: read\n```";

pub const WHY_ENABLE: &'static str = "Without a declared `permissions:` block (or with `write-all`), every step in the workflow — including third-party actions — runs with full repo write access, turning any compromised action into a code-push primitive.";

pub fn how_to_fix(_ctx: StateCtx<'_>) -> (s: &'static str)
    ensures
        s == HOW_TO_FIX,
{
    HOW_TO_FIX
}

/// The part of a `uses:` value before the first `@` (all of it without one).
pub open spec fn action_name(uses: Seq<char>) -> Seq<char>
    decreases uses.len(),
{
    if uses.len() == 0 {
        uses
    } else if uses[0] == '@' {
        seq![]
    } else {
        seq![uses[0]] + action_name(uses.drop_first())
    }
}

/// The write scopes a `uses:` value's action is known to need: none are
/// known for local (`./`) and docker (`docker://`) actions.
pub open spec fn known_matches(uses: Seq<char>, config: Config) -> Option<Seq<Seq<char>>> {
    let action = action_name(uses);
    if "./"@.is_prefix_of(action) || "docker://"@.is_prefix_of(action) {
        None
    } else {
        config.writes_for(action)
    }
}

proof fn lemma_action_name_prefix(uses: Seq<char>, k: int)
    requires
        0 <= k <= uses.len(),
        forall|j: int| 0 <= j < k ==> uses[j] != '@',
        k == uses.len() || uses[k] == '@',
    ensures
        action_name(uses) == uses.take(k),
    decreases uses.len(),
{
    if uses.len() == 0 {
        assert(uses.take(k) =~= uses);
    } else if k == 0 {
        assert(uses.take(0) =~= Seq::<char>::empty());
    } else {
        lemma_action_name_prefix(uses.drop_first(), k - 1);
        assert(seq![uses[0]] + uses.drop_first().take(k - 1) =~= uses.take(k));
    }
}

fn known_action_matches<'a>(uses: &'a str, config: &'a Config) -> (r: Option<Vec<&'a str>>)
    ensures
        match r {
            Some(w) => known_matches(uses@, *config) == Some(strs_view(w@)),
            None => known_matches(uses@, *config) is None,
        },
{
    let cs = to_chars(uses);
    let mut k: usize = 0;
    while k < cs.len() && cs[k] != '@'
        invariant
            k <= cs@.len(),
            cs@ == uses@,
            forall|j: int| 0 <= j < k ==> cs@[j] != '@',
        decreases cs@.len() - k,
    {
        k += 1;
    }
    proof {
        lemma_action_name_prefix(uses@, k as int);
    }
    let action = uses.substring_char(0, k);
    assert(action@ == action_name(uses@));
    if starts_with(action, "./") || starts_with(action, "docker://") {
        return None;
    }
    config.known_action_writes(action)
}

/// The write scopes known to be needed by the first step of the job whose
/// action has known scopes.
pub open spec fn first_known(uses: Seq<Seq<char>>, config: Config) -> Option<Seq<Seq<char>>>
    decreases uses.len(),
{
    if uses.len() == 0 {
        None
    } else {
        match known_matches(uses[0], config) {
            Some(a) => Some(a),
            None => first_known(uses.drop_first(), config),
        }
    }
}

/// `writes` without the scopes in `allowed`, in order.
pub open spec fn without(writes: Seq<Seq<char>>, allowed: Seq<Seq<char>>) -> Seq<Seq<char>>
    decreases writes.len(),
{
    if writes.len() == 0 {
        seq![]
    } else {
        without(writes.drop_last(), allowed) + if allowed.contains(writes.last()) {
            seq![]
        } else {
            seq![writes.last()]
        }
    }
}

/// The job-level write scopes still reported once the scopes the job's known
/// action needs are taken out.
pub open spec fn reported_writes(doc: crate::support::yaml::Yaml, job: Seq<char>, writes: Seq<Seq<char>>, config: Config) -> Seq<
    Seq<char>,
> {
    match first_known(job_uses(doc, job), config) {
        Some(allowed) => without(writes, allowed),
        None => writes,
    }
}

fn contains_str(v: &Vec<&str>, s: &str) -> (b: bool)
    ensures
        b == strs_view(v@).contains(s@),
{
    let mut i: usize = 0;
    while i < v.len()
        invariant
            i <= v@.len(),
            forall|k: int| 0 <= k < i ==> strs_view(v@)[k] != s@,
        decreases v@.len() - i,
    {
        if str_eq(v[i], s) {
            assert(strs_view(v@)[i as int] == s@);
            return true;
        }
        i += 1;
    }
    false
}

fn clone_all(v: &Vec<String>) -> (c: Vec<String>)
    ensures
        views(c@) == views(v@),
{
    let mut c: Vec<String> = Vec::new();
    let mut i: usize = 0;
    while i < v.len()
        invariant
            i <= v@.len(),
            c@.len() == i,
            views(c@) == views(v@).take(i as int),
        decreases v@.len() - i,
    {
        let ghost before = c@;
        let s = v[i].clone();
        c.push(s);
        assert(c@ == before.push(s));
        assert(views(c@) =~= views(v@).take(i + 1));
        i += 1;
    }
    assert(views(v@).take(v@.len() as int) =~= views(v@));
    c
}

fn filter_job_writes(doc: &crate::support::yaml::Yaml, job: &str, writes: &Vec<String>, config: &Config) -> (r: Vec<String>)
    ensures
        views(r@) == reported_writes(*doc, job@, views(writes@), *config),
{
    let all = job_action_uses(doc, job);
    let mut i: usize = 0;
    assert(views(all@).skip(0) =~= views(all@));
    while i < all.len()
        invariant
            i <= all@.len(),
            views(all@) == job_uses(*doc, job@),
            first_known(views(all@), *config) == first_known(views(all@).skip(i as int), *config),
        decreases all@.len() - i,
    {
        assert(views(all@).skip(i as int)[0] == all@[i as int]@);
        assert(views(all@).skip(i as int).drop_first() =~= views(all@).skip(i + 1));
        match known_action_matches(all[i].as_str(), config) {
            Some(allowed) => {
                let mut out: Vec<String> = Vec::new();
                let mut k: usize = 0;
                assert(views(writes@).take(0) =~= Seq::<Seq<char>>::empty());
                assert(views(out@) =~= Seq::empty());
                while k < writes.len()
                    invariant
                        k <= writes@.len(),
                        views(out@) == without(views(writes@).take(k as int), strs_view(allowed@)),
                    decreases writes@.len() - k,
                {
                    let ghost before = views(out@);
                    assert(views(writes@).take(k + 1).drop_last() =~= views(writes@).take(k as int));
                    assert(views(writes@).take(k + 1).last() == writes@[k as int]@);
                    if !contains_str(&allowed, writes[k].as_str()) {
                        out.push(writes[k].clone());
                        assert(views(out@) =~= before.push(writes@[k as int]@));
                    } else {
                        assert(views(out@) =~= before + Seq::<Seq<char>>::empty());
                    }
                    k += 1;
                }
                assert(views(writes@).take(writes@.len() as int) =~= views(writes@));
                return out;
            },
            None => {},
        }
        i += 1;
    }
    assert(views(all@).skip(all@.len() as int) =~= Seq::<Seq<char>>::empty());
    clone_all(writes)
}

/// The finding for the workflow-level block: missing, `write-all`, or write scopes.
pub open spec fn top_finding(path: Seq<char>, doc: crate::support::yaml::Yaml) -> Seq<Seq<char>> {
    match top_permissions(doc) {
        Permissions::Missing => seq![path + ": missing permissions block"@],
        Permissions::WriteAll => seq![path + ": write-all"@],
        Permissions::Scoped(w) => if w.len() > 0 {
            seq![path + ": write scopes ["@ + join(w, ", "@) + "]"@]
        } else {
            seq![]
        },
        _ => seq![],
    }
}

/// The finding for one job's block: `write-all`, or the write scopes its
/// known action does not need.
pub open spec fn job_finding(
    path: Seq<char>,
    doc: crate::support::yaml::Yaml,
    job: (Seq<char>, Permissions),
    config: Config,
) -> Seq<Seq<char>> {
    match job.1 {
        Permissions::WriteAll => seq![path + ": job `"@ + job.0 + "` write-all"@],
        Permissions::Scoped(w) => if w.len() > 0 && reported_writes(doc, job.0, w, config).len()
            > 0 {
            seq![
                path + ": job `"@ + job.0 + "` write scopes ["@ + join(
                    reported_writes(doc, job.0, w, config),
                    ", "@,
                ) + "]"@,
            ]
        } else {
            seq![]
        },
        _ => seq![],
    }
}

/// A job whose write scopes are all needed by its known action.
pub open spec fn job_exempted(doc: crate::support::yaml::Yaml, job: (Seq<char>, Permissions), config: Config) -> bool {
    match job.1 {
        Permissions::Scoped(w) => w.len() > 0 && reported_writes(doc, job.0, w, config).len() == 0,
        _ => false,
    }
}

pub open spec fn jobs_findings(
    path: Seq<char>,
    doc: crate::support::yaml::Yaml,
    jobs: Seq<(Seq<char>, Permissions)>,
    config: Config,
) -> Seq<Seq<char>>
    decreases jobs.len(),
{
    if jobs.len() == 0 {
        seq![]
    } else {
        jobs_findings(path, doc, jobs.drop_last(), config) + job_finding(
            path,
            doc,
            jobs.last(),
            config,
        )
    }
}

pub open spec fn any_exempted(doc: crate::support::yaml::Yaml, jobs: Seq<(Seq<char>, Permissions)>, config: Config) -> bool {
    exists|j: int| 0 <= j < jobs.len() && #[trigger] job_exempted(doc, jobs[j], config)
}

/// All findings of one workflow: its own block first, then its jobs'.
pub open spec fn workflow_findings(wf: Workflow, config: Config) -> Seq<Seq<char>> {
    top_finding(wf.path@, wf.doc) + jobs_findings(wf.path@, wf.doc, job_permissions(wf.doc), config)
}

pub open spec fn all_findings(wfs: Seq<Workflow>, config: Config) -> Seq<Seq<char>>
    decreases wfs.len(),
{
    if wfs.len() == 0 {
        seq![]
    } else {
        all_findings(wfs.drop_last(), config) + workflow_findings(wfs.last(), config)
    }
}

/// Some job of some workflow had all its write scopes exempted.
pub open spec fn some_exempted(wfs: Seq<Workflow>, config: Config) -> bool {
    exists|i: int|
        0 <= i < wfs.len() && #[trigger] any_exempted(
            wfs[i].doc,
            job_permissions(wfs[i].doc),
            config,
        )
}

fn job_scopes_line(path: &String, job: &String, writes: &Vec<String>) -> (s: String)
    ensures
        s@ == path@ + ": job `"@ + job@ + "` write scopes ["@ + join(views(writes@), ", "@) + "]"@,
{
    let mut s = path.clone();
    s.append(": job `");
    s.append(job.as_str());
    s.append("` write scopes [");
    let joined = join_strings(writes, ", ");
    s.append(joined.as_str());
    s.append("]");
    s
}

fn workflow_findings_into(wf: &Workflow, config: &Config, findings: &mut Vec<String>) -> (exempted: bool)
    ensures
        views(final(findings)@) == views(old(findings)@) + workflow_findings(*wf, *config),
        exempted == any_exempted(wf.doc, job_permissions(wf.doc), *config),
{
    let ghost start = views(findings@);
    let top = top_level_permissions(&wf.doc);
    match &top {
        PermissionsBlock::Missing => {
            let mut f = wf.path.clone();
            f.append(": missing permissions block");
            findings.push(f);
        },
        PermissionsBlock::WriteAll => {
            let mut f = wf.path.clone();
            f.append(": write-all");
            findings.push(f);
        },
        PermissionsBlock::Scoped(writes) => {
            if writes.len() > 0 {
                let mut f = wf.path.clone();
                f.append(": write scopes [");
                let joined = join_strings(writes, ", ");
                f.append(joined.as_str());
                f.append("]");
                findings.push(f);
            }
        },
        _ => {},
    }
    assert(views(findings@) =~= start + top_finding(wf.path@, wf.doc));
    let ghost mid = views(findings@);
    let jobs = job_level_permissions(&wf.doc);
    let ghost jv = job_blocks_view(jobs@);
    let mut exempted = false;
    let mut i: usize = 0;
    assert(jv.take(0) =~= Seq::<(Seq<char>, Permissions)>::empty());
    assert(views(findings@) =~= mid + jobs_findings(wf.path@, wf.doc, jv.take(0), *config));
    while i < jobs.len()
        invariant
            i <= jobs@.len(),
            jv == job_blocks_view(jobs@),
            jv == job_permissions(wf.doc),
            views(findings@) == mid + jobs_findings(wf.path@, wf.doc, jv.take(i as int), *config),
            exempted == any_exempted(wf.doc, jv.take(i as int), *config),
        decreases jobs@.len() - i,
    {
        let ghost before = views(findings@);
        let job = &jobs[i].0;
        let block = &jobs[i].1;
        assert(jv[i as int] == (job@, block@));
        assert(jv.take(i + 1).drop_last() =~= jv.take(i as int));
        assert(jv.take(i + 1).last() == jv[i as int]);
        let mut this_exempt = false;
        match block {
            PermissionsBlock::WriteAll => {
                let mut f = wf.path.clone();
                f.append(": job `");
                f.append(job.as_str());
                f.append("` write-all");
                findings.push(f);
            },
            PermissionsBlock::Scoped(writes) => {
                if writes.len() > 0 {
                    let to_report = filter_job_writes(&wf.doc, job.as_str(), writes, config);
                    if to_report.len() > 0 {
                        findings.push(job_scopes_line(&wf.path, job, &to_report));
                    } else {
                        this_exempt = true;
                    }
                }
            },
            _ => {},
        }
        assert(views(findings@) =~= before + job_finding(wf.path@, wf.doc, jv[i as int], *config));
        assert(this_exempt == job_exempted(wf.doc, jv[i as int], *config));
        proof {
            let nt = jv.take(i + 1);
            if exempted {
                let w = choose|w: int|
                    0 <= w < jv.take(i as int).len() && #[trigger] job_exempted(
                        wf.doc,
                        jv.take(i as int)[w],
                        *config,
                    );
                assert(nt[w] == jv.take(i as int)[w]);
            }
            if this_exempt {
                assert(nt[i as int] == jv[i as int]);
            }
            if any_exempted(wf.doc, nt, *config) {
                let w = choose|w: int|
                    0 <= w < nt.len() && #[trigger] job_exempted(wf.doc, nt[w], *config);
                if w < i {
                    assert(nt[w] == jv.take(i as int)[w]);
                }
            }
        }
        exempted = exempted || this_exempt;
        i += 1;
    }
    assert(jv.take(jobs@.len() as int) =~= jv);
    assert(views(findings@) =~= start + workflow_findings(*wf, *config));
    exempted
}

fn findings_for_workflows(wfs: &Vec<Workflow>, config: &Config) -> (r: (Vec<String>, bool))
    ensures
        views(r.0@) == all_findings(wfs@, *config),
        r.1 == some_exempted(wfs@, *config),
{
    let mut findings: Vec<String> = Vec::new();
    let mut had_filtered_writes = false;
    let mut i: usize = 0;
    assert(wfs@.take(0) =~= Seq::<Workflow>::empty());
    assert(views(findings@) =~= Seq::empty());
    while i < wfs.len()
        invariant
            i <= wfs@.len(),
            views(findings@) == all_findings(wfs@.take(i as int), *config),
            had_filtered_writes == some_exempted(wfs@.take(i as int), *config),
        decreases wfs@.len() - i,
    {
        assert(wfs@.take(i + 1).drop_last() =~= wfs@.take(i as int));
        let e = workflow_findings_into(&wfs[i], config, &mut findings);
        proof {
            let nt = wfs@.take(i + 1);
            if had_filtered_writes {
                let w = choose|w: int|
                    0 <= w < wfs@.take(i as int).len() && #[trigger] any_exempted(
                        wfs@.take(i as int)[w].doc,
                        job_permissions(wfs@.take(i as int)[w].doc),
                        *config,
                    );
                assert(nt[w] == wfs@.take(i as int)[w]);
            }
            if e {
                assert(nt[i as int] == wfs@[i as int]);
            }
            if some_exempted(nt, *config) {
                let w = choose|w: int|
                    0 <= w < nt.len() && #[trigger] any_exempted(
                        nt[w].doc,
                        job_permissions(nt[w].doc),
                        *config,
                    );
                if w < i {
                    assert(nt[w] == wfs@.take(i as int)[w]);
                }
            }
        }
        had_filtered_writes = had_filtered_writes || e;
        i += 1;
    }
    assert(wfs@.take(wfs@.len() as int) =~= wfs@);
    (findings, had_filtered_writes)
}

/// Findings prefixed with their branch when several branches are tracked.
pub open spec fn prefixed(multi: bool, branch: Seq<char>, lines: Seq<Seq<char>>) -> Seq<Seq<char>> {
    if multi {
        lines.map_values(|l: Seq<char>| branch + ": "@ + l)
    } else {
        lines
    }
}

pub open spec fn branches_findings(
    multi: bool,
    per_branch: Seq<(String, Vec<Workflow>)>,
    config: Config,
) -> Seq<Seq<char>>
    decreases per_branch.len(),
{
    if per_branch.len() == 0 {
        seq![]
    } else {
        branches_findings(multi, per_branch.drop_last(), config) + prefixed(
            multi,
            per_branch.last().0@,
            all_findings(per_branch.last().1@, config),
        )
    }
}

pub open spec fn failing_branches(per_branch: Seq<(String, Vec<Workflow>)>, config: Config) -> Seq<
    Seq<char>,
>
    decreases per_branch.len(),
{
    if per_branch.len() == 0 {
        seq![]
    } else {
        let prev = failing_branches(per_branch.drop_last(), config);
        let name = per_branch.last().0@;
        if all_findings(per_branch.last().1@, config).len() > 0 && !prev.contains(name) {
            prev.push(name)
        } else {
            prev
        }
    }
}

/// Skipped without release branches or without workflows; otherwise fails
/// listing every finding (and the branches holding them), or passes.
pub open spec fn permissions_outcome(r: &RepoContext) -> OutcomeView {
    let per = r.workflows.per_branch@;
    if per.len() == 0 {
        skipped_empty("—"@, "repos, no workflows"@)
    } else if !r.workflows.any_workflows() {
        skipped_empty("N/A"@, "repos, no workflows"@)
    } else {
        let lines = branches_findings(per.len() > 1, per, r.config);
        if lines.len() > 0 {
            failed_on("✗"@, lines, failing_branches(per, r.config))
        } else {
            passed("✓"@)
        }
    }
}

pub fn repo_check(ctx: &RepoContext) -> (o: CheckOutcome)
    ensures
        o@ == permissions_outcome(ctx),
{
    if ctx.workflows.is_empty() {
        return CheckOutcome::skipped_no_data("—", "repos, no workflows");
    }
    if !ctx.workflows.has_any_workflows() {
        return CheckOutcome::skipped_no_data("N/A", "repos, no workflows");
    }
    let per = &ctx.workflows.per_branch;
    let multi = ctx.workflows.len() > 1;
    let mut all: Vec<String> = Vec::new();
    let mut failing: Vec<String> = Vec::new();
    let mut i: usize = 0;
    assert(per@.take(0) =~= Seq::<(String, Vec<Workflow>)>::empty());
    assert(views(all@) =~= Seq::empty());
    assert(views(failing@) =~= Seq::empty());
    while i < per.len()
        invariant
            i <= per@.len(),
            multi == (per@.len() > 1),
            views(all@) == branches_findings(multi, per@.take(i as int), ctx.config),
            views(failing@) == failing_branches(per@.take(i as int), ctx.config),
        decreases per@.len() - i,
    {
        let branch = &per[i].0;
        let (findings, _) = findings_for_workflows(&per[i].1, &ctx.config);
        assert(per@.take(i + 1).drop_last() =~= per@.take(i as int));
        assert(per@.take(i + 1).last() == per@[i as int]);
        let ghost fb_before = views(failing@);
        if findings.len() > 0 && !contains_string(&failing, branch) {
            failing.push(branch.clone());
            assert(views(failing@) =~= fb_before.push(branch@));
        }
        let ghost lines_before = views(all@);
        let mut k: usize = 0;
        while k < findings.len()
            invariant
                k <= findings@.len(),
                views(all@) == lines_before + prefixed(multi, branch@, views(findings@)).take(
                    k as int,
                ),
            decreases findings@.len() - k,
        {
            let ghost before = views(all@);
            let line = if multi {
                let mut l = branch.clone();
                l.append(": ");
                l.append(findings[k].as_str());
                l
            } else {
                findings[k].clone()
            };
            assert(prefixed(multi, branch@, views(findings@))[k as int] == line@);
            all.push(line);
            assert(views(all@) =~= before.push(line@));
            assert(views(all@) =~= lines_before + prefixed(multi, branch@, views(findings@)).take(
                k + 1,
            ));
            k += 1;
        }
        assert(prefixed(multi, branch@, views(findings@)).take(findings@.len() as int)
            =~= prefixed(multi, branch@, views(findings@)));
        i += 1;
    }
    assert(per@.take(per@.len() as int) =~= per@);
    if all.len() > 0 {
        return CheckOutcome::fail("✗").with_items(all).with_failing_branches(failing);
    }
    CheckOutcome::pass("✓")
}


/// The workflow-level block grants writes or is missing.
pub open spec fn top_bad(doc: crate::support::yaml::Yaml) -> bool {
    match top_permissions(doc) {
        Permissions::Missing => true,
        Permissions::WriteAll => true,
        Permissions::Scoped(w) => w.len() > 0,
        _ => false,
    }
}

/// A job grants `write-all`, or write scopes its known action does not need.
pub open spec fn job_bad(doc: crate::support::yaml::Yaml, job: (Seq<char>, Permissions), config: Config) -> bool {
    match job.1 {
        Permissions::WriteAll => true,
        Permissions::Scoped(w) => w.len() > 0 && reported_writes(doc, job.0, w, config).len() > 0,
        _ => false,
    }
}

pub open spec fn any_job_bad(doc: crate::support::yaml::Yaml, jobs: Seq<(Seq<char>, Permissions)>, config: Config) -> bool {
    exists|j: int| 0 <= j < jobs.len() && #[trigger] job_bad(doc, jobs[j], config)
}

/// A workflow that grants more than read access somewhere.
pub open spec fn workflow_bad(wf: Workflow, config: Config) -> bool {
    top_bad(wf.doc) || any_job_bad(wf.doc, job_permissions(wf.doc), config)
}

/// A workflow with a job whose write scopes are all exempted.
pub open spec fn workflow_exempt(wf: Workflow, config: Config) -> bool {
    any_exempted(wf.doc, job_permissions(wf.doc), config)
}

pub open spec fn count_bad(wfs: Seq<Workflow>, config: Config) -> nat
    decreases wfs.len(),
{
    if wfs.len() == 0 {
        0
    } else {
        count_bad(wfs.drop_last(), config) + if workflow_bad(wfs.last(), config) {
            1nat
        } else {
            0nat
        }
    }
}

pub open spec fn count_exempt(wfs: Seq<Workflow>, config: Config) -> nat
    decreases wfs.len(),
{
    if wfs.len() == 0 {
        0
    } else {
        count_exempt(wfs.drop_last(), config) + if workflow_exempt(wfs.last(), config) {
            1nat
        } else {
            0nat
        }
    }
}

/// Bad and exempted workflows of a repository, over all its release branches.
pub open spec fn repo_counts(per: Seq<(String, Vec<Workflow>)>, config: Config) -> (nat, nat)
    decreases per.len(),
{
    if per.len() == 0 {
        (0, 0)
    } else {
        let (b, e) = repo_counts(per.drop_last(), config);
        (b + count_bad(per.last().1@, config), e + count_exempt(per.last().1@, config))
    }
}

/// Over the repositories with workflows: how many there are, how many have
/// a bad workflow, how many bad workflows there are, and how many workflows
/// were exempted in repositories without a bad one.
pub open spec fn permissions_tally(repos: Seq<&RepoContext>) -> (nat, nat, nat, nat)
    decreases repos.len(),
{
    if repos.len() == 0 {
        (0, 0, 0, 0)
    } else {
        let (applicable, bad_repos, total_bad, exempted) = permissions_tally(repos.drop_last());
        let r = repos.last();
        if !r.workflows.any_workflows() {
            (applicable, bad_repos, total_bad, exempted)
        } else {
            let (rb, re) = repo_counts(r.workflows.per_branch@, r.config);
            (
                applicable + 1,
                if rb > 0 {
                    bad_repos + 1
                } else {
                    bad_repos
                },
                total_bad + rb,
                if re > 0 && rb == 0 {
                    exempted + re
                } else {
                    exempted
                },
            )
        }
    }
}

pub open spec fn workflows_word(n: nat) -> Seq<char> {
    if n == 1 {
        "workflow"@
    } else {
        "workflows"@
    }
}

pub open spec fn permissions_description(repos: Seq<&RepoContext>) -> Option<Seq<char>> {
    let (applicable, bad_repos, total_bad, exempted) = permissions_tally(repos);
    if applicable == 0 {
        None
    } else if total_bad == 0 {
        let base = "every workflow declares a read-only permissions block across all "@
            + count_repos(applicable) + " with workflows"@;
        if exempted > 0 {
            Some(
                base + " ("@ + decimal(exempted) + " "@ + workflows_word(exempted)
                    + " with known-action exemptions)"@,
            )
        } else {
            Some(base)
        }
    } else {
        let base = decimal(total_bad) + " "@ + workflows_word(total_bad)
            + " grant write or omit the permissions block across "@ + decimal_slash(
            bad_repos,
            applicable,
        ) + " "@ + repos_noun(applicable) + " with workflows"@;
        if exempted > 0 {
            Some(
                base + "; "@ + decimal(exempted) + " "@ + workflows_word(exempted)
                    + " exempted for known actions"@,
            )
        } else {
            Some(base)
        }
    }
}

/// Every workflow of every repository, over all release branches.
pub open spec fn workflows_all(repos: Seq<&RepoContext>) -> nat
    decreases repos.len(),
{
    if repos.len() == 0 {
        0
    } else {
        workflows_all(repos.drop_last()) + workflows_on(repos.last().workflows.per_branch@)
    }
}

pub open spec fn workflows_on(per: Seq<(String, Vec<Workflow>)>) -> nat
    decreases per.len(),
{
    if per.len() == 0 {
        0
    } else {
        workflows_on(per.drop_last()) + per.last().1@.len()
    }
}

proof fn lemma_counts_le(wfs: Seq<Workflow>, config: Config)
    ensures
        count_bad(wfs, config) <= wfs.len(),
        count_exempt(wfs, config) <= wfs.len(),
    decreases wfs.len(),
{
    if wfs.len() > 0 {
        lemma_counts_le(wfs.drop_last(), config);
    }
}

proof fn lemma_repo_counts_le(per: Seq<(String, Vec<Workflow>)>, config: Config)
    ensures
        repo_counts(per, config).0 <= workflows_on(per),
        repo_counts(per, config).1 <= workflows_on(per),
    decreases per.len(),
{
    if per.len() > 0 {
        lemma_repo_counts_le(per.drop_last(), config);
        lemma_counts_le(per.last().1@, config);
    }
}

proof fn lemma_tally_le(repos: Seq<&RepoContext>)
    ensures
        permissions_tally(repos).1 <= permissions_tally(repos).0 <= repos.len(),
        permissions_tally(repos).2 + permissions_tally(repos).3 <= workflows_all(repos),
    decreases repos.len(),
{
    if repos.len() > 0 {
        lemma_tally_le(repos.drop_last());
        let r = repos.last();
        lemma_repo_counts_le(r.workflows.per_branch@, r.config);
    }
}

proof fn lemma_workflows_all_prefix(repos: Seq<&RepoContext>, n: int)
    requires
        0 <= n <= repos.len(),
    ensures
        workflows_all(repos.take(n)) <= workflows_all(repos),
    decreases repos.len() - n,
{
    if n < repos.len() {
        assert(repos.take(n + 1).drop_last() =~= repos.take(n));
        lemma_workflows_all_prefix(repos, n + 1);
    } else {
        assert(repos.take(n) =~= repos);
    }
}

proof fn lemma_workflows_on_prefix(per: Seq<(String, Vec<Workflow>)>, n: int)
    requires
        0 <= n <= per.len(),
    ensures
        workflows_on(per.take(n)) <= workflows_on(per),
    decreases per.len() - n,
{
    if n < per.len() {
        assert(per.take(n + 1).drop_last() =~= per.take(n));
        lemma_workflows_on_prefix(per, n + 1);
    } else {
        assert(per.take(n) =~= per);
    }
}

fn workflow_flags(wf: &Workflow, config: &Config) -> (r: (bool, bool))
    ensures
        r.0 == workflow_bad(*wf, *config),
        r.1 == workflow_exempt(*wf, *config),
{
    let top_is_bad = match top_level_permissions(&wf.doc) {
        PermissionsBlock::Missing => true,
        PermissionsBlock::WriteAll => true,
        PermissionsBlock::Scoped(w) => w.len() > 0,
        _ => false,
    };
    let jobs = job_level_permissions(&wf.doc);
    let ghost jv = job_blocks_view(jobs@);
    let mut bad = false;
    let mut exempted = false;
    let mut i: usize = 0;
    while i < jobs.len()
        invariant
            i <= jobs@.len(),
            jv == job_blocks_view(jobs@),
            jv == job_permissions(wf.doc),
            bad == any_job_bad(wf.doc, jv.take(i as int), *config),
            exempted == any_exempted(wf.doc, jv.take(i as int), *config),
        decreases jobs@.len() - i,
    {
        let job = &jobs[i].0;
        let block = &jobs[i].1;
        assert(jv[i as int] == (job@, block@));
        let (this_bad, this_exempt) = match block {
            PermissionsBlock::WriteAll => (true, false),
            PermissionsBlock::Scoped(w) => {
                if w.len() > 0 {
                    let remaining = filter_job_writes(&wf.doc, job.as_str(), w, config);
                    if remaining.len() == 0 {
                        (false, true)
                    } else {
                        (true, false)
                    }
                } else {
                    (false, false)
                }
            },
            _ => (false, false),
        };
        assert(this_bad == job_bad(wf.doc, jv[i as int], *config));
        assert(this_exempt == job_exempted(wf.doc, jv[i as int], *config));
        proof {
            let old_t = jv.take(i as int);
            let nt = jv.take(i + 1);
            assert(nt[i as int] == jv[i as int]);
            assert forall|w: int| 0 <= w < i implies nt[w] == old_t[w] by {}
            if any_job_bad(wf.doc, nt, *config) {
                let w = choose|w: int| 0 <= w < nt.len() && #[trigger] job_bad(wf.doc, nt[w], *config);
                if w < i {
                    assert(job_bad(wf.doc, old_t[w], *config));
                }
            }
            if bad {
                let w = choose|w: int| 0 <= w < old_t.len() && #[trigger] job_bad(wf.doc, old_t[w], *config);
                assert(job_bad(wf.doc, nt[w], *config));
            }
            if any_exempted(wf.doc, nt, *config) {
                let w = choose|w: int| 0 <= w < nt.len() && #[trigger] job_exempted(wf.doc, nt[w], *config);
                if w < i {
                    assert(job_exempted(wf.doc, old_t[w], *config));
                }
            }
            if exempted {
                let w = choose|w: int| 0 <= w < old_t.len() && #[trigger] job_exempted(wf.doc, old_t[w], *config);
                assert(job_exempted(wf.doc, nt[w], *config));
            }
        }
        bad = bad || this_bad;
        exempted = exempted || this_exempt;
        i += 1;
    }
    assert(jv.take(jobs@.len() as int) =~= jv);
    (top_is_bad || bad, exempted)
}

pub fn description(ctx: StateCtx<'_>) -> (r: Option<String>)
    requires
        workflows_all(ctx.repos@) <= usize::MAX,
    ensures
        opt_text(r) == permissions_description(ctx.repos@),
{
    let repos = ctx.repos;
    let mut total_bad: usize = 0;
    let mut bad_repos: usize = 0;
    let mut total_exempted_workflows: usize = 0;
    let mut applicable: usize = 0;
    let mut i: usize = 0;
    assert(repos@.take(0) =~= Seq::<&RepoContext>::empty());
    while i < repos.len()
        invariant
            i <= repos@.len(),
            workflows_all(repos@) <= usize::MAX,
            (applicable as nat, bad_repos as nat, total_bad as nat, total_exempted_workflows as nat)
                == permissions_tally(repos@.take(i as int)),
        decreases repos@.len() - i,
    {
        let r = repos[i];
        proof {
            assert(repos@.take(i + 1).drop_last() =~= repos@.take(i as int));
            assert(repos@.take(i + 1).last() == r);
            lemma_tally_le(repos@.take(i + 1));
            lemma_workflows_all_prefix(repos@, i + 1);
        }
        if r.workflows.has_any_workflows() {
            let per = &r.workflows.per_branch;
            let mut repo_bad: usize = 0;
            let mut repo_exempted: usize = 0;
            let mut j: usize = 0;
            assert(per@.take(0) =~= Seq::<(String, Vec<Workflow>)>::empty());
            proof {
                lemma_tally_le(repos@.take(i as int));
            }
            while j < per.len()
                invariant
                    j <= per@.len(),
                    (repo_bad as nat, repo_exempted as nat) == repo_counts(per@.take(j as int), r.config),
                    workflows_on(per@) <= usize::MAX,
                decreases per@.len() - j,
            {
                let wfs = &per[j].1;
                assert(per@.take(j + 1).drop_last() =~= per@.take(j as int));
                assert(per@.take(j + 1).last() == per@[j as int]);
                proof {
                    lemma_workflows_on_prefix(per@, j + 1);
                    lemma_repo_counts_le(per@.take(j + 1), r.config);
                }
                let mut k: usize = 0;
                assert(wfs@.take(0) =~= Seq::<Workflow>::empty());
                let ghost base_b = repo_bad;
                let ghost base_e = repo_exempted;
                while k < wfs.len()
                    invariant
                        k <= wfs@.len(),
                        repo_bad == base_b + count_bad(wfs@.take(k as int), r.config),
                        repo_exempted == base_e + count_exempt(wfs@.take(k as int), r.config),
                        base_b + count_bad(wfs@, r.config) <= usize::MAX,
                        base_e + count_exempt(wfs@, r.config) <= usize::MAX,
                    decreases wfs@.len() - k,
                {
                    assert(wfs@.take(k + 1).drop_last() =~= wfs@.take(k as int));
                    proof {
                        lemma_count_prefix(wfs@, k + 1, r.config);
                    }
                    let (b, e) = workflow_flags(&wfs[k], &r.config);
                    if b {
                        repo_bad += 1;
                    }
                    if e {
                        repo_exempted += 1;
                    }
                    k += 1;
                }
                assert(wfs@.take(wfs@.len() as int) =~= wfs@);
                j += 1;
            }
            assert(per@.take(per@.len() as int) =~= per@);
            applicable += 1;
            if repo_bad > 0 {
                bad_repos += 1;
                total_bad += repo_bad;
            }
            if repo_exempted > 0 && repo_bad == 0 {
                total_exempted_workflows += repo_exempted;
            }
        }
        i += 1;
    }
    assert(repos@.take(repos@.len() as int) =~= repos@);
    if applicable == 0 {
        return None;
    }
    if total_bad == 0 {
        let mut base = "every workflow declares a read-only permissions block across all ".to_owned();
        base.append(decimal_string(applicable).as_str());
        base.append(" ");
        base.append(repos_word(applicable));
        base.append(" with workflows");
        if total_exempted_workflows > 0 {
            base.append(" (");
            base.append(decimal_string(total_exempted_workflows).as_str());
            base.append(" ");
            base.append(noun(total_exempted_workflows, "workflow", "workflows"));
            base.append(" with known-action exemptions)");
        }
        Some(base)
    } else {
        let mut base = decimal_string(total_bad);
        base.append(" ");
        base.append(noun(total_bad, "workflow", "workflows"));
        base.append(" grant write or omit the permissions block across ");
        base.append(decimal_string(bad_repos).as_str());
        base.append("/");
        base.append(decimal_string(applicable).as_str());
        base.append(" ");
        base.append(repos_word(applicable));
        base.append(" with workflows");
        if total_exempted_workflows > 0 {
            base.append("; ");
            base.append(decimal_string(total_exempted_workflows).as_str());
            base.append(" ");
            base.append(noun(total_exempted_workflows, "workflow", "workflows"));
            base.append(" exempted for known actions");
        }
        Some(base)
    }
}

proof fn lemma_count_prefix(wfs: Seq<Workflow>, n: int, config: Config)
    requires
        0 <= n <= wfs.len(),
    ensures
        count_bad(wfs.take(n), config) <= count_bad(wfs, config),
        count_exempt(wfs.take(n), config) <= count_exempt(wfs, config),
    decreases wfs.len() - n,
{
    if n < wfs.len() {
        assert(wfs.take(n + 1).drop_last() =~= wfs.take(n));
        lemma_count_prefix(wfs, n + 1, config);
    } else {
        assert(wfs.take(n) =~= wfs);
    }
}

proof fn lemma_all_findings_nonempty(wfs: Seq<Workflow>, config: Config, w: int)
    requires
        0 <= w < wfs.len(),
        workflow_findings(wfs[w], config).len() > 0,
    ensures
        all_findings(wfs, config).len() > 0,
    decreases wfs.len(),
{
    if w < wfs.len() - 1 {
        assert(wfs.drop_last()[w] == wfs[w]);
        lemma_all_findings_nonempty(wfs.drop_last(), config, w);
    }
}

proof fn lemma_branches_findings_nonempty(
    multi: bool,
    per: Seq<(String, Vec<Workflow>)>,
    config: Config,
    b: int,
)
    requires
        0 <= b < per.len(),
        all_findings(per[b].1@, config).len() > 0,
    ensures
        branches_findings(multi, per, config).len() > 0,
    decreases per.len(),
{
    if b < per.len() - 1 {
        assert(per.drop_last()[b] == per[b]);
        lemma_branches_findings_nonempty(multi, per.drop_last(), config, b);
    } else {
        let lines = all_findings(per[b].1@, config);
        assert(prefixed(multi, per.last().0@, lines).len() == lines.len());
    }
}

/// A workflow without a top-level `permissions:` block, or with
/// `write-all`, gives every step full write access: on any tracked branch it
/// fails the check for its repository.
pub proof fn unrestricted_workflow_fails(r: RepoContext, b: int, w: int)
    requires
        0 <= b < r.workflows.per_branch@.len(),
        0 <= w < r.workflows.per_branch@[b].1@.len(),
        top_permissions(r.workflows.per_branch@[b].1@[w].doc) is Missing || top_permissions(
            r.workflows.per_branch@[b].1@[w].doc,
        ) is WriteAll,
    ensures
        permissions_outcome(&r).status == Status::Fail,
{
    let per = r.workflows.per_branch@;
    let wfs = per[b].1@;
    assert(per[b].1@.len() > 0);
    assert(r.workflows.any_workflows());
    assert(top_finding(wfs[w].path@, wfs[w].doc).len() > 0);
    assert(workflow_findings(wfs[w], r.config).len() > 0);
    lemma_all_findings_nonempty(wfs, r.config, w);
    lemma_branches_findings_nonempty(per.len() > 1, per, r.config, b);
}

/// No workflow in `wfs` grants more than read access.
pub open spec fn branch_sound(wfs: Seq<Workflow>, config: Config) -> bool {
    forall|w: int| 0 <= w < wfs.len() ==> !workflow_bad(#[trigger] wfs[w], config)
}

/// No workflow on any tracked branch of `r` grants more than read access.
pub open spec fn repo_sound(r: &RepoContext) -> bool {
    forall|b: int|
        0 <= b < r.workflows.per_branch@.len() ==> branch_sound(
            #[trigger] r.workflows.per_branch@[b].1@,
            r.config,
        )
}

/// How the description of the permissions check begins when every workflow
/// is read-only.
pub open spec fn read_only_opening() -> Seq<char> {
    "every workflow declares a read-only permissions block across all "@
}

proof fn lemma_count_bad_zero(wfs: Seq<Workflow>, config: Config)
    ensures
        count_bad(wfs, config) == 0 <==> branch_sound(wfs, config),
    decreases wfs.len(),
{
    if wfs.len() > 0 {
        let p = wfs.drop_last();
        lemma_count_bad_zero(p, config);
        assert forall|w: int| 0 <= w < p.len() implies p[w] == wfs[w] by {}
        if branch_sound(wfs, config) {
            assert(!workflow_bad(wfs[wfs.len() - 1], config));
            assert forall|w: int| 0 <= w < p.len() implies !workflow_bad(#[trigger] p[w], config) by {
                assert(p[w] == wfs[w]);
            }
        }
        if count_bad(wfs, config) == 0 {
            assert forall|w: int| 0 <= w < wfs.len() implies !workflow_bad(#[trigger] wfs[w], config) by {
                if w < p.len() {
                    assert(p[w] == wfs[w]);
                }
            }
        }
    }
}

proof fn lemma_repo_counts_zero(per: Seq<(String, Vec<Workflow>)>, config: Config)
    ensures
        repo_counts(per, config).0 == 0 <==> forall|b: int|
            0 <= b < per.len() ==> branch_sound(#[trigger] per[b].1@, config),
    decreases per.len(),
{
    if per.len() > 0 {
        let p = per.drop_last();
        lemma_repo_counts_zero(p, config);
        lemma_count_bad_zero(per.last().1@, config);
        if forall|b: int| 0 <= b < per.len() ==> branch_sound(#[trigger] per[b].1@, config) {
            assert(branch_sound(per[per.len() - 1].1@, config));
            assert forall|b: int| 0 <= b < p.len() implies branch_sound(#[trigger] p[b].1@, config) by {
                assert(p[b] == per[b]);
            }
        }
        if repo_counts(per, config).0 == 0 {
            assert forall|b: int| 0 <= b < per.len() implies branch_sound(#[trigger] per[b].1@, config) by {
                if b < p.len() {
                    assert(p[b] == per[b]);
                }
            }
        }
    }
}

proof fn lemma_idle_repo_sound(r: &RepoContext)
    requires
        !r.workflows.any_workflows(),
    ensures
        repo_sound(r),
{
    assert forall|b: int| 0 <= b < r.workflows.per_branch@.len() implies branch_sound(
        #[trigger] r.workflows.per_branch@[b].1@,
        r.config,
    ) by {
        assert(r.workflows.per_branch@[b].1@.len() == 0);
    }
}

proof fn lemma_tally_zero(repos: Seq<&RepoContext>)
    ensures
        permissions_tally(repos).0 == 0 <==> forall|i: int|
            0 <= i < repos.len() ==> !(#[trigger] repos[i]).workflows.any_workflows(),
        permissions_tally(repos).2 == 0 <==> forall|i: int|
            0 <= i < repos.len() ==> repo_sound(#[trigger] repos[i]),
    decreases repos.len(),
{
    if repos.len() > 0 {
        let p = repos.drop_last();
        let r = repos.last();
        lemma_tally_zero(p);
        lemma_repo_counts_zero(r.workflows.per_branch@, r.config);
        if !r.workflows.any_workflows() {
            lemma_idle_repo_sound(r);
        }
        assert forall|i: int| 0 <= i < p.len() implies p[i] == repos[i] by {}
        assert(repos[repos.len() - 1] == r);
        if forall|i: int| 0 <= i < repos.len() ==> repo_sound(#[trigger] repos[i]) {
            assert(repo_sound(repos[repos.len() - 1]));
            assert forall|i: int| 0 <= i < p.len() implies repo_sound(#[trigger] p[i]) by {
                assert(p[i] == repos[i]);
            }
        }
        if forall|i: int| 0 <= i < repos.len() ==> !(#[trigger] repos[i]).workflows.any_workflows() {
            assert(!repos[repos.len() - 1].workflows.any_workflows());
            assert forall|i: int| 0 <= i < p.len() implies !(#[trigger] p[i]).workflows.any_workflows() by {
                assert(p[i] == repos[i]);
            }
        }
        if permissions_tally(repos).2 == 0 {
            assert forall|i: int| 0 <= i < repos.len() implies repo_sound(#[trigger] repos[i]) by {
                if i < p.len() {
                    assert(p[i] == repos[i]);
                }
            }
        }
        if permissions_tally(repos).0 == 0 {
            assert forall|i: int| 0 <= i < repos.len() implies !(
            #[trigger] repos[i]).workflows.any_workflows() by {
                if i < p.len() {
                    assert(p[i] == repos[i]);
                }
            }
        }
    }
}

proof fn lemma_decimal_starts_with_digit(n: nat)
    ensures
        decimal(n).len() > 0,
        '0' <= decimal(n)[0] <= '9',
    decreases n,
{
    if n >= 10 {
        lemma_decimal_starts_with_digit(n / 10);
    }
}

/// The permissions check describes nothing exactly when no repository has
/// workflows; otherwise its description opens with "every workflow declares a
/// read-only permissions block across all …" exactly when no workflow on any
/// tracked branch lacks a permissions block or grants more than read access
/// (beyond what a known action needs).
pub proof fn permissions_description_reads_only_when_sound(repos: Seq<&RepoContext>)
    ensures
        permissions_description(repos) is None <==> forall|i: int|
            0 <= i < repos.len() ==> !(#[trigger] repos[i]).workflows.any_workflows(),
        permissions_description(repos) is Some ==> (read_only_opening().is_prefix_of(
            permissions_description(repos).unwrap(),
        ) <==> forall|i: int| 0 <= i < repos.len() ==> repo_sound(#[trigger] repos[i])),
{
    lemma_tally_zero(repos);
    reveal_strlit("every workflow declares a read-only permissions block across all ");
    let (applicable, bad_repos, total_bad, exempted) = permissions_tally(repos);
    if applicable > 0 {
        let d = permissions_description(repos).unwrap();
        let o = read_only_opening();
        if total_bad == 0 {
            assert(d.subrange(0, o.len() as int) =~= o);
        } else {
            lemma_decimal_starts_with_digit(total_bad);
            assert(d[0] == decimal(total_bad)[0]);
            assert(o[0] == 'e');
        }
    }
}

proof fn lemma_first_known_at(uses: Seq<Seq<char>>, config: Config, k: int)
    requires
        0 <= k <= uses.len(),
        forall|j: int| 0 <= j < k ==> #[trigger] known_matches(uses[j], config) is None,
    ensures
        first_known(uses, config) == first_known(uses.skip(k), config),
    decreases k,
{
    if k > 0 {
        assert(uses.drop_first().skip(k - 1) =~= uses.skip(k));
        assert forall|j: int| 0 <= j < k - 1 implies #[trigger] known_matches(
            uses.drop_first()[j],
            config,
        ) is None by {
            assert(uses.drop_first()[j] == uses[j + 1]);
        }
        assert(known_matches(uses[0], config) is None);
        lemma_first_known_at(uses.drop_first(), config, k - 1);
    } else {
        assert(uses.skip(0) =~= uses);
    }
}

/// The steps of a job grant their exemption by position: the first step
/// whose action has known write scopes decides, wherever it stands in the
/// job, and steps with unknown actions before it change nothing; with no
/// such step every job-level write is reported.
pub proof fn first_known_step_decides_exemption(
    doc: crate::support::yaml::Yaml,
    job: Seq<char>,
    writes: Seq<Seq<char>>,
    config: Config,
    k: int,
)
    ensures
        (0 <= k < job_uses(doc, job).len() && known_matches(job_uses(doc, job)[k], config) is Some
            && forall|j: int|
            0 <= j < k ==> #[trigger] known_matches(job_uses(doc, job)[j], config) is None)
            ==> reported_writes(doc, job, writes, config) == without(
            writes,
            known_matches(job_uses(doc, job)[k], config)->0,
        ),
        (forall|j: int|
            0 <= j < job_uses(doc, job).len() ==> #[trigger] known_matches(job_uses(doc, job)[j], config)
                is None) ==> reported_writes(doc, job, writes, config) == writes,
{
    let uses = job_uses(doc, job);
    if 0 <= k < uses.len() && known_matches(uses[k], config) is Some && forall|j: int|
        0 <= j < k ==> #[trigger] known_matches(uses[j], config) is None {
        lemma_first_known_at(uses, config, k);
        assert(uses.skip(k)[0] == uses[k]);
    }
    if forall|j: int| 0 <= j < uses.len() ==> #[trigger] known_matches(uses[j], config) is None {
        lemma_first_known_at(uses, config, uses.len() as int);
        assert(uses.skip(uses.len() as int).len() == 0);
    }
}

/// A step with an unknown action put in front of a job's steps never changes
/// which exemption applies.
pub proof fn unknown_step_in_front_changes_nothing(u: Seq<char>, uses: Seq<Seq<char>>, config: Config)
    requires
        known_matches(u, config) is None,
    ensures
        first_known(seq![u] + uses, config) == first_known(uses, config),
{
    assert((seq![u] + uses).drop_first() =~= uses);
}

/// Taking out the exempt scopes keeps exactly the writes that are not
/// exempt.
pub proof fn without_keeps_exactly_the_rest(writes: Seq<Seq<char>>, allowed: Seq<Seq<char>>)
    ensures
        forall|x: Seq<char>|
            #[trigger] without(writes, allowed).contains(x) <==> writes.contains(x) && !allowed.contains(x),
    decreases writes.len(),
{
    if writes.len() > 0 {
        let d = writes.drop_last();
        without_keeps_exactly_the_rest(d, allowed);
        assert forall|x: Seq<char>|
            #[trigger] without(writes, allowed).contains(x) <==> writes.contains(x) && !allowed.contains(x) by {
            let tail = if allowed.contains(writes.last()) {
                seq![]
            } else {
                seq![writes.last()]
            };
            assert(without(writes, allowed) == without(d, allowed) + tail);
            if without(writes, allowed).contains(x) {
                let i = choose|i: int| 0 <= i < without(writes, allowed).len() && without(writes, allowed)[i] == x;
                if i < without(d, allowed).len() {
                    assert(without(d, allowed).contains(x));
                    let j = choose|j: int| 0 <= j < d.len() && d[j] == x;
                    assert(writes[j] == x);
                } else {
                    assert(x == writes.last());
                    assert(writes[writes.len() - 1] == x);
                }
            }
            if writes.contains(x) && !allowed.contains(x) {
                let j = choose|j: int| 0 <= j < writes.len() && writes[j] == x;
                if j < writes.len() - 1 {
                    assert(d[j] == x);
                    assert(d.contains(x));
                    assert(without(d, allowed).contains(x));
                    let i = choose|i: int| 0 <= i < without(d, allowed).len() && without(d, allowed)[i] == x;
                    assert((without(d, allowed) + tail)[i] == x);
                } else {
                    assert(x == writes.last());
                    assert((without(d, allowed) + tail)[without(d, allowed).len() as int] == x);
                }
            }
        }
    }
}

} // verus!
