//! Helpers shared by the checks: wording, the "currently:" phrases of the
//! summaries, and the evaluation of webhooks.
use vstd::prelude::*;

use crate::checks::repo_context::{BranchProtectionState, RepoContext};
use crate::support::fetch::Fetch;
use crate::support::outcome::{failed, passed, skipped_plan, CheckOutcome, OutcomeView, Status};
use crate::text::{
    decimal, decimal_string, is_alnum, is_ascii_alphanumeric, lower, lower_char, starts_with,
    to_chars, views,
};

verus! {

pub fn noun<'a>(count: usize, singular: &'a str, plural: &'a str) -> (r: &'a str)
    ensures
        r == (if count == 1 {
            singular
        } else {
            plural
        }),
{
    if count == 1 {
        singular
    } else {
        plural
    }
}

/// The marker GitHub puts in the name of a temporary private fork for a
/// security advisory.
pub open spec fn has_marker_at(s: Seq<char>, i: int) -> bool {
    0 <= i && i + 6 <= s.len() && s.subrange(i, i + 6) == "-ghsa-"@
}

/// A bare advisory id: three groups of four ASCII alphanumeric characters
/// joined by `-` (what `id.split('-')` yields as exactly three 4-character
/// alphanumeric groups).
pub open spec fn is_advisory_id(id: Seq<char>) -> bool {
    &&& id.len() == 14
    &&& id[4] == '-'
    &&& id[9] == '-'
    &&& forall|k: int|
        0 <= k < 14 && k != 4 && k != 9 ==> is_ascii_alphanumeric(#[trigger] id[k])
}

/// The name of a temporary fork GitHub creates for a security advisory: the
/// part after the last `-ghsa-` (matched case-insensitively) is an advisory id.
pub open spec fn advisory_fork_name(name: Seq<char>) -> bool {
    exists|i: int|
        #[trigger] has_marker_at(lower(name), i) && (forall|j: int|
            i < j ==> !has_marker_at(lower(name), j)) && is_advisory_id(lower(name).skip(i + 6))
}

fn marker_at(ls: &Vec<char>, i: usize) -> (b: bool)
    requires
        i + 6 <= ls@.len(),
    ensures
        b == has_marker_at(ls@, i as int),
{
    let n = ls.len();
    let ok = ls[i] == '-' && ls[i + 1] == 'g' && ls[i + 2] == 'h' && ls[i + 3] == 's' && ls[i
        + 4] == 'a' && ls[i + 5] == '-';
    proof {
        reveal_strlit("-ghsa-");
        if ok {
            assert(ls@.subrange(i as int, i + 6) =~= "-ghsa-"@);
        } else if has_marker_at(ls@, i as int) {
            assert(ls@.subrange(i as int, i + 6)[0] == ls@[i as int]);
            assert(ls@.subrange(i as int, i + 6)[1] == ls@[i + 1]);
            assert(ls@.subrange(i as int, i + 6)[2] == ls@[i + 2]);
            assert(ls@.subrange(i as int, i + 6)[3] == ls@[i + 3]);
            assert(ls@.subrange(i as int, i + 6)[4] == ls@[i + 4]);
            assert(ls@.subrange(i as int, i + 6)[5] == ls@[i + 5]);
        }
    }
    ok
}

pub fn is_security_advisory_fork(name: &str) -> (b: bool)
    ensures
        b == advisory_fork_name(name@),
{
    // Take the segment after the last `-ghsa-` marker and confirm it is a bare
    // `xxxx-xxxx-xxxx` advisory id (three groups of four alphanumeric chars).
    let cs = to_chars(name);
    let mut ls: Vec<char> = Vec::new();
    let mut k: usize = 0;
    while k < cs.len()
        invariant
            k <= cs@.len(),
            ls@ == lower(cs@).take(k as int),
        decreases cs@.len() - k,
    {
        ls.push(lower_char(cs[k]));
        assert(ls@ =~= lower(cs@).take(k + 1));
        k += 1;
    }
    assert(ls@ =~= lower(name@));
    let n = ls.len();
    if n < 6 {
        assert forall|i: int| !has_marker_at(lower(name@), i) by {}
        return false;
    }
    // Search backwards for the last marker.
    let mut i: usize = n - 6;
    loop
        invariant
            n == ls@.len(),
            n >= 6,
            ls@ == lower(name@),
            i <= n - 6,
            forall|j: int| i < j ==> !has_marker_at(lower(name@), j),
        ensures
            i <= n - 6,
            has_marker_at(lower(name@), i as int),
            forall|j: int| i < j ==> !has_marker_at(lower(name@), j),
        decreases i,
    {
        if marker_at(&ls, i) {
            break;
        }
        if i == 0 {
            assert forall|j: int| !has_marker_at(lower(name@), j) by {
                if j == 0 {
                }
            }
            return false;
        }
        i -= 1;
    }
    let start = i + 6;
    let ghost id = lower(name@).skip(start as int);
    if n - start != 14 {
        assert(!is_advisory_id(id));
        assert forall|j: int|
            #[trigger] has_marker_at(lower(name@), j) && (forall|m: int|
                j < m ==> !has_marker_at(lower(name@), m)) implies !is_advisory_id(
            lower(name@).skip(j + 6),
        ) by {
            assert(j == i) by {
                if j < i {
                    assert(!has_marker_at(lower(name@), i as int));
                }
            }
        }
        return false;
    }
    let mut ok = ls[start + 4] == '-' && ls[start + 9] == '-';
    assert(ok == (id[4] == '-' && id[9] == '-'));
    let mut q: usize = 0;
    while q < 14
        invariant
            n == ls@.len(),
            start + 14 == n,
            ls@ == lower(name@),
            id == lower(name@).skip(start as int),
            q <= 14,
            ok == (id[4] == '-' && id[9] == '-' && forall|r: int|
                0 <= r < q && r != 4 && r != 9 ==> is_ascii_alphanumeric(#[trigger] id[r])),
        decreases 14 - q,
    {
        if q != 4 && q != 9 {
            assert(id[q as int] == ls@[start + q]);
            ok = ok && is_alnum(ls[start + q]);
        }
        q += 1;
    }
    assert(has_marker_at(lower(name@), i as int));
    if ok {
        assert(is_advisory_id(id));
    } else {
        assert(!is_advisory_id(id));
        assert forall|j: int|
            #[trigger] has_marker_at(lower(name@), j) && (forall|m: int|
                j < m ==> !has_marker_at(lower(name@), m)) implies !is_advisory_id(
            lower(name@).skip(j + 6),
        ) by {
            assert(j == i) by {
                if j < i {
                    assert(!has_marker_at(lower(name@), i as int));
                }
            }
        }
    }
    ok
}

/// "repository" for one, "repositories" otherwise.
pub open spec fn repos_noun(count: nat) -> Seq<char> {
    if count == 1 {
        "repository"@
    } else {
        "repositories"@
    }
}

pub fn repos_word(count: usize) -> (r: &'static str)
    ensures
        r@ == repos_noun(count as nat),
{
    if count == 1 {
        "repository"
    } else {
        "repositories"
    }
}

pub fn public_repos_word(count: usize) -> (r: &'static str)
    ensures
        r@ == (if count == 1 {
            "public repository"@
        } else {
            "public repositories"@
        }),
{
    if count == 1 {
        "public repository"
    } else {
        "public repositories"
    }
}

/// The message for a 403 / 404 that has no recovery: the token lacks a scope.
pub open spec fn permission_message(resource: Seq<char>, owner: Seq<char>, repo: Option<Seq<char>>) -> Seq<
    char,
> {
    let target = match repo {
        Some(r) => owner + "/"@ + r,
        None => owner,
    };
    "missing permission to read "@ + resource + " for `"@ + target
        + "` — check that your token has the required scopes (`admin:org`, `repo`, `workflow`) and that the account is an organization admin"@
}

pub open spec fn opt_str(o: Option<&str>) -> Option<Seq<char>> {
    match o {
        Some(s) => Some(s@),
        None => None,
    }
}

/// Build an error for the case where moat hit a 403 / 404 it doesn't know how
/// to recover from. `NoPermission` and `Unknown` states are not supposed to
/// reach the evaluation layer — when they do, we bail out so the operator can
/// fix their token scopes (or report a missing handler).
pub fn permission_error(resource: &str, owner: &str, repo: Option<&str>) -> (m: String)
    ensures
        m@ == permission_message(resource@, owner@, opt_str(repo)),
{
    let mut m = String::new();
    m.append("missing permission to read ");
    m.append(resource);
    m.append(" for `");
    m.append(owner);
    match repo {
        Some(r) => {
            m.append("/");
            m.append(r);
        },
        None => {},
    }
    m.append(
        "` — check that your token has the required scopes (`admin:org`, `repo`, `workflow`) and that the account is an organization admin",
    );
    m
}

#[derive(Clone, Copy, Debug, PartialEq, Eq, Structural)]
pub enum WorkflowTokenState {
    Read,
    Write,
}

#[derive(Clone, Copy, Debug, PartialEq, Eq, Structural)]
pub enum FeatureState {
    Enabled,
    Disabled,
    PlanGated,
}

pub open spec fn feature_outcome(s: FeatureState) -> OutcomeView {
    match s {
        FeatureState::Enabled => passed("✓"@),
        FeatureState::Disabled => failed("✗"@, seq![]),
        FeatureState::PlanGated => skipped_plan("N/A (plan)"@),
    }
}

impl FeatureState {
    pub fn to_outcome(&self) -> (o: CheckOutcome)
        ensures
            o@ == feature_outcome(*self),
    {
        match self {
            FeatureState::Enabled => CheckOutcome::pass("✓"),
            FeatureState::Disabled => CheckOutcome::fail("✗"),
            FeatureState::PlanGated => CheckOutcome::skipped_plan_gated("N/A (plan)"),
        }
    }
}

#[derive(Clone, Copy, PartialEq, Eq, Debug, Structural)]
pub enum FilePresence {
    Present,
    Absent,
}

#[derive(Clone)]
pub struct WebhookInfo {
    pub url: String,
    pub has_secret: bool,
}

/// How a webhook is named in findings: its URL, or `<unknown>` without one.
pub open spec fn hook_label(url: Seq<char>) -> Seq<char> {
    if url.len() == 0 {
        "<unknown>"@
    } else {
        url
    }
}

/// The findings for one webhook: not HTTPS, then no secret.
pub open spec fn hook_findings(h: WebhookInfo) -> Seq<Seq<char>> {
    (if !"https://"@.is_prefix_of(h.url@) {
        seq![hook_label(h.url@) + ": not HTTPS"@]
    } else {
        seq![]
    }) + (if !h.has_secret {
        seq![hook_label(h.url@) + ": no secret"@]
    } else {
        seq![]
    })
}

pub open spec fn hooks_findings(hooks: Seq<WebhookInfo>) -> Seq<Seq<char>>
    decreases hooks.len(),
{
    if hooks.len() == 0 {
        seq![]
    } else {
        hooks_findings(hooks.drop_last()) + hook_findings(hooks.last())
    }
}

/// No webhooks passes quietly; otherwise every webhook must use HTTPS and a
/// shared secret, and each shortfall is one finding.
pub open spec fn webhooks_outcome(hooks: Seq<WebhookInfo>) -> OutcomeView {
    if hooks.len() == 0 {
        passed("—"@)
    } else if hooks_findings(hooks).len() == 0 {
        passed("✓"@)
    } else {
        failed("✗"@, hooks_findings(hooks))
    }
}

pub fn evaluate_webhooks(hooks: &[WebhookInfo]) -> (o: CheckOutcome)
    ensures
        o@ == webhooks_outcome(hooks@),
{
    if hooks.len() == 0 {
        return CheckOutcome::pass("—");
    }
    let mut findings: Vec<String> = Vec::new();
    let mut i: usize = 0;
    assert(views(findings@) =~= hooks_findings(hooks@.take(0)));
    while i < hooks.len()
        invariant
            i <= hooks@.len(),
            views(findings@) == hooks_findings(hooks@.take(i as int)),
        decreases hooks@.len() - i,
    {
        let h = &hooks[i];
        let ghost before = views(findings@);
        let label: &str = if h.url.as_str().is_empty() {
            "<unknown>"
        } else {
            h.url.as_str()
        };
        assert(label@ == hook_label(h.url@));
        if !starts_with(h.url.as_str(), "https://") {
            let mut f = label.to_owned();
            f.append(": not HTTPS");
            findings.push(f);
        }
        if !h.has_secret {
            let mut f = label.to_owned();
            f.append(": no secret");
            findings.push(f);
        }
        assert(hooks@.take(i + 1).drop_last() =~= hooks@.take(i as int));
        assert(views(findings@) =~= before + hook_findings(hooks@[i as int]));
        i += 1;
    }
    assert(hooks@.take(hooks@.len() as int) =~= hooks@);
    if findings.len() == 0 {
        CheckOutcome::pass("✓")
    } else {
        CheckOutcome::fail("✗").with_items(findings)
    }
}

/// A collaborator's permissions on a repository.
pub struct CollaboratorPerms {
    pub admin: bool,
    pub maintain: bool,
    pub push: bool,
    pub triage: bool,
}

/// A direct collaborator of a repository.
pub struct CollaboratorEntry {
    pub login: String,
    pub permissions: CollaboratorPerms,
}

impl CollaboratorPerms {
    pub open spec fn more_than_read(&self) -> bool {
        self.admin || self.maintain || self.push || self.triage
    }

    pub fn is_more_than_read(&self) -> (b: bool)
        ensures
            b == self.more_than_read(),
    {
        self.admin || self.maintain || self.push || self.triage
    }
}


/// `<bad>/<total>`.
pub open spec fn decimal_slash(bad: nat, total: nat) -> Seq<char> {
    decimal(bad) + "/"@ + decimal(total)
}

/// `<n> repository` / `<n> repositories`.
pub open spec fn count_repos(n: nat) -> Seq<char> {
    decimal(n) + " "@ + repos_noun(n)
}

fn count_repos_string(n: usize) -> (s: String)
    ensures
        s@ == count_repos(n as nat),
{
    let mut s = decimal_string(n);
    s.append(" ");
    s.append(repos_word(n));
    s
}

/// Repositories whose feature state could be read (enabled or disabled).
pub open spec fn count_known(states: Seq<FeatureState>) -> nat
    decreases states.len(),
{
    if states.len() == 0 {
        0
    } else {
        count_known(states.drop_last()) + if states.last() is PlanGated {
            0nat
        } else {
            1nat
        }
    }
}

/// Repositories where the feature is disabled.
pub open spec fn count_off(states: Seq<FeatureState>) -> nat
    decreases states.len(),
{
    if states.len() == 0 {
        0
    } else {
        count_off(states.drop_last()) + if states.last() is Disabled {
            1nat
        } else {
            0nat
        }
    }
}

proof fn lemma_counts_bounded(states: Seq<FeatureState>)
    ensures
        count_off(states) <= count_known(states) <= states.len(),
    decreases states.len(),
{
    if states.len() > 0 {
        lemma_counts_bounded(states.drop_last());
    }
}

/// The "currently:" phrase for a feature with an org default and a per-repo
/// toggle, from each repository's state and whether the org default is off
/// (`None` when there is no org default to report).
pub open spec fn feature_phrase(feature: Seq<char>, states: Seq<FeatureState>, org_off: Option<bool>) -> Option<
    Seq<char>,
> {
    let total = count_known(states);
    let off = count_off(states);
    match org_off {
        Some(false) => if off == 0 && total > 0 {
            Some(feature + " is enabled by default and on all "@ + count_repos(total))
        } else {
            Some(feature + " is enabled by default org-wide, but "@ + count_repos(off) + " override it"@)
        },
        Some(true) => if off == 0 && total > 0 {
            Some(
                feature + " is not enabled by default for new repositories, but all "@ + count_repos(
                    total,
                ) + " have it enabled"@,
            )
        } else if off > 0 {
            Some(feature + " is not enabled by default; disabled on "@ + count_repos(off))
        } else {
            Some(feature + " is not enabled by default for new repositories"@)
        },
        None => if off == 0 && total > 0 {
            Some(feature + " is enabled on all "@ + count_repos(total))
        } else if off > 0 {
            Some(feature + " is disabled on "@ + count_repos(off))
        } else {
            None
        },
    }
}

pub open spec fn opt_text(o: Option<String>) -> Option<Seq<char>> {
    match o {
        Some(s) => Some(s@),
        None => None,
    }
}

fn cat2(a: &str, b: &str) -> (s: String)
    ensures
        s@ == a@ + b@,
{
    let mut s = a.to_owned();
    s.append(b);
    s
}

fn cat3(a: &str, b: &str, c: &str) -> (s: String)
    ensures
        s@ == a@ + b@ + c@,
{
    let mut s = a.to_owned();
    s.append(b);
    s.append(c);
    s
}

fn cat4(a: &str, b: &str, c: &str, d: &str) -> (s: String)
    ensures
        s@ == a@ + b@ + c@ + d@,
{
    let mut s = a.to_owned();
    s.append(b);
    s.append(c);
    s.append(d);
    s
}

/// Build a "currently:" phrase for a feature with both an org-default and a
/// per-repo toggle (e.g. secret scanning, push protection, dependabot alerts).
///
/// `feature` names the feature in user terms (e.g. "secret scanning").
/// `repo_state` returns the per-repo `FeatureState`. The denominator only
/// counts repos where the state is `Enabled` or `Disabled` — `PlanGated` maps
/// to a `Skipped` aggregate that the summary excludes too.
/// `org_off` returns true if the org default is *disabled* / not set.
pub fn feature_state_phrase<F>(
    feature: &str,
    repos: &[&RepoContext],
    repo_state: F,
    org_off: Option<bool>,
) -> (r: Option<String>) where F: Fn(&RepoContext) -> FeatureState
    requires
        forall|c: &RepoContext| repo_state.requires((c,)),
    ensures
        exists|states: Seq<FeatureState>|
            {
                &&& states.len() == repos@.len()
                &&& forall|i: int|
                    0 <= i < states.len() ==> repo_state.ensures((repos@[i],), #[trigger] states[i])
                &&& opt_text(r) == feature_phrase(feature@, states, org_off)
            },
{
    let ghost mut states: Seq<FeatureState> = Seq::empty();
    let mut total: usize = 0;
    let mut off: usize = 0;
    let mut i: usize = 0;
    while i < repos.len()
        invariant
            i <= repos@.len(),
            states.len() == i,
            forall|c: &RepoContext| repo_state.requires((c,)),
            forall|k: int|
                0 <= k < states.len() ==> repo_state.ensures((repos@[k],), #[trigger] states[k]),
            total == count_known(states),
            off == count_off(states),
        decreases repos@.len() - i,
    {
        let st = repo_state(repos[i]);
        proof {
            lemma_counts_bounded(states);
            let prev = states;
            states = states.push(st);
            assert(states.drop_last() =~= prev);
        }
        match st {
            FeatureState::Enabled => {
                total += 1;
            },
            FeatureState::Disabled => {
                total += 1;
                off += 1;
            },
            FeatureState::PlanGated => {},
        }
        i += 1;
    }
    let r = match org_off {
        Some(false) => if off == 0 && total > 0 {
            Some(cat2(feature, " is enabled by default and on all ").concat(count_repos_string(total).as_str()))
        } else {
            Some(
                cat4(
                    feature,
                    " is enabled by default org-wide, but ",
                    count_repos_string(off).as_str(),
                    " override it",
                ),
            )
        },
        Some(true) => if off == 0 && total > 0 {
            Some(
                cat4(
                    feature,
                    " is not enabled by default for new repositories, but all ",
                    count_repos_string(total).as_str(),
                    " have it enabled",
                ),
            )
        } else if off > 0 {
            Some(
                cat3(
                    feature,
                    " is not enabled by default; disabled on ",
                    count_repos_string(off).as_str(),
                ),
            )
        } else {
            Some(cat2(feature, " is not enabled by default for new repositories"))
        },
        None => if off == 0 && total > 0 {
            Some(cat3(feature, " is enabled on all ", count_repos_string(total).as_str()))
        } else if off > 0 {
            Some(cat3(feature, " is disabled on ", count_repos_string(off).as_str()))
        } else {
            None
        },
    };
    assert(opt_text(r) == feature_phrase(feature@, states, org_off));
    r
}

/// At least one release branch of the repository could be inspected.
pub open spec fn has_inspectable_branch(r: &RepoContext) -> bool {
    exists|j: int|
        0 <= j < r.branch_protections.branches@.len() && !(
        #[trigger] r.branch_protections.branches@[j].1 is PlanGated)
}

pub open spec fn count_inspectable(repos: Seq<&RepoContext>) -> nat
    decreases repos.len(),
{
    if repos.len() == 0 {
        0
    } else {
        count_inspectable(repos.drop_last()) + if has_inspectable_branch(repos.last()) {
            1nat
        } else {
            0nat
        }
    }
}

/// Number of repos with at least one release branch we could actually inspect
/// (state is `Protected` or `Unprotected`). Repos whose every release branch
/// came back `PlanGated` are excluded — they correspond to the `Skipped`
/// aggregates that the summary line subtracts from its denominator, so
/// descriptions sharing this denominator match the headline count.
pub fn inspectable_branch_protection_repos(repos: &[&RepoContext]) -> (n: usize)
    ensures
        n == count_inspectable(repos@),
{
    let mut n: usize = 0;
    let mut i: usize = 0;
    assert(repos@.take(0) =~= Seq::<&RepoContext>::empty());
    while i < repos.len()
        invariant
            i <= repos@.len(),
            n == count_inspectable(repos@.take(i as int)),
            n <= i,
        decreases repos@.len() - i,
    {
        let r = repos[i];
        let mut any = false;
        let mut j: usize = 0;
        while j < r.branch_protections.branches.len()
            invariant
                j <= r.branch_protections.branches@.len(),
                any == exists|q: int|
                    0 <= q < j && !(#[trigger] r.branch_protections.branches@[q].1 is PlanGated),
            decreases r.branch_protections.branches@.len() - j,
        {
            match r.branch_protections.branches[j].1 {
                BranchProtectionState::PlanGated => {},
                _ => {
                    any = true;
                },
            }
            j += 1;
        }
        assert(repos@.take(i + 1).drop_last() =~= repos@.take(i as int));
        assert(repos@.take(i + 1).last() == r);
        if any {
            n += 1;
        }
        i += 1;
    }
    assert(repos@.take(repos@.len() as int) =~= repos@);
    n
}

/// A branch fails a flag: the flag is unset, or (when the flag does not
/// apply) the branch is unprotected.
pub open spec fn branch_fails(state: BranchProtectionState, p: Option<bool>) -> bool {
    match p {
        Some(b) => !b,
        None => state is Unprotected,
    }
}

/// One of the branches examined fails.
pub open spec fn repo_missing(r: &RepoContext, picks: Seq<Option<bool>>) -> bool {
    exists|j: int|
        0 <= j < picks.len() && branch_fails(
            r.branch_protections.branches@[j].1,
            #[trigger] picks[j],
        )
}

pub open spec fn count_missing(repos: Seq<&RepoContext>, picks: Seq<Seq<Option<bool>>>) -> nat
    decreases repos.len(),
{
    if repos.len() == 0 || picks.len() == 0 {
        0
    } else {
        count_missing(repos.drop_last(), picks.drop_last()) + if repo_missing(
            repos.last(),
            picks.last(),
        ) {
            1nat
        } else {
            0nat
        }
    }
}

/// The flags read from one repository: in branch order, up to the first
/// failing branch or through all of them.
pub open spec fn picks_observed<F: Fn(&BranchProtectionState) -> Option<bool>>(
    pick: F,
    r: &RepoContext,
    picks: Seq<Option<bool>>,
) -> bool {
    &&& picks.len() <= r.branch_protections.branches@.len()
    &&& forall|j: int|
        0 <= j < picks.len() ==> pick.ensures(
            (&r.branch_protections.branches@[j].1,),
            #[trigger] picks[j],
        )
    &&& repo_missing(r, picks) || picks.len() == r.branch_protections.branches@.len()
}

/// Count repos where the chosen branch-protection flag is missing (false or
/// branch unprotected). Branches we can't inspect (PlanGated) are skipped.
pub fn count_repos_missing_branch_flag<F>(repos: &[&RepoContext], pick: F) -> (n: usize) where
    F: Fn(&BranchProtectionState) -> Option<bool>,

    requires
        forall|s: &BranchProtectionState| pick.requires((s,)),
    ensures
        exists|picks: Seq<Seq<Option<bool>>>|
            {
                &&& picks.len() == repos@.len()
                &&& forall|i: int|
                    0 <= i < picks.len() ==> picks_observed(pick, repos@[i], #[trigger] picks[i])
                &&& n == count_missing(repos@, picks)
            },
{
    let ghost mut picks: Seq<Seq<Option<bool>>> = Seq::empty();
    let mut count: usize = 0;
    let mut i: usize = 0;
    while i < repos.len()
        invariant
            i <= repos@.len(),
            picks.len() == i,
            forall|s: &BranchProtectionState| pick.requires((s,)),
            forall|k: int| 0 <= k < i ==> picks_observed(pick, repos@[k], #[trigger] picks[k]),
            count == count_missing(repos@.take(i as int), picks),
            count <= i,
        decreases repos@.len() - i,
    {
        let r = repos[i];
        let ghost mut seen: Seq<Option<bool>> = Seq::empty();
        let mut any_fail = false;
        let mut j: usize = 0;
        while j < r.branch_protections.branches.len()
            invariant_except_break
                seen.len() == j,
                forall|q: int|
                    0 <= q < j ==> pick.ensures(
                        (&r.branch_protections.branches@[q].1,),
                        #[trigger] seen[q],
                    ),
                !repo_missing(r, seen),
                !any_fail,
            invariant
                j <= r.branch_protections.branches@.len(),
                r == repos@[i as int],
                forall|s: &BranchProtectionState| pick.requires((s,)),
            ensures
                seen.len() <= r.branch_protections.branches@.len(),
                forall|q: int|
                    0 <= q < seen.len() ==> pick.ensures(
                        (&r.branch_protections.branches@[q].1,),
                        #[trigger] seen[q],
                    ),
                any_fail == repo_missing(r, seen),
                any_fail || seen.len() == r.branch_protections.branches@.len(),
            decreases r.branch_protections.branches@.len() - j,
        {
            let state = &r.branch_protections.branches[j].1;
            let p = pick(state);
            let fails = match p {
                Some(true) => false,
                Some(false) => true,
                None => match state {
                    BranchProtectionState::Unprotected => true,
                    _ => false,
                },
            };
            let ghost prev = seen;
            proof {
                seen = seen.push(p);
                assert(forall|q: int| 0 <= q < j ==> seen[q] == prev[q]);
                if !fails {
                    assert(!repo_missing(r, seen)) by {
                        if repo_missing(r, seen) {
                            let w = choose|w: int|
                                0 <= w < seen.len() && branch_fails(
                                    r.branch_protections.branches@[w].1,
                                    #[trigger] seen[w],
                                );
                            if w < j {
                                assert(branch_fails(r.branch_protections.branches@[w].1, prev[w]));
                            }
                        }
                    }
                } else {
                    assert(branch_fails(r.branch_protections.branches@[j as int].1, seen[j as int]));
                }
            }
            if fails {
                any_fail = true;
                break;
            }
            j += 1;
        }
        proof {
            let prev = picks;
            picks = picks.push(seen);
            assert(picks.drop_last() =~= prev);
            assert(repos@.take(i + 1).drop_last() =~= repos@.take(i as int));
            assert(repos@.take(i + 1).last() == r);
        }
        if any_fail {
            count += 1;
        }
        i += 1;
    }
    assert(repos@.take(repos@.len() as int) =~= repos@);
    count
}

/// The "currently:" phrase for a ruleset-style requirement, from the number
/// of repositories whose branches could be inspected, the number that leave
/// it off a release branch, and whether an org-level ruleset requires it.
pub open spec fn ruleset_phrase(feature: Seq<char>, total: nat, missing: nat, org_required: Option<bool>) -> Option<
    Seq<char>,
> {
    match org_required {
        Some(true) => if missing == 0 && total > 0 {
            Some(
                feature
                    + " is required by an org-level ruleset and enforced on every release branch across all "@
                    + count_repos(total),
            )
        } else {
            Some(
                feature + " is required by an org-level ruleset, but "@ + count_repos(missing)
                    + " override it on release branches"@,
            )
        },
        Some(false) => if missing == 0 && total > 0 {
            Some(
                feature
                    + " is not required by any org-level ruleset, though every release branch across "@
                    + count_repos(total) + " enforces it"@,
            )
        } else if missing > 0 {
            Some(
                feature + " is not required by any org-level ruleset; "@ + count_repos(missing)
                    + " leave release branches unprotected"@,
            )
        } else {
            Some(feature + " is not required by any org-level ruleset"@)
        },
        None => if missing == 0 && total > 0 {
            Some(feature + " is enforced on release branches across all "@ + count_repos(total))
        } else if missing > 0 {
            Some(
                count_repos(missing) + " leave release branches unprotected from "@ + feature
                    + "-related changes"@,
            )
        } else {
            None
        },
    }
}

/// Build a "currently:" phrase for a ruleset-style requirement (e.g. signed
/// commits, linear history, required reviews) where the org enforces it via a
/// ruleset and each repo enforces it via branch protection on release branches.
pub fn ruleset_state_phrase<F>(
    feature: &str,
    repos: &[&RepoContext],
    pick: F,
    org_required: Option<bool>,
) -> (r: Option<String>) where F: Fn(&BranchProtectionState) -> Option<bool>
    requires
        forall|s: &BranchProtectionState| pick.requires((s,)),
    ensures
        exists|picks: Seq<Seq<Option<bool>>>|
            {
                &&& picks.len() == repos@.len()
                &&& forall|i: int|
                    0 <= i < picks.len() ==> picks_observed(pick, repos@[i], #[trigger] picks[i])
                &&& opt_text(r) == ruleset_phrase(
                    feature@,
                    count_inspectable(repos@),
                    count_missing(repos@, picks),
                    org_required,
                )
            },
{
    let total = inspectable_branch_protection_repos(repos);
    let missing = count_repos_missing_branch_flag(repos, pick);
    match org_required {
        Some(true) => if missing == 0 && total > 0 {
            Some(
                cat3(
                    feature,
                    " is required by an org-level ruleset and enforced on every release branch across all ",
                    count_repos_string(total).as_str(),
                ),
            )
        } else {
            Some(
                cat4(
                    feature,
                    " is required by an org-level ruleset, but ",
                    count_repos_string(missing).as_str(),
                    " override it on release branches",
                ),
            )
        },
        Some(false) => if missing == 0 && total > 0 {
            Some(
                cat4(
                    feature,
                    " is not required by any org-level ruleset, though every release branch across ",
                    count_repos_string(total).as_str(),
                    " enforces it",
                ),
            )
        } else if missing > 0 {
            Some(
                cat4(
                    feature,
                    " is not required by any org-level ruleset; ",
                    count_repos_string(missing).as_str(),
                    " leave release branches unprotected",
                ),
            )
        } else {
            Some(cat2(feature, " is not required by any org-level ruleset"))
        },
        None => if missing == 0 && total > 0 {
            Some(
                cat3(
                    feature,
                    " is enforced on release branches across all ",
                    count_repos_string(total).as_str(),
                ),
            )
        } else if missing > 0 {
            Some(
                cat4(
                    count_repos_string(missing).as_str(),
                    " leave release branches unprotected from ",
                    feature,
                    "-related changes",
                ),
            )
        } else {
            None
        },
    }
}


/// The URL of a listed webhook, empty when the listing gives none.
pub open spec fn listed_url(url: Option<String>) -> Seq<char> {
    match url {
        Some(u) => u@,
        None => Seq::empty(),
    }
}

/// `h` is the webhook listed as `entry`: its URL and whether it has a secret.
pub open spec fn is_listed_hook(h: WebhookInfo, entry: (Option<String>, bool)) -> bool {
    h.url@ == listed_url(entry.0) && h.has_secret == entry.1
}

/// The webhooks of an owner or repository from the listing of them, each as
/// its URL and whether it carries a secret. A listing the token may not read
/// (it needs the narrower `admin:*_hook` scopes) or that does not exist
/// counts as no webhooks, so the check is not failed for a missing scope.
pub fn webhooks_from(listed: Fetch<Vec<(Option<String>, bool)>>) -> (hooks: Vec<WebhookInfo>)
    ensures
        match listed {
            Fetch::Found(v) => {
                &&& hooks@.len() == v@.len()
                &&& forall|i: int| 0 <= i < v@.len() ==> is_listed_hook(#[trigger] hooks@[i], v@[i])
            },
            _ => hooks@.len() == 0,
        },
{
    let mut hooks: Vec<WebhookInfo> = Vec::new();
    match listed {
        Fetch::Found(v) => {
            let mut i: usize = 0;
            while i < v.len()
                invariant
                    i <= v@.len(),
                    hooks@.len() == i,
                    forall|k: int| 0 <= k < i ==> is_listed_hook(#[trigger] hooks@[k], v@[k]),
                decreases v@.len() - i,
            {
                let url = match &v[i].0 {
                    Some(u) => u.clone(),
                    None => String::new(),
                };
                let has_secret = v[i].1;
                hooks.push(WebhookInfo { url, has_secret });
                i += 1;
            }
        },
        _ => {},
    }
    hooks
}

/// Where a repository's `SECURITY.md` may be, in the order GitHub looks.
pub fn security_md_paths() -> (paths: Vec<&'static str>)
    ensures
        paths@.len() == 3,
        paths@[0]@ == "SECURITY.md"@,
        paths@[1]@ == ".github/SECURITY.md"@,
        paths@[2]@ == "docs/SECURITY.md"@,
{
    let mut paths: Vec<&'static str> = Vec::new();
    paths.push("SECURITY.md");
    paths.push(".github/SECURITY.md");
    paths.push("docs/SECURITY.md");
    paths
}

/// Where a repository's `CODEOWNERS` may be, in the order GitHub looks.
pub fn codeowners_paths() -> (paths: Vec<&'static str>)
    ensures
        paths@.len() == 3,
        paths@[0]@ == "CODEOWNERS"@,
        paths@[1]@ == ".github/CODEOWNERS"@,
        paths@[2]@ == "docs/CODEOWNERS"@,
{
    let mut paths: Vec<&'static str> = Vec::new();
    paths.push("CODEOWNERS");
    paths.push(".github/CODEOWNERS");
    paths.push("docs/CODEOWNERS");
    paths
}

/// The outcome of looking for a file at candidate paths in turn, given the
/// answers for the paths probed: the first path found makes it present; a
/// refusal is a permission error about `resource`, or, when `resource` is
/// `None`, is passed over like a missing path; with every path missing the
/// file is absent.
pub open spec fn probed_presence(
    probes: Seq<Fetch<()>>,
    resource: Option<Seq<char>>,
    owner: Seq<char>,
    repo: Option<Seq<char>>,
) -> Result<FilePresence, Seq<char>>
    decreases probes.len(),
{
    if probes.len() == 0 {
        Ok(FilePresence::Absent)
    } else {
        match probes[0] {
            Fetch::Found(_) => Ok(FilePresence::Present),
            Fetch::Forbidden => match resource {
                Some(res) => Err(permission_message(res, owner, repo)),
                None => probed_presence(probes.drop_first(), resource, owner, repo),
            },
            Fetch::NotFound => probed_presence(probes.drop_first(), resource, owner, repo),
        }
    }
}

/// Decides the presence of a file from the answers for its candidate paths,
/// probed in order (`security_md_paths`, `codeowners_paths`). Answers after
/// the one that settles it are not read, so the caller may stop probing there.
pub fn presence_from_probes(
    probes: &[Fetch<()>],
    resource: Option<&str>,
    owner: &str,
    repo: Option<&str>,
) -> (r: Result<FilePresence, String>)
    ensures
        match r {
            Ok(p) => probed_presence(probes@, opt_str(resource), owner@, opt_str(repo)) == Ok::<
                FilePresence,
                Seq<char>,
            >(p),
            Err(m) => probed_presence(probes@, opt_str(resource), owner@, opt_str(repo)) == Err::<
                FilePresence,
                Seq<char>,
            >(m@),
        },
{
    let mut i: usize = 0;
    assert(probes@.skip(0) =~= probes@);
    while i < probes.len()
        invariant
            i <= probes@.len(),
            probed_presence(probes@, opt_str(resource), owner@, opt_str(repo)) == probed_presence(
                probes@.skip(i as int),
                opt_str(resource),
                owner@,
                opt_str(repo),
            ),
        decreases probes@.len() - i,
    {
        let ghost rest = probes@.skip(i as int);
        assert(rest[0] == probes@[i as int]);
        assert(rest.drop_first() =~= probes@.skip(i + 1));
        match &probes[i] {
            Fetch::Found(_) => {
                return Ok(FilePresence::Present);
            },
            Fetch::Forbidden => match resource {
                Some(res) => {
                    return Err(permission_error(res, owner, repo));
                },
                None => {},
            },
            Fetch::NotFound => {},
        }
        i += 1;
    }
    assert(probes@.skip(i as int) =~= Seq::<Fetch<()>>::empty());
    Ok(FilePresence::Absent)
}

/// A webhook is secure when it uses HTTPS and has a shared secret.
pub open spec fn secure_hook(h: WebhookInfo) -> bool {
    "https://"@.is_prefix_of(h.url@) && h.has_secret
}

proof fn lemma_hooks_findings_empty(hooks: Seq<WebhookInfo>)
    ensures
        hooks_findings(hooks).len() == 0 <==> forall|i: int|
            0 <= i < hooks.len() ==> secure_hook(#[trigger] hooks[i]),
    decreases hooks.len(),
{
    if hooks.len() > 0 {
        let p = hooks.drop_last();
        lemma_hooks_findings_empty(p);
        if hooks_findings(hooks).len() == 0 {
            assert forall|i: int| 0 <= i < hooks.len() implies secure_hook(#[trigger] hooks[i]) by {
                if i < p.len() {
                    assert(hooks[i] == p[i]);
                }
            }
        }
        if forall|i: int| 0 <= i < hooks.len() ==> secure_hook(#[trigger] hooks[i]) {
            assert forall|i: int| 0 <= i < p.len() implies secure_hook(#[trigger] p[i]) by {
                assert(hooks[i] == p[i]);
            }
            assert(secure_hook(hooks[hooks.len() - 1]));
        }
    }
}

/// The webhook check passes exactly when every webhook uses HTTPS and has a
/// secret (no webhooks at all passes too); otherwise it fails.
pub proof fn webhooks_pass_iff_all_secure(hooks: Seq<WebhookInfo>)
    ensures
        (webhooks_outcome(hooks).status == Status::Pass) <==> forall|i: int|
            0 <= i < hooks.len() ==> secure_hook(#[trigger] hooks[i]),
        webhooks_outcome(hooks).status == Status::Pass || webhooks_outcome(hooks).status
            == Status::Fail,
{
    lemma_hooks_findings_empty(hooks);
}

proof fn lemma_counts_insert_gated(states: Seq<FeatureState>, i: int)
    requires
        0 <= i <= states.len(),
    ensures
        count_known(states.insert(i, FeatureState::PlanGated)) == count_known(states),
        count_off(states.insert(i, FeatureState::PlanGated)) == count_off(states),
    decreases states.len(),
{
    let ins = states.insert(i, FeatureState::PlanGated);
    if i == states.len() {
        assert(ins.drop_last() =~= states);
    } else {
        assert(ins.drop_last() =~= states.drop_last().insert(i, FeatureState::PlanGated));
        assert(ins.last() == states.last());
        lemma_counts_insert_gated(states.drop_last(), i);
    }
}

proof fn lemma_off_le_known(states: Seq<FeatureState>)
    ensures
        count_off(states) <= count_known(states),
        count_known(states) == 0 <==> forall|k: int|
            0 <= k < states.len() ==> #[trigger] states[k] is PlanGated,
    decreases states.len(),
{
    if states.len() > 0 {
        let p = states.drop_last();
        lemma_off_le_known(p);
        assert forall|k: int| 0 <= k < p.len() implies p[k] == states[k] by {}
        if count_known(states) == 0 {
            assert forall|k: int| 0 <= k < states.len() implies #[trigger] states[k] is PlanGated by {
                if k < p.len() {
                    assert(p[k] == states[k]);
                }
            }
        }
        if forall|k: int| 0 <= k < states.len() ==> #[trigger] states[k] is PlanGated {
            assert(states[states.len() - 1] is PlanGated);
            assert forall|k: int| 0 <= k < p.len() implies #[trigger] p[k] is PlanGated by {
                assert(p[k] == states[k]);
            }
        }
    }
}

/// A repository whose feature is not offered by its plan does not change
/// the "currently:" phrase of a feature, wherever it is listed; and there is
/// no phrase exactly when the organization has no default and no repository
/// reports the feature on or off.
pub proof fn gated_repos_leave_feature_phrase(
    feature: Seq<char>,
    states: Seq<FeatureState>,
    org_off: Option<bool>,
    i: int,
)
    requires
        0 <= i <= states.len(),
    ensures
        feature_phrase(feature, states.insert(i, FeatureState::PlanGated), org_off)
            == feature_phrase(feature, states, org_off),
        feature_phrase(feature, states, org_off) is None <==> (org_off is None && forall|k: int|
            0 <= k < states.len() ==> #[trigger] states[k] is PlanGated),
{
    lemma_counts_insert_gated(states, i);
    lemma_off_le_known(states);
}

/// The ruleset phrase is absent exactly when the organization states no
/// ruleset and no repository can be inspected or misses the requirement;
/// with an organization ruleset that some repositories override, it names
/// how many.
pub proof fn ruleset_phrase_counts(
    feature: Seq<char>,
    total: nat,
    missing: nat,
    org_required: Option<bool>,
)
    ensures
        ruleset_phrase(feature, total, missing, org_required) is None <==> (org_required is None
            && missing == 0 && total == 0),
        org_required == Some(true) && missing > 0 ==> ruleset_phrase(
            feature,
            total,
            missing,
            org_required,
        ) == Some(
            feature + " is required by an org-level ruleset, but "@ + count_repos(missing)
                + " override it on release branches"@,
        ),
{
}

/// The counts of repositories never exceed the number of repositories, and a
/// repository whose every release branch needs a paid plan (or that has no
/// release branch) is never inspectable and, when its flags were not read,
/// never missing the requirement.
pub proof fn repo_counts_are_bounded(
    repos: Seq<&RepoContext>,
    picks: Seq<Seq<Option<bool>>>,
    r: &RepoContext,
    rp: Seq<Option<bool>>,
)
    ensures
        count_inspectable(repos) <= repos.len(),
        count_missing(repos, picks) <= repos.len(),
        (forall|j: int|
            0 <= j < r.branch_protections.branches@.len()
                ==> #[trigger] r.branch_protections.branches@[j].1 is PlanGated) ==> {
            &&& !has_inspectable_branch(r)
            &&& count_inspectable(repos.push(r)) == count_inspectable(repos)
            &&& ((forall|j: int| 0 <= j < rp.len() ==> #[trigger] rp[j] is None) && rp.len()
                <= r.branch_protections.branches@.len() ==> !repo_missing(r, rp))
        },
{
    lemma_counts_le_len(repos, picks);
    assert(repos.push(r).drop_last() =~= repos);
    if forall|j: int|
        0 <= j < r.branch_protections.branches@.len()
            ==> #[trigger] r.branch_protections.branches@[j].1 is PlanGated {
        if (forall|j: int| 0 <= j < rp.len() ==> #[trigger] rp[j] is None) && rp.len()
            <= r.branch_protections.branches@.len() {
            assert forall|j: int| 0 <= j < rp.len() implies !branch_fails(
                r.branch_protections.branches@[j].1,
                #[trigger] rp[j],
            ) by {
                assert(r.branch_protections.branches@[j].1 is PlanGated);
            }
        }
    }
}

proof fn lemma_counts_le_len(repos: Seq<&RepoContext>, picks: Seq<Seq<Option<bool>>>)
    ensures
        count_inspectable(repos) <= repos.len(),
        count_missing(repos, picks) <= repos.len(),
    decreases repos.len(),
{
    if repos.len() > 0 {
        lemma_counts_le_len(repos.drop_last(), if picks.len() > 0 {
            picks.drop_last()
        } else {
            picks
        });
    }
}

/// A repository with a release branch that does not meet a requirement is
/// counted as missing it: the flag read there is off, or the flag does not
/// apply and the branch is unprotected. So a repository with an unprotected
/// release branch is missing every requirement that the branch cannot show.
pub proof fn unprotected_release_branch_is_missing<F: Fn(&BranchProtectionState) -> Option<bool>>(
    pick: F,
    r: &RepoContext,
    picks: Seq<Option<bool>>,
    j: int,
)
    requires
        picks_observed(pick, r, picks),
        0 <= j < r.branch_protections.branches@.len(),
        r.branch_protections.branches@[j].1 is Unprotected,
        forall|v: Option<bool>|
            #[trigger] pick.ensures((&r.branch_protections.branches@[j].1,), v) ==> v != Some(true),
    ensures
        repo_missing(r, picks),
{
    if !repo_missing(r, picks) {
        assert(picks.len() == r.branch_protections.branches@.len());
        assert(pick.ensures((&r.branch_protections.branches@[j].1,), picks[j]));
        assert(branch_fails(r.branch_protections.branches@[j].1, picks[j]));
    }
}

/// Reading the flags of a repository's branches: a branch whose flag is off
/// makes the repository missing the requirement whatever its protection,
/// and a repository whose every flag read is on is not missing it.
pub proof fn flags_read_decide_missing(r: &RepoContext, picks: Seq<Option<bool>>, j: int)
    requires
        picks.len() <= r.branch_protections.branches@.len(),
    ensures
        0 <= j < picks.len() && picks[j] == Some(false) ==> repo_missing(r, picks),
        0 <= j < picks.len() && picks[j] is None && r.branch_protections.branches@[j].1 is Unprotected
            ==> repo_missing(r, picks),
        (forall|q: int| 0 <= q < picks.len() ==> #[trigger] picks[q] == Some(true)) ==> !repo_missing(
            r,
            picks,
        ),
{
    if 0 <= j < picks.len() {
        assert(picks[j] == Some(false) ==> branch_fails(r.branch_protections.branches@[j].1, picks[j]));
        assert(picks[j] is None && r.branch_protections.branches@[j].1 is Unprotected ==> branch_fails(
            r.branch_protections.branches@[j].1,
            picks[j],
        ));
    }
}

/// The count of repositories missing a requirement is the number of
/// repositories that miss it: all of them when each does, none when none
/// does.
pub proof fn missing_count_counts_repos(repos: Seq<&RepoContext>, picks: Seq<Seq<Option<bool>>>)
    requires
        picks.len() == repos.len(),
    ensures
        (forall|i: int| 0 <= i < repos.len() ==> repo_missing(#[trigger] repos[i], picks[i]))
            ==> count_missing(repos, picks) == repos.len(),
        (forall|i: int| 0 <= i < repos.len() ==> !repo_missing(#[trigger] repos[i], picks[i]))
            ==> count_missing(repos, picks) == 0,
    decreases repos.len(),
{
    if repos.len() > 0 {
        let (dr, dp) = (repos.drop_last(), picks.drop_last());
        missing_count_counts_repos(dr, dp);
        if forall|i: int| 0 <= i < repos.len() ==> repo_missing(#[trigger] repos[i], picks[i]) {
            assert forall|i: int| 0 <= i < dr.len() implies repo_missing(#[trigger] dr[i], dp[i]) by {
                assert(repo_missing(repos[i], picks[i]));
            }
            assert(repo_missing(repos[repos.len() - 1], picks[repos.len() - 1]));
        }
        if forall|i: int| 0 <= i < repos.len() ==> !repo_missing(#[trigger] repos[i], picks[i]) {
            assert forall|i: int| 0 <= i < dr.len() implies !repo_missing(#[trigger] dr[i], dp[i]) by {
                assert(!repo_missing(repos[i], picks[i]));
            }
            assert(!repo_missing(repos[repos.len() - 1], picks[repos.len() - 1]));
        }
    }
}

} // verus!
