//! What the checks read out of a repository's GitHub Actions workflow files.
use vstd::prelude::*;

use crate::checks::common::{permission_error, permission_message};
use crate::support::fetch::Fetch;
use crate::support::yaml::{as_text, get, is_key, lookup, parse_yaml, yaml_document, Yaml};
use crate::text::{views, ends_with_lower, contains_seq, lower, to_chars, contains_lower, str_eq, starts_with, is_ascii_hexdigit, is_hexdigit};

verus! {

/// One workflow file: its path in the repository and its parsed document.
pub struct Workflow {
    pub path: String,
    pub doc: Yaml,
}

/// Every `uses:` value of one mapping entry and below it.
pub open spec fn uses_in_entry(e: (Yaml, Yaml)) -> Seq<Seq<char>>
    decreases e, 1int,
{
    let here: Seq<Seq<char>> = match (e.0, e.1) {
        (Yaml::String(k), Yaml::String(v)) => if k@ == "uses"@ {
            seq![v@]
        } else {
            seq![]
        },
        _ => seq![],
    };
    here + uses_in(e.1)
}

/// Every `uses:` value in the entries of a mapping, in document order.
pub open spec fn uses_in_entries(m: Seq<(Yaml, Yaml)>) -> Seq<Seq<char>>
    decreases m, 0int,
{
    if m.len() == 0 {
        seq![]
    } else {
        uses_in_entries(m.drop_last()) + uses_in_entry(m.last())
    }
}

/// Every `uses:` value in the items of a sequence, in document order.
pub open spec fn uses_in_items(s: Seq<Yaml>) -> Seq<Seq<char>>
    decreases s, 0int,
{
    if s.len() == 0 {
        seq![]
    } else {
        uses_in_items(s.drop_last()) + uses_in(s.last())
    }
}

/// Every string value stored under a `uses` key anywhere in `v`, in
/// document order (depth first).
pub open spec fn uses_in(v: Yaml) -> Seq<Seq<char>>
    decreases v, 2int,
{
    match v {
        Yaml::Mapping(m) => uses_in_entries(m@),
        Yaml::Sequence(s) => uses_in_items(s@),
        _ => seq![],
    }
}


/// Recursively collect every `uses:` string value found in the workflow document.
pub fn collect_uses(doc: &Yaml) -> (out: Vec<String>)
    ensures
        views(out@) == uses_in(*doc),
{
    let mut out: Vec<String> = Vec::new();
    assert(views(out@) =~= Seq::empty());
    walk_uses(doc, &mut out);
    assert(views(out@) =~= uses_in(*doc));
    out
}

fn walk_uses(v: &Yaml, out: &mut Vec<String>)
    ensures
        views(final(out)@) == views(old(out)@) + uses_in(*v),
    decreases v,
{
    let ghost start = views(out@);
    match v {
        Yaml::Mapping(m) => {
            let mut i: usize = 0;
            assert(m@.take(0) =~= Seq::<(Yaml, Yaml)>::empty());
            assert(start =~= start + uses_in_entries(m@.take(0)));
            while i < m.len()
                invariant
                    i <= m@.len(),
                    *v == Yaml::Mapping(*m),
                    views(out@) == start + uses_in_entries(m@.take(i as int)),
                decreases m@.len() - i,
            {
                let ghost before = views(out@);
                let entry = &m[i];
                match (&entry.0, &entry.1) {
                    (Yaml::String(ks), Yaml::String(vs)) => {
                        if str_eq(ks.as_str(), "uses") {
                            out.push(vs.clone());
                            assert(views(out@) =~= before.push(vs@));
                        }
                    },
                    _ => {},
                }
                let ghost mid = views(out@);
                assert(mid == before + match (entry.0, entry.1) {
                    (Yaml::String(k), Yaml::String(val)) => if k@ == "uses"@ {
                        seq![val@]
                    } else {
                        seq![]
                    },
                    _ => seq![],
                });
                proof {
                    assert(decreases_to!(*v => (*v)->Mapping_0));
                    assert(decreases_to!((*v)->Mapping_0 => m@));
                    assert(decreases_to!(m@ => m@[i as int]));
                    assert(decreases_to!(m@[i as int] => m@[i as int].1));
                }
                walk_uses(&entry.1, out);
                assert(m@.take(i + 1).drop_last() =~= m@.take(i as int));
                assert(m@.take(i + 1).last() == m@[i as int]);
                assert(uses_in_entries(m@.take(i + 1)) == uses_in_entries(m@.take(i as int))
                    + uses_in_entry(m@[i as int]));
                assert(views(out@) =~= start + uses_in_entries(m@.take(i + 1)));
                i += 1;
            }
            assert(m@.take(m@.len() as int) =~= m@);
        },
        Yaml::Sequence(items) => {
            let mut i: usize = 0;
            assert(items@.take(0) =~= Seq::<Yaml>::empty());
            assert(start =~= start + uses_in_items(items@.take(0)));
            while i < items.len()
                invariant
                    i <= items@.len(),
                    *v == Yaml::Sequence(*items),
                    views(out@) == start + uses_in_items(items@.take(i as int)),
                decreases items@.len() - i,
            {
                proof {
                    assert(decreases_to!(*v => (*v)->Sequence_0));
                    assert(decreases_to!((*v)->Sequence_0 => items@));
                    assert(decreases_to!(items@ => items@[i as int]));
                }
                walk_uses(&items[i], out);
                assert(items@.take(i + 1).drop_last() =~= items@.take(i as int));
                assert(uses_in_items(items@.take(i + 1)) == uses_in_items(items@.take(i as int))
                    + uses_in(items@[i as int]));
                assert(views(out@) =~= start + uses_in_items(items@.take(i + 1)));
                i += 1;
            }
            assert(items@.take(items@.len() as int) =~= items@);
        },
        _ => {
            assert(views(out@) =~= start + uses_in(*v));
        },
    }
}


/// `s` names a pull request head: `pull_request.head` or `head_ref`, in any case.
pub open spec fn ref_untrusted(s: Seq<char>) -> bool {
    contains_seq(lower(s), "pull_request.head"@) || contains_seq(lower(s), "head_ref"@)
}

/// A `uses:` value that looks like a checkout action.
pub open spec fn looks_like_checkout(uses: Seq<char>) -> bool {
    contains_seq(lower(uses), "checkout@"@) || contains_seq(lower(uses), "/checkout/"@)
}

/// A `run:` script that checks out or fetches code.
pub open spec fn does_checkout(run: Seq<char>) -> bool {
    contains_seq(lower(run), "git checkout"@) || contains_seq(lower(run), "git fetch"@)
        || contains_seq(lower(run), "gh pr checkout"@)
}

/// The `ref` input of a step's `with:` block, when it is a string.
pub open spec fn with_ref(step: Seq<(Yaml, Yaml)>) -> Option<Seq<char>> {
    match lookup(step, "with"@) {
        Some(Yaml::Mapping(w)) => as_text(lookup(w@, "ref"@)),
        _ => None,
    }
}

/// A step that checks out the untrusted pull-request head: a checkout action
/// whose `with.ref` names the head, or a `run:` script that checks out or
/// fetches and names the head.
pub open spec fn step_untrusted(step: Seq<(Yaml, Yaml)>) -> bool {
    (match as_text(lookup(step, "uses"@)) {
        Some(u) => looks_like_checkout(u) && match with_ref(step) {
            Some(r) => ref_untrusted(r),
            None => false,
        },
        None => false,
    }) || (match as_text(lookup(step, "run"@)) {
        Some(run) => does_checkout(run) && ref_untrusted(run),
        None => false,
    })
}

pub open spec fn untrusted_in_entries(m: Seq<(Yaml, Yaml)>) -> bool
    decreases m, 0int,
{
    if m.len() == 0 {
        false
    } else {
        untrusted_in_entries(m.drop_last()) || untrusted_in(m.last().1)
    }
}

pub open spec fn untrusted_in_items(s: Seq<Yaml>) -> bool
    decreases s, 0int,
{
    if s.len() == 0 {
        false
    } else {
        untrusted_in_items(s.drop_last()) || untrusted_in(s.last())
    }
}

/// Some mapping anywhere in `v` is a step that checks out the untrusted head.
pub open spec fn untrusted_in(v: Yaml) -> bool
    decreases v, 1int,
{
    match v {
        Yaml::Mapping(m) => step_untrusted(m@) || untrusted_in_entries(m@),
        Yaml::Sequence(s) => untrusted_in_items(s@),
        _ => false,
    }
}

pub open spec fn owned(v: Option<&Yaml>) -> Option<Yaml> {
    match v {
        Some(y) => Some(*y),
        None => None,
    }
}

fn text_of(v: Option<&Yaml>) -> (r: Option<&String>)
    ensures
        match r {
            Some(s) => as_text(owned(v)) == Some(s@),
            None => as_text(owned(v)) is None,
        },
{
    match v {
        Some(Yaml::String(s)) => Some(s),
        _ => None,
    }
}

proof fn lemma_untrusted_entries_prefix(m: Seq<(Yaml, Yaml)>, n: int)
    requires
        0 <= n <= m.len(),
        untrusted_in_entries(m.take(n)),
    ensures
        untrusted_in_entries(m),
    decreases m.len() - n,
{
    if n < m.len() {
        assert(m.take(n + 1).drop_last() =~= m.take(n));
        lemma_untrusted_entries_prefix(m, n + 1);
    } else {
        assert(m.take(n) =~= m);
    }
}

proof fn lemma_untrusted_items_prefix(s: Seq<Yaml>, n: int)
    requires
        0 <= n <= s.len(),
        untrusted_in_items(s.take(n)),
    ensures
        untrusted_in_items(s),
    decreases s.len() - n,
{
    if n < s.len() {
        assert(s.take(n + 1).drop_last() =~= s.take(n));
        lemma_untrusted_items_prefix(s, n + 1);
    } else {
        assert(s.take(n) =~= s);
    }
}

fn ref_is_untrusted(s: &str) -> (b: bool)
    ensures
        b == ref_untrusted(s@),
{
    let cs = to_chars(s);
    contains_lower(&cs, &to_chars("pull_request.head")) || contains_lower(&cs, &to_chars("head_ref"))
}

fn step_is_untrusted_checkout(step: &Vec<(Yaml, Yaml)>) -> (b: bool)
    ensures
        b == step_untrusted(step@),
{
    let uses_untrusted = match text_of(get(step, "uses")) {
        Some(uses) => {
            let uc = to_chars(uses.as_str());
            let looks = contains_lower(&uc, &to_chars("checkout@")) || contains_lower(
                &uc,
                &to_chars("/checkout/"),
            );
            if looks {
                match get(step, "with") {
                    Some(Yaml::Mapping(with)) => match text_of(get(with, "ref")) {
                        Some(r) => ref_is_untrusted(r.as_str()),
                        None => false,
                    },
                    _ => false,
                }
            } else {
                false
            }
        },
        None => false,
    };
    if uses_untrusted {
        return true;
    }
    match text_of(get(step, "run")) {
        Some(run) => {
            let rc = to_chars(run.as_str());
            let checks_out = contains_lower(&rc, &to_chars("git checkout")) || contains_lower(
                &rc,
                &to_chars("git fetch"),
            ) || contains_lower(&rc, &to_chars("gh pr checkout"));
            checks_out && ref_is_untrusted(run.as_str())
        },
        None => false,
    }
}

/// Returns true if any step in the workflow uses `actions/checkout` with a `ref`
/// derived from the untrusted pull-request head (e.g. `github.event.pull_request.head.*`).
pub fn has_untrusted_checkout(doc: &Yaml) -> (b: bool)
    ensures
        b == untrusted_in(*doc),
{
    walk_checkout(doc)
}

fn walk_checkout(v: &Yaml) -> (found: bool)
    ensures
        found == untrusted_in(*v),
    decreases v,
{
    match v {
        Yaml::Mapping(m) => {
            if step_is_untrusted_checkout(m) {
                return true;
            }
            let mut i: usize = 0;
            while i < m.len()
                invariant
                    i <= m@.len(),
                    *v == Yaml::Mapping(*m),
                    !step_untrusted(m@),
                    !untrusted_in_entries(m@.take(i as int)),
                decreases m@.len() - i,
            {
                proof {
                    assert(decreases_to!(*v => (*v)->Mapping_0));
                    assert(decreases_to!((*v)->Mapping_0 => m@));
                    assert(decreases_to!(m@ => m@[i as int]));
                    assert(decreases_to!(m@[i as int] => m@[i as int].1));
                }
                assert(m@.take(i + 1).drop_last() =~= m@.take(i as int));
                if walk_checkout(&m[i].1) {
                    proof {
                        lemma_untrusted_entries_prefix(m@, i + 1);
                    }
                    return true;
                }
                i += 1;
            }
            assert(m@.take(m@.len() as int) =~= m@);
            false
        },
        Yaml::Sequence(items) => {
            let mut i: usize = 0;
            while i < items.len()
                invariant
                    i <= items@.len(),
                    *v == Yaml::Sequence(*items),
                    !untrusted_in_items(items@.take(i as int)),
                decreases items@.len() - i,
            {
                proof {
                    assert(decreases_to!(*v => (*v)->Sequence_0));
                    assert(decreases_to!((*v)->Sequence_0 => items@));
                    assert(decreases_to!(items@ => items@[i as int]));
                }
                assert(items@.take(i + 1).drop_last() =~= items@.take(i as int));
                if walk_checkout(&items[i]) {
                    proof {
                        lemma_untrusted_items_prefix(items@, i + 1);
                    }
                    return true;
                }
                i += 1;
            }
            assert(items@.take(items@.len() as int) =~= items@);
            false
        },
        _ => false,
    }
}

/// One of the items is the string `text`.
pub open spec fn has_string(items: Seq<Yaml>, text: Seq<char>) -> bool {
    exists|i: int| 0 <= i < items.len() && #[trigger] is_key(items[i], text)
}

/// The workflow is triggered by `pull_request_target`: `on:` is that string,
/// a sequence holding it, or a mapping with it as a key.
pub open spec fn triggers_pull_request_target(doc: Yaml) -> bool {
    match doc {
        Yaml::Mapping(top) => match lookup(top@, "on"@) {
            Some(Yaml::String(s)) => s@ == "pull_request_target"@,
            Some(Yaml::Sequence(items)) => has_string(items@, "pull_request_target"@),
            Some(Yaml::Mapping(m)) => lookup(m@, "pull_request_target"@) is Some,
            _ => false,
        },
        _ => false,
    }
}

/// True if the value at top level mentions `pull_request_target` as an `on:` trigger.
pub fn has_pull_request_target(doc: &Yaml) -> (b: bool)
    ensures
        b == triggers_pull_request_target(*doc),
{
    let top = match doc {
        Yaml::Mapping(top) => top,
        _ => {
            return false;
        },
    };
    let on = get(top, "on");
    match on {
        Some(Yaml::String(s)) => str_eq(s.as_str(), "pull_request_target"),
        Some(Yaml::Sequence(items)) => {
            let mut i: usize = 0;
            while i < items.len()
                invariant
                    i <= items@.len(),
                    *doc == Yaml::Mapping(*top),
                    lookup(top@, "on"@) == Some(Yaml::Sequence(*items)),
                    forall|k: int| 0 <= k < i ==> !is_key(#[trigger] items@[k], "pull_request_target"@),
                decreases items@.len() - i,
            {
                let hit = match &items[i] {
                    Yaml::String(s) => str_eq(s.as_str(), "pull_request_target"),
                    _ => false,
                };
                if hit {
                    assert(is_key(items@[i as int], "pull_request_target"@));
                    assert(has_string(items@, "pull_request_target"@));
                    return true;
                }
                i += 1;
            }
            false
        },
        Some(Yaml::Mapping(m)) => get(m, "pull_request_target").is_some(),
        _ => false,
    }
}


/// The steps of job `job`, when the document holds `jobs.<job>.steps` as a sequence.
pub open spec fn job_steps(doc: Yaml, job: Seq<char>) -> Option<Seq<Yaml>> {
    match doc {
        Yaml::Mapping(top) => match lookup(top@, "jobs"@) {
            Some(Yaml::Mapping(jobs)) => match lookup(jobs@, job) {
                Some(Yaml::Mapping(jm)) => match lookup(jm@, "steps"@) {
                    Some(Yaml::Sequence(steps)) => Some(steps@),
                    _ => None,
                },
                _ => None,
            },
            _ => None,
        },
        _ => None,
    }
}

/// The `uses:` string of a step, if it has one.
pub open spec fn step_uses(step: Yaml) -> Option<Seq<char>> {
    match step {
        Yaml::Mapping(m) => as_text(lookup(m@, "uses"@)),
        _ => None,
    }
}

/// The `uses:` strings of a list of steps, in order.
pub open spec fn steps_uses(steps: Seq<Yaml>) -> Seq<Seq<char>>
    decreases steps.len(),
{
    if steps.len() == 0 {
        seq![]
    } else {
        steps_uses(steps.drop_last()) + match step_uses(steps.last()) {
            Some(u) => seq![u],
            None => seq![],
        }
    }
}

/// The `uses:` strings of job `job`'s steps.
pub open spec fn job_uses(doc: Yaml, job: Seq<char>) -> Seq<Seq<char>> {
    match job_steps(doc, job) {
        Some(steps) => steps_uses(steps),
        None => seq![],
    }
}

fn find_job_steps<'a>(doc: &'a Yaml, job_name: &str) -> (r: Option<&'a Vec<Yaml>>)
    ensures
        match r {
            Some(steps) => job_steps(*doc, job_name@) == Some(steps@),
            None => job_steps(*doc, job_name@) is None,
        },
{
    let top = match doc {
        Yaml::Mapping(top) => top,
        _ => {
            return None;
        },
    };
    let jobs = match get(top, "jobs") {
        Some(Yaml::Mapping(jobs)) => jobs,
        _ => {
            return None;
        },
    };
    let jm = match get(jobs, job_name) {
        Some(Yaml::Mapping(jm)) => jm,
        _ => {
            return None;
        },
    };
    match get(jm, "steps") {
        Some(Yaml::Sequence(steps)) => Some(steps),
        _ => None,
    }
}

/// Collect every `uses:` value from the given job's steps.
pub fn job_action_uses(doc: &Yaml, job_name: &str) -> (out: Vec<String>)
    ensures
        views(out@) == job_uses(*doc, job_name@),
{
    let mut out: Vec<String> = Vec::new();
    let steps = match find_job_steps(doc, job_name) {
        Some(steps) => steps,
        None => {
            assert(views(out@) =~= Seq::empty());
            return out;
        },
    };
    let mut i: usize = 0;
    assert(steps@.take(0) =~= Seq::<Yaml>::empty());
    assert(views(out@) =~= steps_uses(steps@.take(0)));
    while i < steps.len()
        invariant
            i <= steps@.len(),
            views(out@) == steps_uses(steps@.take(i as int)),
        decreases steps@.len() - i,
    {
        let ghost before = views(out@);
        assert(steps@.take(i + 1).drop_last() =~= steps@.take(i as int));
        match &steps[i] {
            Yaml::Mapping(step_map) => match get(step_map, "uses") {
                Some(Yaml::String(uses)) => {
                    out.push(uses.clone());
                    assert(views(out@) =~= before.push(uses@));
                },
                _ => {},
            },
            _ => {},
        }
        assert(views(out@) =~= steps_uses(steps@.take(i + 1)));
        i += 1;
    }
    assert(steps@.take(steps@.len() as int) =~= steps@);
    out
}

/// Some step of job `job` has a `uses:` value starting with `prefix`.
pub open spec fn job_uses_prefixed(doc: Yaml, job: Seq<char>, prefix: Seq<char>) -> bool {
    exists|i: int|
        0 <= i < job_uses(doc, job).len() && prefix.is_prefix_of(#[trigger] job_uses(doc, job)[i])
}

pub fn job_uses_action(doc: &Yaml, job_name: &str, action_prefix: &str) -> (b: bool)
    ensures
        b == job_uses_prefixed(*doc, job_name@, action_prefix@),
{
    let all = job_action_uses(doc, job_name);
    let mut i: usize = 0;
    while i < all.len()
        invariant
            i <= all@.len(),
            views(all@) == job_uses(*doc, job_name@),
            forall|k: int| 0 <= k < i ==> !action_prefix@.is_prefix_of(#[trigger] job_uses(*doc, job_name@)[k]),
        decreases all@.len() - i,
    {
        if starts_with(all[i].as_str(), action_prefix) {
            assert(job_uses(*doc, job_name@)[i as int] == all@[i as int]@);
            return true;
        }
        assert(job_uses(*doc, job_name@)[i as int] == all@[i as int]@);
        i += 1;
    }
    false
}

/// How a `permissions:` block grants the workflow token.
pub enum PermissionsBlock {
    Missing,
    WriteAll,
    Scoped(Vec<String>),
    ReadAll,
    Empty,
}

/// A `PermissionsBlock` with its scopes as character sequences.
pub enum Permissions {
    Missing,
    WriteAll,
    Scoped(Seq<Seq<char>>),
    ReadAll,
    Empty,
}

impl View for PermissionsBlock {
    type V = Permissions;

    open spec fn view(&self) -> Permissions {
        match self {
            PermissionsBlock::Missing => Permissions::Missing,
            PermissionsBlock::WriteAll => Permissions::WriteAll,
            PermissionsBlock::Scoped(w) => Permissions::Scoped(views(w@)),
            PermissionsBlock::ReadAll => Permissions::ReadAll,
            PermissionsBlock::Empty => Permissions::Empty,
        }
    }
}

/// The scopes granted `write` in a `permissions:` mapping, in document order.
pub open spec fn write_scopes(m: Seq<(Yaml, Yaml)>) -> Seq<Seq<char>>
    decreases m.len(),
{
    if m.len() == 0 {
        seq![]
    } else {
        write_scopes(m.drop_last()) + match (m.last().0, m.last().1) {
            (Yaml::String(k), Yaml::String(v)) => if v@ == "write"@ {
                seq![k@]
            } else {
                seq![]
            },
            _ => seq![],
        }
    }
}

/// The classification of a `permissions:` value.
pub open spec fn classify(p: Yaml) -> Permissions {
    match p {
        Yaml::String(s) => if s@ == "write-all"@ {
            Permissions::WriteAll
        } else if s@ == "read-all"@ {
            Permissions::ReadAll
        } else {
            Permissions::Empty
        },
        Yaml::Mapping(m) => Permissions::Scoped(write_scopes(m@)),
        _ => Permissions::Empty,
    }
}

/// The workflow-level `permissions:` block.
pub open spec fn top_permissions(doc: Yaml) -> Permissions {
    match doc {
        Yaml::Mapping(top) => match lookup(top@, "permissions"@) {
            Some(p) => classify(p),
            None => Permissions::Missing,
        },
        _ => Permissions::Missing,
    }
}

/// The jobs (by name) that declare their own `permissions:`, in document order.
pub open spec fn job_permissions_of(jobs: Seq<(Yaml, Yaml)>) -> Seq<(Seq<char>, Permissions)>
    decreases jobs.len(),
{
    if jobs.len() == 0 {
        seq![]
    } else {
        job_permissions_of(jobs.drop_last()) + match (jobs.last().0, jobs.last().1) {
            (Yaml::String(name), Yaml::Mapping(jm)) => match lookup(jm@, "permissions"@) {
                Some(p) => seq![(name@, classify(p))],
                None => seq![],
            },
            _ => seq![],
        }
    }
}

pub open spec fn job_permissions(doc: Yaml) -> Seq<(Seq<char>, Permissions)> {
    match doc {
        Yaml::Mapping(top) => match lookup(top@, "jobs"@) {
            Some(Yaml::Mapping(jobs)) => job_permissions_of(jobs@),
            _ => seq![],
        },
        _ => seq![],
    }
}

pub open spec fn job_blocks_view(v: Seq<(String, PermissionsBlock)>) -> Seq<(Seq<char>, Permissions)> {
    v.map_values(|e: (String, PermissionsBlock)| (e.0@, e.1@))
}

fn parse_permissions(p: &Yaml) -> (b: PermissionsBlock)
    ensures
        b@ == classify(*p),
{
    match p {
        Yaml::String(s) => {
            if str_eq(s.as_str(), "write-all") {
                PermissionsBlock::WriteAll
            } else if str_eq(s.as_str(), "read-all") {
                PermissionsBlock::ReadAll
            } else {
                PermissionsBlock::Empty
            }
        },
        Yaml::Mapping(m) => {
            let mut writes: Vec<String> = Vec::new();
            let mut i: usize = 0;
            assert(m@.take(0) =~= Seq::<(Yaml, Yaml)>::empty());
            assert(views(writes@) =~= write_scopes(m@.take(0)));
            while i < m.len()
                invariant
                    i <= m@.len(),
                    views(writes@) == write_scopes(m@.take(i as int)),
                decreases m@.len() - i,
            {
                let ghost before = views(writes@);
                assert(m@.take(i + 1).drop_last() =~= m@.take(i as int));
                match (&m[i].0, &m[i].1) {
                    (Yaml::String(ks), Yaml::String(vs)) => {
                        if str_eq(vs.as_str(), "write") {
                            writes.push(ks.clone());
                            assert(views(writes@) =~= before.push(ks@));
                        }
                    },
                    _ => {},
                }
                assert(views(writes@) =~= write_scopes(m@.take(i + 1)));
                i += 1;
            }
            assert(m@.take(m@.len() as int) =~= m@);
            PermissionsBlock::Scoped(writes)
        },
        _ => PermissionsBlock::Empty,
    }
}

pub fn top_level_permissions(doc: &Yaml) -> (b: PermissionsBlock)
    ensures
        b@ == top_permissions(*doc),
{
    let top = match doc {
        Yaml::Mapping(top) => top,
        _ => {
            return PermissionsBlock::Missing;
        },
    };
    match get(top, "permissions") {
        Some(p) => parse_permissions(p),
        None => PermissionsBlock::Missing,
    }
}

/// Returns each job that declares its own `permissions:` block, paired with that
/// block's classification. Used to catch job-level writes that escalate beyond
/// a restrictive top-level grant.
pub fn job_level_permissions(doc: &Yaml) -> (out: Vec<(String, PermissionsBlock)>)
    ensures
        job_blocks_view(out@) == job_permissions(*doc),
{
    let mut out: Vec<(String, PermissionsBlock)> = Vec::new();
    assert(job_blocks_view(out@) =~= Seq::empty());
    let top = match doc {
        Yaml::Mapping(top) => top,
        _ => {
            return out;
        },
    };
    let jobs = match get(top, "jobs") {
        Some(Yaml::Mapping(jobs)) => jobs,
        _ => {
            return out;
        },
    };
    let mut i: usize = 0;
    assert(jobs@.take(0) =~= Seq::<(Yaml, Yaml)>::empty());
    while i < jobs.len()
        invariant
            i <= jobs@.len(),
            job_blocks_view(out@) == job_permissions_of(jobs@.take(i as int)),
        decreases jobs@.len() - i,
    {
        let ghost before = job_blocks_view(out@);
        assert(jobs@.take(i + 1).drop_last() =~= jobs@.take(i as int));
        match (&jobs[i].0, &jobs[i].1) {
            (Yaml::String(job_name), Yaml::Mapping(jm)) => match get(jm, "permissions") {
                Some(p) => {
                    let block = parse_permissions(p);
                    out.push((job_name.clone(), block));
                    assert(job_blocks_view(out@) =~= before.push((job_name@, classify(*p))));
                },
                None => {},
            },
            _ => {},
        }
        assert(job_blocks_view(out@) =~= job_permissions_of(jobs@.take(i + 1)));
        i += 1;
    }
    assert(jobs@.take(jobs@.len() as int) =~= jobs@);
    out
}

/// The ref after `@` is a full-length (40 character) hexadecimal commit SHA.
pub open spec fn is_sha(r: Seq<char>) -> bool {
    r.len() == 40 && forall|k: int| 0 <= k < r.len() ==> is_ascii_hexdigit(#[trigger] r[k])
}

/// A `uses:` value is pinned: a local (`./`) or docker (`docker://`) reference,
/// or one whose ref after the first `@` is a 40-character hexadecimal SHA.
pub open spec fn pinned(uses: Seq<char>) -> bool {
    "./"@.is_prefix_of(uses) || "docker://"@.is_prefix_of(uses) || exists|i: int|
        0 <= i < uses.len() && #[trigger] uses[i] == '@' && (forall|j: int|
            0 <= j < i ==> uses[j] != '@') && is_sha(uses.skip(i + 1))
}

/// A `uses:` value is "pinned" if its ref after `@` is a 40-char hex SHA.
/// Local workflow refs (starting with `./`) and docker refs (`docker://`) are exempt.
pub fn is_pinned(uses: &str) -> (b: bool)
    ensures
        b == pinned(uses@),
{
    if starts_with(uses, "./") || starts_with(uses, "docker://") {
        return true;
    }
    let cs = to_chars(uses);
    let n = cs.len();
    let mut at: usize = 0;
    while at < n && cs[at] != '@'
        invariant
            at <= n,
            n == cs@.len(),
            cs@ == uses@,
            forall|j: int| 0 <= j < at ==> cs@[j] != '@',
        decreases n - at,
    {
        at += 1;
    }
    if at == n {
        assert forall|i: int| 0 <= i < uses@.len() && #[trigger] uses@[i] == '@' implies !(forall|
            j: int,
        | 0 <= j < i ==> uses@[j] != '@') && is_sha(uses@.skip(i + 1)) by {}
        return false;
    }
    // `at` is the first '@'.
    let ghost reference = uses@.skip(at + 1);
    if n - (at + 1) != 40 {
        assert forall|i: int| 0 <= i < uses@.len() && #[trigger] uses@[i] == '@' && (forall|
            j: int,
        | 0 <= j < i ==> uses@[j] != '@') implies !is_sha(uses@.skip(i + 1)) by {
            assert(i == at);
        }
        return false;
    }
    let mut k: usize = at + 1;
    while k < n
        invariant
            at < n,
            k <= n,
            n == cs@.len(),
            cs@ == uses@,
            k >= at + 1,
            n - (at + 1) == 40,
            cs@[at as int] == '@',
            forall|j: int| 0 <= j < at ==> cs@[j] != '@',
            !"./"@.is_prefix_of(uses@),
            !"docker://"@.is_prefix_of(uses@),
            forall|j: int| at + 1 <= j < k ==> is_ascii_hexdigit(#[trigger] cs@[j]),
        decreases n - k,
    {
        if !is_hexdigit(cs[k]) {
            assert forall|i: int| 0 <= i < uses@.len() && #[trigger] uses@[i] == '@' && (forall|
                j: int,
            | 0 <= j < i ==> uses@[j] != '@') implies !is_sha(uses@.skip(i + 1)) by {
                assert(i == at);
                assert(uses@.skip(i + 1)[k - at - 1] == cs@[k as int]);
            }
            return false;
        }
        k += 1;
    }
    assert(is_sha(uses@.skip(at + 1)));
    assert(uses@[at as int] == '@');
    true
}

/// The release branches of a repository, each with the workflows found on it.
pub struct BranchedWorkflows {
    pub per_branch: Vec<(String, Vec<Workflow>)>,
}

impl BranchedWorkflows {
    pub fn empty() -> (b: Self)
        ensures
            b.per_branch@.len() == 0,
    {
        BranchedWorkflows { per_branch: Vec::new() }
    }

    pub fn is_empty(&self) -> (b: bool)
        ensures
            b == (self.per_branch@.len() == 0),
    {
        self.per_branch.len() == 0
    }

    pub fn len(&self) -> (n: usize)
        ensures
            n == self.per_branch@.len(),
    {
        self.per_branch.len()
    }

    /// Some release branch holds at least one workflow.
    pub open spec fn any_workflows(&self) -> bool {
        exists|i: int|
            0 <= i < self.per_branch@.len() && #[trigger] self.per_branch@[i].1@.len() > 0
    }

    pub fn has_any_workflows(&self) -> (b: bool)
        ensures
            b == self.any_workflows(),
    {
        let mut i: usize = 0;
        while i < self.per_branch.len()
            invariant
                i <= self.per_branch@.len(),
                forall|k: int| 0 <= k < i ==> #[trigger] self.per_branch@[k].1@.len() == 0,
            decreases self.per_branch@.len() - i,
        {
            if self.per_branch[i].1.len() > 0 {
                return true;
            }
            i += 1;
        }
        false
    }

    /// Release branches were listed, and none of them holds a workflow.
    pub fn all_branches_empty(&self) -> (b: bool)
        ensures
            b == (self.per_branch@.len() > 0 && !self.any_workflows()),
    {
        if self.per_branch.len() == 0 {
            return false;
        }
        !self.has_any_workflows()
    }
}

/// A directory entry that is a workflow file: a file whose name ends in
/// `.yml` or `.yaml`, in any case.
pub open spec fn workflow_file(kind: Seq<char>, name: Seq<char>) -> bool {
    kind == "file"@ && (".yml"@.is_suffix_of(lower(name)) || ".yaml"@.is_suffix_of(lower(name)))
}

/// Which entries of `.github/workflows` are read as workflows.
pub fn is_workflow_file(kind: &str, name: &str) -> (b: bool)
    ensures
        b == workflow_file(kind@, name@),
{
    if !str_eq(kind, "file") {
        return false;
    }
    let cs = to_chars(name);
    ends_with_lower(&cs, &to_chars(".yml")) || ends_with_lower(&cs, &to_chars(".yaml"))
}

/// An entry of a directory listing of the repository contents.
pub struct ContentEntry {
    pub name: String,
    pub path: String,
    pub kind: String,
}

/// The entries of the `.github/workflows` listing of a branch that are
/// workflow files, in listing order; a branch without the directory has
/// none, and a listing the token may not read is a permission error.
pub open spec fn workflow_candidates_of(
    listing: Fetch<Vec<ContentEntry>>,
    owner: Seq<char>,
    repo: Seq<char>,
    branch: Seq<char>,
) -> Result<Seq<ContentEntry>, Seq<char>> {
    match listing {
        Fetch::Found(v) => Ok(v@.filter(|e: ContentEntry| workflow_file(e.kind@, e.name@))),
        Fetch::NotFound => Ok(Seq::empty()),
        Fetch::Forbidden => Err(
            permission_message(".github/workflows on `"@ + branch + "`"@, owner, Some(repo)),
        ),
    }
}

pub fn workflow_candidates(
    listing: Fetch<Vec<ContentEntry>>,
    owner: &str,
    repo: &str,
    branch: &str,
) -> (r: Result<Vec<ContentEntry>, String>)
    ensures
        match r {
            Ok(v) => workflow_candidates_of(listing, owner@, repo@, branch@) == Ok::<
                Seq<ContentEntry>,
                Seq<char>,
            >(v@),
            Err(m) => workflow_candidates_of(listing, owner@, repo@, branch@) == Err::<
                Seq<ContentEntry>,
                Seq<char>,
            >(m@),
        },
{
    match listing {
        Fetch::Found(v) => {
            let ghost all = v@;
            let mut kept: Vec<ContentEntry> = Vec::new();
            let mut rest = v;
            let mut i: usize = 0;
            let n = rest.len();
            assert(all.take(0).filter(|e: ContentEntry| workflow_file(e.kind@, e.name@)) =~= Seq::<
                ContentEntry,
            >::empty());
            assert(all.skip(0) =~= all);
            while i < n
                invariant
                    n == all.len(),
                    i <= n,
                    rest@ == all.skip(i as int),
                    kept@ == all.take(i as int).filter(|e: ContentEntry| workflow_file(e.kind@, e.name@)),
                decreases n - i,
            {
                let e = rest.remove(0);
                assert(e == all[i as int]);
                assert(all.skip(i as int).drop_first() =~= all.skip(i + 1));
                assert(all.take(i + 1).drop_last() =~= all.take(i as int));
                let keep = is_workflow_file(e.kind.as_str(), e.name.as_str());
                proof {
                    assert(all.take(i + 1) =~= all.take(i as int).push(all[i as int]));
                    all.take(i as int).lemma_filter_push(
                        all[i as int],
                        |e: ContentEntry| workflow_file(e.kind@, e.name@),
                    );
                }
                if keep {
                    kept.push(e);
                }
                assert(kept@ =~= all.take(i + 1).filter(|e: ContentEntry| workflow_file(e.kind@, e.name@)));
                i += 1;
            }
            assert(all.take(n as int) =~= all);
            Ok(kept)
        },
        Fetch::NotFound => Ok(Vec::new()),
        Fetch::Forbidden => {
            let mut what = String::new();
            what.append(".github/workflows on `");
            what.append(branch);
            what.append("`");
            Err(permission_error(what.as_str(), owner, Some(repo)))
        },
    }
}

/// The workflows of a branch from its candidate files and what reading each
/// gave, in the same order (`Found(None)` for a file that is not valid
/// YAML): unreadable YAML and files gone missing are passed over, and the
/// first file the token may not read is a permission error.
pub open spec fn read_workflows(
    cands: Seq<ContentEntry>,
    raws: Seq<Fetch<Option<Yaml>>>,
    owner: Seq<char>,
    repo: Seq<char>,
) -> Result<Seq<(Seq<char>, Yaml)>, Seq<char>>
    decreases cands.len(),
{
    if cands.len() == 0 || raws.len() == 0 {
        Ok(Seq::empty())
    } else {
        let rest = read_workflows(cands.drop_first(), raws.drop_first(), owner, repo);
        match raws[0] {
            Fetch::Forbidden => Err(
                permission_message(
                    "workflow file `"@ + cands[0].path@ + "`"@,
                    owner,
                    Some(repo),
                ),
            ),
            Fetch::Found(Some(doc)) => match rest {
                Ok(ws) => Ok(seq![(cands[0].path@, doc)] + ws),
                Err(m) => Err(m),
            },
            _ => rest,
        }
    }
}

/// A workflow as its path and document.
pub open spec fn workflow_view(w: Workflow) -> (Seq<char>, Yaml) {
    (w.path@, w.doc)
}

/// `done` followed by what `rest` gives, or the error of `rest`.
pub open spec fn after(done: Seq<(Seq<char>, Yaml)>, rest: Result<Seq<(Seq<char>, Yaml)>, Seq<char>>) -> Result<
    Seq<(Seq<char>, Yaml)>,
    Seq<char>,
> {
    match rest {
        Ok(ws) => Ok(done + ws),
        Err(m) => Err(m),
    }
}

/// The workflows of a branch from its candidate files and each file's
/// document as read (`Found(None)` for text that is not valid YAML).
pub fn collect_parsed_workflows(
    cands: Vec<ContentEntry>,
    raws: Vec<Fetch<Option<Yaml>>>,
    owner: &str,
    repo: &str,
) -> (r: Result<Vec<Workflow>, String>)
    requires
        cands@.len() == raws@.len(),
    ensures
        match r {
            Ok(v) => read_workflows(cands@, raws@, owner@, repo@) == Ok::<
                Seq<(Seq<char>, Yaml)>,
                Seq<char>,
            >(v@.map_values(|w: Workflow| workflow_view(w))),
            Err(m) => read_workflows(cands@, raws@, owner@, repo@) == Err::<
                Seq<(Seq<char>, Yaml)>,
                Seq<char>,
            >(m@),
        },
{
    let ghost c0 = cands@;
    let ghost r0 = raws@;
    let n = cands.len();
    let mut cs = cands;
    let mut rs = raws;
    let mut out: Vec<Workflow> = Vec::new();
    let mut i: usize = 0;
    assert(c0.skip(0) =~= c0);
    assert(r0.skip(0) =~= r0);
    assert(out@.map_values(|w: Workflow| workflow_view(w)) =~= Seq::<(Seq<char>, Yaml)>::empty());
    while i < n
        invariant
            c0 == cands@,
            r0 == raws@,
            n == c0.len(),
            n == r0.len(),
            i <= n,
            cs@ == c0.skip(i as int),
            rs@ == r0.skip(i as int),
            read_workflows(c0, r0, owner@, repo@) == after(
                out@.map_values(|w: Workflow| workflow_view(w)),
                read_workflows(c0.skip(i as int), r0.skip(i as int), owner@, repo@),
            ),
        decreases n - i,
    {
        let c = cs.remove(0);
        let raw = rs.remove(0);
        let ghost done = out@.map_values(|w: Workflow| workflow_view(w));
        assert(c == c0[i as int]);
        assert(raw == r0[i as int]);
        assert(c0.skip(i as int).drop_first() =~= c0.skip(i + 1));
        assert(r0.skip(i as int).drop_first() =~= r0.skip(i + 1));
        assert(c0.skip(i as int)[0] == c0[i as int]);
        assert(r0.skip(i as int)[0] == r0[i as int]);
        match raw {
            Fetch::Forbidden => {
                assert(read_workflows(c0.skip(i as int), r0.skip(i as int), owner@, repo@) == Err::<
                    Seq<(Seq<char>, Yaml)>,
                    Seq<char>,
                >(permission_message("workflow file `"@ + c.path@ + "`"@, owner@, Some(repo@))));
                let mut what = String::new();
                what.append("workflow file `");
                what.append(c.path.as_str());
                what.append("`");
                let e = permission_error(what.as_str(), owner, Some(repo));
                assert(read_workflows(c0, r0, owner@, repo@) == Err::<
                    Seq<(Seq<char>, Yaml)>,
                    Seq<char>,
                >(e@));
                return Err(e);
            },
            Fetch::Found(Some(doc)) => {
                let ghost w = (c.path@, doc);
                out.push(Workflow { path: c.path, doc });
                assert(out@.map_values(|w: Workflow| workflow_view(w)) =~= done.push(w));
                assert forall|ws: Seq<(Seq<char>, Yaml)>| true implies done + (seq![w] + ws) =~= done.push(
                    w,
                ) + ws by {}
            },
            _ => {},
        }
        i += 1;
    }
    assert(c0.skip(n as int) =~= Seq::<ContentEntry>::empty());
    Ok(out)
}

/// The answers for the candidate files with each file's text read as YAML.
pub open spec fn parsed_reads(raws: Seq<Fetch<String>>) -> Seq<Fetch<Option<Yaml>>> {
    raws.map_values(
        |f: Fetch<String>|
            match f {
                Fetch::Found(t) => Fetch::Found(yaml_document(t@)),
                Fetch::NotFound => Fetch::NotFound,
                Fetch::Forbidden => Fetch::Forbidden,
            },
    )
}

/// The workflows of a branch from its candidate files and the text read for
/// each, in the same order: each text is parsed as YAML, text that is not
/// valid YAML and files gone missing are passed over, and the first file the
/// token may not read is a permission error.
pub fn collect_workflows(
    cands: Vec<ContentEntry>,
    raws: Vec<Fetch<String>>,
    owner: &str,
    repo: &str,
) -> (r: Result<Vec<Workflow>, String>)
    requires
        cands@.len() == raws@.len(),
    ensures
        match r {
            Ok(v) => read_workflows(cands@, parsed_reads(raws@), owner@, repo@) == Ok::<
                Seq<(Seq<char>, Yaml)>,
                Seq<char>,
            >(v@.map_values(|w: Workflow| workflow_view(w))),
            Err(m) => read_workflows(cands@, parsed_reads(raws@), owner@, repo@) == Err::<
                Seq<(Seq<char>, Yaml)>,
                Seq<char>,
            >(m@),
        },
{
    let ghost r0 = raws@;
    let n = raws.len();
    let mut rest = raws;
    let mut docs: Vec<Fetch<Option<Yaml>>> = Vec::new();
    let mut i: usize = 0;
    assert(r0.skip(0) =~= r0);
    while i < n
        invariant
            n == r0.len(),
            i <= n,
            rest@ == r0.skip(i as int),
            docs@ == parsed_reads(r0).take(i as int),
        decreases n - i,
    {
        let f = rest.remove(0);
        assert(f == r0[i as int]);
        assert(r0.skip(i as int).drop_first() =~= r0.skip(i + 1));
        let d = match f {
            Fetch::Found(t) => Fetch::Found(parse_yaml(t.as_str())),
            Fetch::NotFound => Fetch::NotFound,
            Fetch::Forbidden => Fetch::Forbidden,
        };
        docs.push(d);
        assert(docs@ =~= parsed_reads(r0).take(i + 1));
        i += 1;
    }
    assert(parsed_reads(r0).take(n as int) =~= parsed_reads(r0));
    collect_parsed_workflows(cands, docs, owner, repo)
}

proof fn lemma_untrusted_items_any(s: Seq<Yaml>)
    ensures
        untrusted_in_items(s) <==> exists|i: int| 0 <= i < s.len() && #[trigger] untrusted_in(s[i]),
    decreases s.len(),
{
    if s.len() > 0 {
        let d = s.drop_last();
        lemma_untrusted_items_any(d);
        if untrusted_in_items(d) {
            let i = choose|i: int| 0 <= i < d.len() && #[trigger] untrusted_in(d[i]);
            assert(s[i] == d[i]);
        }
        if untrusted_in(s.last()) {
            assert(untrusted_in(s[s.len() - 1]));
        }
        if exists|i: int| 0 <= i < s.len() && #[trigger] untrusted_in(s[i]) {
            let i = choose|i: int| 0 <= i < s.len() && #[trigger] untrusted_in(s[i]);
            if i < s.len() - 1 {
                assert(d[i] == s[i]);
            } else {
                assert(s[i] == s.last());
            }
        }
    }
}

proof fn lemma_untrusted_entries_any(m: Seq<(Yaml, Yaml)>)
    ensures
        untrusted_in_entries(m) <==> exists|i: int| 0 <= i < m.len() && #[trigger] untrusted_in(m[i].1),
    decreases m.len(),
{
    if m.len() > 0 {
        let d = m.drop_last();
        lemma_untrusted_entries_any(d);
        if untrusted_in_entries(d) {
            let i = choose|i: int| 0 <= i < d.len() && #[trigger] untrusted_in(d[i].1);
            assert(m[i] == d[i]);
        }
        if untrusted_in(m.last().1) {
            assert(untrusted_in(m[m.len() - 1].1));
        }
        if exists|i: int| 0 <= i < m.len() && #[trigger] untrusted_in(m[i].1) {
            let i = choose|i: int| 0 <= i < m.len() && #[trigger] untrusted_in(m[i].1);
            if i < m.len() - 1 {
                assert(d[i] == m[i]);
            } else {
                assert(m[i] == m.last());
            }
        }
    }
}

/// An untrusted checkout is found wherever it stands: a sequence is flagged
/// exactly when one of its items is, at any position, and a mapping exactly
/// when it is such a step itself or one of its values, under any key, is
/// flagged.
pub proof fn untrusted_checkout_found_anywhere(items: Vec<Yaml>, entries: Vec<(Yaml, Yaml)>)
    ensures
        untrusted_in(Yaml::Sequence(items)) <==> exists|i: int|
            0 <= i < items@.len() && #[trigger] untrusted_in(items@[i]),
        untrusted_in(Yaml::Mapping(entries)) <==> step_untrusted(entries@) || exists|i: int|
            0 <= i < entries@.len() && #[trigger] untrusted_in(entries@[i].1),
{
    lemma_untrusted_items_any(items@);
    lemma_untrusted_entries_any(entries@);
}

} // verus!
