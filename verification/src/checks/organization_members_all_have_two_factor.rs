//! Every organization member has two-factor authentication enabled.
use vstd::prelude::*;

use crate::checks::common::{noun, opt_text};
use crate::checks::org_context::OrgContext;
use crate::checks::StateCtx;
use crate::support::outcome::{failed, passed, CheckOutcome, OutcomeView};
use crate::text::{decimal, decimal_string, views};

verus! {

pub const LABEL: &'static str = "Organization members all have two factor";

pub const HOW_TO_FIX: &'static str = "https://github.com/orgs/{org}/people?query=two-factor%3Adisabled > Ask each listed member to enable 2FA on their GitHub account";

pub const WHY_ENABLE: &'static str = "The org-wide 2FA policy only covers members enrolled after it was turned on; anyone here predates it and remains the weakest unlocked door into the org.";

pub fn how_to_fix(_ctx: StateCtx<'_>) -> (s: &'static str)
    ensures
        s == HOW_TO_FIX,
{
    HOW_TO_FIX
}

/// Passes when every member has 2FA; otherwise fails listing the members without it.
pub open spec fn two_factor_outcome(org: &OrgContext) -> OutcomeView {
    let missing = views(org.members_without_2fa@);
    if missing.len() == 0 {
        passed("Every member has 2FA enabled"@)
    } else {
        failed(decimal(missing.len()) + " member(s) without 2FA enabled"@, missing)
    }
}

fn clone_strings(v: &Vec<String>) -> (c: Vec<String>)
    ensures
        views(c@) == views(v@),
{
    let mut c: Vec<String> = Vec::new();
    let mut i: usize = 0;
    while i < v.len()
        invariant
            i <= v@.len(),
            c@.len() == i,
            views(c@) == views(v@).take(i as int),
        decreases v@.len() - i,
    {
        let ghost before = c@;
        let s = v[i].clone();
        c.push(s);
        assert(c@ == before.push(s));
        assert(views(c@) =~= views(v@).take(i + 1));
        i += 1;
    }
    assert(views(v@).take(v@.len() as int) =~= views(v@));
    c
}

pub fn org_check(ctx: &OrgContext) -> (o: CheckOutcome)
    ensures
        o@ == two_factor_outcome(ctx),
{
    if ctx.members_without_2fa.len() == 0 {
        CheckOutcome::pass("Every member has 2FA enabled")
    } else {
        let mut summary = decimal_string(ctx.members_without_2fa.len());
        summary.append(" member(s) without 2FA enabled");
        CheckOutcome::fail(summary.as_str()).with_items(clone_strings(&ctx.members_without_2fa))
    }
}

pub open spec fn two_factor_description(org: Option<&OrgContext>) -> Option<Seq<char>> {
    match org {
        None => None,
        Some(o) => {
            let n = o.members_without_2fa@.len();
            if n == 0 {
                Some("every member has two-factor authentication enabled"@)
            } else {
                Some(
                    decimal(n) + " "@ + (if n == 1 {
                        "member"@
                    } else {
                        "members"@
                    }) + " can sign in without two-factor authentication"@,
                )
            }
        },
    }
}

pub fn description(ctx: StateCtx<'_>) -> (r: Option<String>)
    ensures
        opt_text(r) == two_factor_description(ctx.org),
{
    let org = match ctx.org {
        Some(o) => o,
        None => {
            return None;
        },
    };
    if org.members_without_2fa.len() == 0 {
        Some("every member has two-factor authentication enabled".to_owned())
    } else {
        let n = org.members_without_2fa.len();
        let mut s = decimal_string(n);
        s.append(" ");
        s.append(noun(n, "member", "members"));
        s.append(" can sign in without two-factor authentication");
        Some(s)
    }
}

} // verus!
