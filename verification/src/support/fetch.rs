//! What a read of the GitHub API came back with, as the checks see it.
use vstd::prelude::*;

verus! {

/// The answer to a read that the plan never restricts.
pub enum Fetch<T> {
    /// The resource, as read.
    Found(T),
    /// 404: it does not exist (or is hidden from the token).
    NotFound,
    /// 403: the token may not read it.
    Forbidden,
}

/// The answer to a read that GitHub refuses on plans without the feature:
/// a 403 that names the plan is `PlanGated` rather than `Forbidden`.
pub enum Fetch403<T> {
    /// The resource, as read.
    Found(T),
    /// 404: it does not exist (or is hidden from the token).
    NotFound,
    /// 403: the token may not read it.
    Forbidden,
    /// 403: the account's plan does not offer it.
    PlanGated,
}

} // verus!
