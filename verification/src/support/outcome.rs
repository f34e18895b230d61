//! The result of evaluating one check against one organization or repository.
use vstd::prelude::*;

use crate::text::views;

verus! {

/// The verdict of a check.
#[derive(Clone, Copy, Debug, PartialEq, Eq, Structural)]
pub enum Status {
    Pass,
    Fail,
    Warn,
    Skipped,
}

/// What a check reports: its verdict, a short summary, the detail lines and
/// the release branches that failed. A skipped outcome says why it was
/// skipped: the plan does not offer the feature, or there was nothing to
/// inspect (with a label naming what was missing).
pub struct CheckOutcome {
    pub status: Status,
    pub summary: String,
    pub items: Vec<String>,
    pub failing_branches: Vec<String>,
    pub no_data_label: Option<String>,
    pub plan_gated: bool,
}

/// A `CheckOutcome` seen as plain sequences of characters.
pub struct OutcomeView {
    pub status: Status,
    pub summary: Seq<char>,
    pub items: Seq<Seq<char>>,
    pub failing_branches: Seq<Seq<char>>,
    pub no_data_label: Option<Seq<char>>,
    pub plan_gated: bool,
}

pub open spec fn opt_view(o: Option<String>) -> Option<Seq<char>> {
    match o {
        Some(s) => Some(s@),
        None => None,
    }
}

impl View for CheckOutcome {
    type V = OutcomeView;

    open spec fn view(&self) -> OutcomeView {
        OutcomeView {
            status: self.status,
            summary: self.summary@,
            items: views(self.items@),
            failing_branches: views(self.failing_branches@),
            no_data_label: opt_view(self.no_data_label),
            plan_gated: self.plan_gated,
        }
    }
}

pub open spec fn passed(summary: Seq<char>) -> OutcomeView {
    OutcomeView {
        status: Status::Pass,
        summary,
        items: Seq::empty(),
        failing_branches: Seq::empty(),
        no_data_label: None,
        plan_gated: false,
    }
}

pub open spec fn failed(summary: Seq<char>, items: Seq<Seq<char>>) -> OutcomeView {
    OutcomeView {
        status: Status::Fail,
        summary,
        items,
        failing_branches: Seq::empty(),
        no_data_label: None,
        plan_gated: false,
    }
}

pub open spec fn failed_on(
    summary: Seq<char>,
    items: Seq<Seq<char>>,
    branches: Seq<Seq<char>>,
) -> OutcomeView {
    OutcomeView {
        status: Status::Fail,
        summary,
        items,
        failing_branches: branches,
        no_data_label: None,
        plan_gated: false,
    }
}

pub open spec fn skipped_plan(summary: Seq<char>) -> OutcomeView {
    OutcomeView {
        status: Status::Skipped,
        summary,
        items: Seq::empty(),
        failing_branches: Seq::empty(),
        no_data_label: None,
        plan_gated: true,
    }
}

pub open spec fn skipped_empty(summary: Seq<char>, label: Seq<char>) -> OutcomeView {
    OutcomeView {
        status: Status::Skipped,
        summary,
        items: Seq::empty(),
        failing_branches: Seq::empty(),
        no_data_label: Some(label),
        plan_gated: false,
    }
}

impl CheckOutcome {
    pub fn pass(summary: &str) -> (o: Self)
        ensures
            o@ == passed(summary@),
    {
        let o = CheckOutcome {
            status: Status::Pass,
            summary: summary.to_owned(),
            items: Vec::new(),
            failing_branches: Vec::new(),
            no_data_label: None,
            plan_gated: false,
        };
        assert(views(o.items@) =~= Seq::empty());
        o
    }

    pub fn fail(summary: &str) -> (o: Self)
        ensures
            o@ == failed(summary@, Seq::empty()),
    {
        let o = CheckOutcome {
            status: Status::Fail,
            summary: summary.to_owned(),
            items: Vec::new(),
            failing_branches: Vec::new(),
            no_data_label: None,
            plan_gated: false,
        };
        assert(views(o.items@) =~= Seq::empty());
        o
    }

    pub fn skipped_plan_gated(summary: &str) -> (o: Self)
        ensures
            o@ == skipped_plan(summary@),
    {
        let o = CheckOutcome {
            status: Status::Skipped,
            summary: summary.to_owned(),
            items: Vec::new(),
            failing_branches: Vec::new(),
            no_data_label: None,
            plan_gated: true,
        };
        assert(views(o.items@) =~= Seq::empty());
        o
    }

    pub fn skipped_no_data(summary: &str, label: &str) -> (o: Self)
        ensures
            o@ == skipped_empty(summary@, label@),
    {
        let o = CheckOutcome {
            status: Status::Skipped,
            summary: summary.to_owned(),
            items: Vec::new(),
            failing_branches: Vec::new(),
            no_data_label: Some(label.to_owned()),
            plan_gated: false,
        };
        assert(views(o.items@) =~= Seq::empty());
        o
    }

    /// Replaces the detail lines.
    pub fn with_items(self, items: Vec<String>) -> (o: Self)
        ensures
            o@ == (OutcomeView { items: views(items@), ..self@ }),
    {
        CheckOutcome { items, ..self }
    }

    /// Replaces the list of failing release branches.
    pub fn with_failing_branches(self, branches: Vec<String>) -> (o: Self)
        ensures
            o@ == (OutcomeView { failing_branches: views(branches@), ..self@ }),
    {
        CheckOutcome { failing_branches: branches, ..self }
    }
}

} // verus!
