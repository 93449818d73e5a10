//! How far the whole campaign has come.
//!
//! Every version of the plan has an equal share of a hundred points. The
//! versions that are finished have earned theirs in full; the version that is
//! being installed adds the percentage of its running sub-step. The overall
//! percentage is the sum of these points divided by the number of shares; what
//! that is, as a real number, `overall` says.
//!
//! `aggregate` settles everything in that sum that is a whole number: whether
//! the campaign is over, the points earned and the number of shares. The step
//! that is left to the caller is to add the sub-step percentage and to divide,
//! in the arithmetic of its choice.

use crate::plan::{UpdatePlan, UpdatePlanView};
use crate::status::{UpdaterStatus, UpdaterStatusView};
use vstd::prelude::*;

verus! {

/// The points that one finished version earns.
pub const POINTS_PER_VERSION: u128 = 100;

/// The whole-number part of the overall percentage.
#[derive(Debug, Clone, Copy, PartialEq, Eq)]
pub enum Aggregate {
    /// The installed version is the target: the overall percentage is a full
    /// hundred, whatever the sub-step reports.
    Complete,
    /// The overall percentage is `(earned + p) / shares`, where `p` is the
    /// sub-step percentage.
    Partial {
        /// A hundred points for every finished version.
        earned: u128,
        /// The number of versions in the plan, and at least one.
        shares: usize,
    },
}

/// The mathematical value of an `Aggregate`.
pub enum AggregateView {
    Complete,
    Partial { earned: nat, shares: nat },
}

impl View for Aggregate {
    type V = AggregateView;

    open spec fn view(&self) -> AggregateView {
        match *self {
            Aggregate::Complete => AggregateView::Complete,
            Aggregate::Partial { earned, shares } => AggregateView::Partial {
                earned: earned as nat,
                shares: shares as nat,
            },
        }
    }
}

/// The points that the finished versions of a plan have earned.
pub open spec fn earned_points(plan: UpdatePlanView) -> nat {
    100 * plan.finished_count
}

/// The number by which the points are divided: the number of versions in the
/// plan, or one for a plan without versions.
pub open spec fn shares_of(plan: UpdatePlanView) -> nat {
    if plan.ordered_versions.len() == 0 {
        1
    } else {
        plan.ordered_versions.len()
    }
}

/// The aggregate that a status and a plan give.
pub open spec fn aggregate_of(status: UpdaterStatusView, plan: UpdatePlanView) -> AggregateView {
    if status.at_target() {
        AggregateView::Complete
    } else {
        AggregateView::Partial { earned: earned_points(plan), shares: shares_of(plan) }
    }
}

/// The overall percentage that an aggregate stands for when the sub-step
/// percentage is `sub_step`, as a real number.
pub open spec fn overall(whole: AggregateView, sub_step: real) -> real {
    match whole {
        AggregateView::Complete => 100 as real,
        AggregateView::Partial { earned, shares } => (earned as real + sub_step) / (shares as real),
    }
}

/// Once the installed version is the target, the aggregate is complete,
/// whatever the plan holds, and the overall percentage is a hundred, whatever
/// the sub-step reports; and the aggregate is complete in no other case.
pub proof fn lemma_complete_at_target(
    status: UpdaterStatusView,
    plan: UpdatePlanView,
    sub_step: real,
)
    ensures
        aggregate_of(status, plan) is Complete <==> (status.current_version is Some
            && status.current_version == status.target_version),
        status.at_target() ==> overall(aggregate_of(status, plan), sub_step) == 100 as real,
{
}

/// With the versions and the sub-step percentage held fixed, the overall
/// percentage never goes down as the finished count goes up.
pub proof fn lemma_overall_monotone(
    status: UpdaterStatusView,
    fewer: UpdatePlanView,
    more: UpdatePlanView,
    sub_step: real,
)
    requires
        fewer.ordered_versions == more.ordered_versions,
        fewer.finished_count <= more.finished_count,
    ensures
        overall(aggregate_of(status, fewer), sub_step) <= overall(
            aggregate_of(status, more),
            sub_step,
        ),
{
    if !status.at_target() {
        let shares = shares_of(fewer) as real;
        let low = earned_points(fewer) as real + sub_step;
        let high = earned_points(more) as real + sub_step;
        assert(shares == shares_of(more) as real);
        assert(low <= high);
        assert(shares >= 1 as real);
        assert(low / shares <= high / shares) by (nonlinear_arith)
            requires
                low <= high,
                shares >= 1 as real,
        ;
    }
}

/// A plan without versions earns nothing and has one share: the overall
/// percentage is then the sub-step percentage itself.
pub proof fn lemma_empty_plan(status: UpdaterStatusView, plan: UpdatePlanView, sub_step: real)
    requires
        plan.wf(),
        plan.ordered_versions.len() == 0,
        !status.at_target(),
    ensures
        aggregate_of(status, plan) == (AggregateView::Partial { earned: 0, shares: 1 }),
        overall(aggregate_of(status, plan), sub_step) == sub_step,
{
    assert((0 as real + sub_step) / (1 as real) == sub_step) by (nonlinear_arith);
}

/// The share count is never zero, and a well-formed plan has earned at most
/// a hundred points for each share.
pub proof fn lemma_shares_positive(plan: UpdatePlanView)
    ensures
        shares_of(plan) >= 1,
        plan.wf() ==> earned_points(plan) <= 100 * shares_of(plan),
{
}

/// Settles the whole-number part of the overall percentage.
pub fn aggregate(status: &UpdaterStatus, plan: &UpdatePlan) -> (overall: Aggregate)
    ensures
        overall@ == aggregate_of(status@, plan@),
        overall is Complete <==> status@.at_target(),
{
    if status.at_target() {
        Aggregate::Complete
    } else {
        let versions = plan.ordered_versions.len();
        let shares = if versions == 0 {
            1
        } else {
            versions
        };
        let earned = POINTS_PER_VERSION * (plan.finished_count as u128);
        Aggregate::Partial { earned, shares }
    }
}

} // verus!
