//! One poll cycle, from the three texts to everything that can be said of
//! them before numbers are read.
//!
//! A cycle needs the status text, the details text and the release manifest.
//! Each of them may be missing, and a missing text is never taken for an empty
//! one: the cycle then ends with the name of the first text that is missing.
//! Nothing is kept from one cycle to the next.

use crate::details::{pmstatus_fields, readings};
use crate::plan::{plan_of, UpdatePlan, UpdatePlanView};
use crate::progress::{aggregate, aggregate_of, Aggregate, AggregateView};
use crate::status::{parse_status, status_of, UpdaterStatus, UpdaterStatusView};
use vstd::prelude::*;

verus! {

/// A text that a cycle needs and could not get.
#[derive(Debug, Clone, Copy, PartialEq, Eq)]
pub enum MissingSource {
    /// The `key=value` status text.
    Status,
    /// The details text with the progress readings.
    Details,
    /// The release manifest.
    Manifest,
}

/// What one cycle has found.
#[derive(Debug, Clone, PartialEq, Eq)]
pub struct Snapshot {
    /// The updater's declared state.
    pub status: UpdaterStatus,
    /// The progress readings, as written, in the order of their lines.
    pub readings: Vec<String>,
    /// The plan that the manifest and the status give.
    pub plan: UpdatePlan,
    /// The whole-number part of the overall percentage.
    pub aggregate: Aggregate,
}

/// The mathematical value of a `Snapshot`.
pub struct SnapshotView {
    pub status: UpdaterStatusView,
    pub readings: Seq<Seq<char>>,
    pub plan: UpdatePlanView,
    pub aggregate: AggregateView,
}

impl View for Snapshot {
    type V = SnapshotView;

    open spec fn view(&self) -> SnapshotView {
        SnapshotView {
            status: self.status@,
            readings: self.readings.deep_view(),
            plan: self.plan@,
            aggregate: self.aggregate@,
        }
    }
}

/// What the three texts of a cycle say.
pub open spec fn snapshot_of(status: Seq<char>, details: Seq<char>, manifest: Seq<char>) -> SnapshotView {
    let declared = status_of(status);
    let plan = plan_of(manifest, declared);
    SnapshotView {
        status: declared,
        readings: readings(details),
        plan: plan,
        aggregate: aggregate_of(declared, plan),
    }
}

/// The first of the three texts that is missing, in the order status,
/// details, manifest.
pub open spec fn first_missing(
    status: Option<Seq<char>>,
    details: Option<Seq<char>>,
    manifest: Option<Seq<char>>,
) -> Option<MissingSource> {
    if status is None {
        Some(MissingSource::Status)
    } else if details is None {
        Some(MissingSource::Details)
    } else if manifest is None {
        Some(MissingSource::Manifest)
    } else {
        None
    }
}

/// The view of a text that may be missing.
pub open spec fn text_view(text: Option<&str>) -> Option<Seq<char>> {
    match text {
        Some(t) => Some(t@),
        None => None,
    }
}

/// Evaluates one cycle. It succeeds exactly when all three texts are there;
/// otherwise it names the first one that is missing.
pub fn snapshot(status: Option<&str>, details: Option<&str>, manifest: Option<&str>) -> (found: Result<
    Snapshot,
    MissingSource,
>)
    ensures
        (match first_missing(text_view(status), text_view(details), text_view(manifest)) {
            Some(source) => found == Err::<Snapshot, MissingSource>(source),
            None => found is Ok && found->Ok_0@ == snapshot_of(status->0@, details->0@, manifest->0@)
                && found->Ok_0.plan.wf(),
        }),
{
    let status_text = match status {
        Some(text) => text,
        None => {
            return Err(MissingSource::Status);
        },
    };
    let details_text = match details {
        Some(text) => text,
        None => {
            return Err(MissingSource::Details);
        },
    };
    let manifest_text = match manifest {
        Some(text) => text,
        None => {
            return Err(MissingSource::Manifest);
        },
    };
    let declared = parse_status(status_text);
    let fields = pmstatus_fields(details_text);
    let plan = UpdatePlan::build(manifest_text, &declared);
    let whole = aggregate(&declared, &plan);
    Ok(Snapshot { status: declared, readings: fields, plan, aggregate: whole })
}

} // verus!
