//! The update plan: the versions that lead up to the target, and how many
//! of them are behind us.
//!
//! A plan is derived anew from the release manifest and the updater's status
//! each time it is needed; nothing of it is kept between two derivations.

use crate::status::{UpdaterStatus, UpdaterStatusView};
use crate::text::{
    chars_of, copy_range, find_from, first_index, lemma_first_index, lemma_first_index_is,
    lemma_pieces_view, split, split_chars, string_of,
};
use vstd::prelude::*;

verus! {

/// The version identifiers that a release manifest lists, in its order. The
/// manifest is the first line of the text; its entries are the pieces between
/// commas. An empty manifest lists nothing.
pub open spec fn entries_of(text: Seq<char>) -> Seq<Seq<char>> {
    let line = text.take(first_index(text, '\n'));
    if line.len() == 0 {
        Seq::empty()
    } else {
        split(line, ',')
    }
}

/// The entries that come before the first occurrence of the target: the
/// versions to go through. All of them when no target is known or the target
/// is not listed.
pub open spec fn versions_before(entries: Seq<Seq<char>>, target: Option<Seq<char>>) -> Seq<
    Seq<char>,
> {
    match target {
        Some(t) => entries.take(first_index(entries, t)),
        None => entries,
    }
}

/// The position of the current version among the ordered versions, counted
/// from one; zero when no current version is known or it is not among them.
pub open spec fn position_of(ordered: Seq<Seq<char>>, current: Option<Seq<char>>) -> nat {
    match current {
        Some(c) => if first_index(ordered, c) < ordered.len() {
            (first_index(ordered, c) + 1) as nat
        } else {
            0
        },
        None => 0,
    }
}

/// The chain of versions up to the target, and the place reached in it.
#[derive(Debug, Clone, PartialEq, Eq)]
pub struct UpdatePlan {
    /// The versions that lead up to the target, the target itself left out,
    /// in the order in which they are installed.
    pub ordered_versions: Vec<String>,
    /// How many of them are done: the position of the current version,
    /// counted from one, or zero.
    pub finished_count: usize,
}

/// The mathematical value of an `UpdatePlan`.
pub struct UpdatePlanView {
    pub ordered_versions: Seq<Seq<char>>,
    pub finished_count: nat,
}

impl View for UpdatePlan {
    type V = UpdatePlanView;

    open spec fn view(&self) -> UpdatePlanView {
        UpdatePlanView {
            ordered_versions: self.ordered_versions.deep_view(),
            finished_count: self.finished_count as nat,
        }
    }
}

impl UpdatePlanView {
    /// No more versions are counted as finished than the plan holds.
    pub open spec fn wf(self) -> bool {
        self.finished_count <= self.ordered_versions.len()
    }
}

/// The plan that a manifest text and a status give.
pub open spec fn plan_of(manifest: Seq<char>, status: UpdaterStatusView) -> UpdatePlanView {
    let ordered = versions_before(entries_of(manifest), status.target_version);
    UpdatePlanView {
        ordered_versions: ordered,
        finished_count: position_of(ordered, status.current_version),
    }
}

/// The ordered versions never hold the target, and they are the manifest's
/// entries up to some point, in the manifest's order.
pub proof fn lemma_versions_exclude_target(entries: Seq<Seq<char>>, target: Option<Seq<char>>)
    ensures
        target is Some ==> !versions_before(entries, target).contains(target->0),
        versions_before(entries, target).len() <= entries.len(),
        versions_before(entries, target) == entries.take(
            versions_before(entries, target).len() as int,
        ),
        forall|k: int|
            0 <= k < versions_before(entries, target).len() ==> versions_before(entries, target)[k]
                == entries[k],
{
    match target {
        Some(t) => {
            lemma_first_index(entries, t);
            let ordered = versions_before(entries, target);
            if ordered.contains(t) {
                let k = choose|k: int| 0 <= k < ordered.len() && ordered[k] == t;
                assert(entries[k] == t);
            }
        },
        None => {
            assert(entries.take(entries.len() as int) == entries);
        },
    }
}

/// With no target, or with a target that the manifest does not list, the
/// ordered versions are the whole manifest.
pub proof fn lemma_versions_without_target(entries: Seq<Seq<char>>, target: Option<Seq<char>>)
    requires
        target is None || !entries.contains(target->0),
    ensures
        versions_before(entries, target) == entries,
{
    if let Some(t) = target {
        lemma_first_index(entries, t);
        assert(entries.take(entries.len() as int) == entries);
    }
}

/// With a target that the manifest lists, the ordered versions end just
/// before its first occurrence.
pub proof fn lemma_versions_stop_at_target(entries: Seq<Seq<char>>, target: Seq<char>)
    requires
        entries.contains(target),
    ensures
        versions_before(entries, Some(target)).len() < entries.len(),
        entries[versions_before(entries, Some(target)).len() as int] == target,
{
    lemma_first_index(entries, target);
}

/// The finished count is zero when no current version is known or the
/// ordered versions do not hold it, and only then.
pub proof fn lemma_position_zero(ordered: Seq<Seq<char>>, current: Option<Seq<char>>)
    ensures
        position_of(ordered, current) == 0 <==> (current is None || !ordered.contains(current->0)),
{
    if let Some(c) = current {
        lemma_first_index(ordered, c);
    }
}

/// A finished count above zero names the first place at which the ordered
/// versions hold the current version, and never exceeds their number.
pub proof fn lemma_position_found(ordered: Seq<Seq<char>>, current: Option<Seq<char>>)
    ensures
        position_of(ordered, current) <= ordered.len(),
        position_of(ordered, current) > 0 ==> current is Some,
        position_of(ordered, current) > 0 ==> ordered[position_of(ordered, current) - 1]
            == current->0,
        forall|k: int| 0 <= k < position_of(ordered, current) - 1 ==> ordered[k] != current->0,
{
    if let Some(c) = current {
        lemma_first_index(ordered, c);
    }
}

/// Every plan that a manifest and a status give is well formed.
pub proof fn lemma_plan_wf(manifest: Seq<char>, status: UpdaterStatusView)
    ensures
        plan_of(manifest, status).wf(),
{
    let ordered = versions_before(entries_of(manifest), status.target_version);
    lemma_position_found(ordered, status.current_version);
}

/// Reads a release manifest into its entries.
pub fn parse_manifest(text: &str) -> (entries: Vec<String>)
    ensures
        entries.deep_view() == entries_of(text@),
{
    let chars = chars_of(text);
    let end = find_from(&chars, 0, '\n');
    assert(chars@.skip(0) == chars@);
    let mut entries: Vec<String> = Vec::new();
    if end == 0 {
        assert(entries.deep_view() == Seq::<Seq<char>>::empty());
        return entries;
    }
    let line = copy_range(&chars, 0, end);
    let pieces = split_chars(&line, ',');
    proof {
        lemma_pieces_view(pieces);
    }
    let mut i: usize = 0;
    while i < pieces.len()
        invariant
            i <= pieces.len(),
            entries.len() == i,
            forall|k: int| 0 <= k < i ==> entries@[k]@ == pieces@[k]@,
        decreases pieces.len() - i,
    {
        let piece = &pieces[i];
        let entry = string_of(piece, 0, piece.len());
        assert(piece@.subrange(0, piece.len() as int) == piece@);
        entries.push(entry);
        i += 1;
    }
    assert(entries.deep_view() == pieces.deep_view());
    entries
}

/// Index of the first of `items` that equals `wanted`, or their number.
pub fn find_version(items: &Vec<String>, wanted: &String) -> (at: usize)
    ensures
        at == first_index(items.deep_view(), wanted@),
        at <= items.len(),
{
    let mut i: usize = 0;
    while i < items.len() && items[i] != *wanted
        invariant
            i <= items.len(),
            forall|k: int| 0 <= k < i ==> items@[k]@ != wanted@,
        decreases items.len() - i,
    {
        i += 1;
    }
    proof {
        lemma_first_index_is(items.deep_view(), wanted@, i as int);
    }
    i
}

/// The versions to go through: the entries before the first one that equals
/// the target, or all of them.
pub fn ordered_versions(entries: &Vec<String>, target: &Option<String>) -> (ordered: Vec<String>)
    ensures
        ordered.deep_view() == versions_before(entries.deep_view(), target.deep_view()),
        target is Some ==> !ordered.deep_view().contains(target->0@),
        ordered.len() <= entries.len(),
        forall|k: int| 0 <= k < ordered.len() ==> ordered@[k]@ == entries@[k]@,
{
    let stop = match target {
        Some(t) => find_version(entries, t),
        None => entries.len(),
    };
    let mut ordered: Vec<String> = Vec::new();
    let mut i: usize = 0;
    while i < stop
        invariant
            i <= stop <= entries.len(),
            ordered.len() == i,
            forall|k: int| 0 <= k < i ==> ordered@[k]@ == entries@[k]@,
        decreases stop - i,
    {
        ordered.push(entries[i].clone());
        i += 1;
    }
    proof {
        assert(ordered.deep_view() == entries.deep_view().take(stop as int));
        assert(entries.deep_view().take(entries.len() as int) == entries.deep_view());
        lemma_versions_exclude_target(entries.deep_view(), target.deep_view());
    }
    ordered
}

/// How many of the ordered versions are done: the position of the current
/// version among them, counted from one, or zero.
pub fn finished_count(ordered: &Vec<String>, current: &Option<String>) -> (count: usize)
    ensures
        count == position_of(ordered.deep_view(), current.deep_view()),
        count <= ordered.len(),
        count == 0 <==> (current is None || !ordered.deep_view().contains(current->0@)),
{
    proof {
        lemma_position_zero(ordered.deep_view(), current.deep_view());
    }
    match current {
        Some(c) => {
            let at = find_version(ordered, c);
            if at < ordered.len() {
                at + 1
            } else {
                0
            }
        },
        None => 0,
    }
}

impl UpdatePlan {
    /// Whether no more versions are counted as finished than the plan holds.
    pub open spec fn wf(&self) -> bool {
        self@.wf()
    }

    /// Derives the plan from the manifest text and the updater's status.
    pub fn build(manifest: &str, status: &UpdaterStatus) -> (plan: UpdatePlan)
        ensures
            plan@ == plan_of(manifest@, status@),
            plan.wf(),
    {
        let entries = parse_manifest(manifest);
        let ordered = ordered_versions(&entries, &status.target_version);
        let count = finished_count(&ordered, &status.current_version);
        UpdatePlan { ordered_versions: ordered, finished_count: count }
    }
}

} // verus!
