//! The updater's declared state, read from its `key=value` status text.

use crate::text::{chars_of, find_from, first_index, lemma_pieces_view, split, split_chars, string_of};
use vstd::prelude::*;

verus! {

/// What the updater says of itself. A field is `None` when the status text
/// never assigned it; an assigned empty value is `Some` of the empty string,
/// and the two are never confused.
#[derive(Debug, Clone, PartialEq, Eq)]
pub struct UpdaterStatus {
    /// Version that is installed and active.
    pub current_version: Option<String>,
    /// Version that is being applied.
    pub next_version: Option<String>,
    /// Version that the update is to end at.
    pub target_version: Option<String>,
    /// Category of the running update (key `type`).
    pub update_type: Option<String>,
    /// Lifecycle marker, such as `DONE`.
    pub status: Option<String>,
    /// The stage that raised an error (key `errorsource`).
    pub error_source: Option<String>,
}

/// The mathematical value of an `UpdaterStatus`.
pub struct UpdaterStatusView {
    pub current_version: Option<Seq<char>>,
    pub next_version: Option<Seq<char>>,
    pub target_version: Option<Seq<char>>,
    pub update_type: Option<Seq<char>>,
    pub status: Option<Seq<char>>,
    pub error_source: Option<Seq<char>>,
}

impl View for UpdaterStatus {
    type V = UpdaterStatusView;

    open spec fn view(&self) -> UpdaterStatusView {
        UpdaterStatusView {
            current_version: self.current_version.deep_view(),
            next_version: self.next_version.deep_view(),
            target_version: self.target_version.deep_view(),
            update_type: self.update_type.deep_view(),
            status: self.status.deep_view(),
            error_source: self.error_source.deep_view(),
        }
    }
}

impl UpdaterStatusView {
    /// The updater has run to its end: the lifecycle marker is `DONE`.
    pub open spec fn is_done(self) -> bool {
        self.status == Some("DONE"@)
    }

    /// The installed version is the one the update was to reach: both are
    /// known and they are equal.
    pub open spec fn at_target(self) -> bool {
        self.current_version is Some && self.current_version == self.target_version
    }
}

/// The value that `line` assigns to `key`: the line reads `key=value`, cut
/// at its first `=`. `None` for a line without `=` or with another key.
pub open spec fn assigned(line: Seq<char>, key: Seq<char>) -> Option<Seq<char>> {
    let i = first_index(line, '=');
    if i < line.len() && line.take(i) == key {
        Some(line.skip(i + 1))
    } else {
        None
    }
}

/// The value of the last of `lines` that assigns `key`; `None` when none does.
pub open spec fn last_assigned(lines: Seq<Seq<char>>, key: Seq<char>) -> Option<Seq<char>>
    decreases lines.len(),
{
    if lines.len() == 0 {
        None
    } else {
        match assigned(lines.last(), key) {
            Some(value) => Some(value),
            None => last_assigned(lines.drop_last(), key),
        }
    }
}

/// The status that a sequence of lines declares: each field holds the last
/// assignment to its key.
pub open spec fn declared_by(lines: Seq<Seq<char>>) -> UpdaterStatusView {
    UpdaterStatusView {
        current_version: last_assigned(lines, "current_version"@),
        next_version: last_assigned(lines, "next_version"@),
        target_version: last_assigned(lines, "target_version"@),
        update_type: last_assigned(lines, "type"@),
        status: last_assigned(lines, "status"@),
        error_source: last_assigned(lines, "errorsource"@),
    }
}

/// The status that a status text declares. Its lines are the pieces between
/// line feeds.
pub open spec fn status_of(text: Seq<char>) -> UpdaterStatusView {
    declared_by(split(text, '\n'))
}

/// Whether `line` assigns one of the six known keys.
pub open spec fn is_recognized(line: Seq<char>) -> bool {
    ||| assigned(line, "current_version"@) is Some
    ||| assigned(line, "next_version"@) is Some
    ||| assigned(line, "target_version"@) is Some
    ||| assigned(line, "type"@) is Some
    ||| assigned(line, "status"@) is Some
    ||| assigned(line, "errorsource"@) is Some
}

/// A further line that assigns `key` replaces what stood for that key; one
/// that does not leaves it as it was.
pub proof fn lemma_last_assignment_wins(lines: Seq<Seq<char>>, line: Seq<char>, key: Seq<char>)
    ensures
        last_assigned(lines.push(line), key) == (match assigned(line, key) {
            Some(value) => Some(value),
            None => last_assigned(lines, key),
        }),
{
    assert(lines.push(line).drop_last() == lines);
}

/// A further line that assigns none of the known keys changes nothing.
pub proof fn lemma_unrecognized_line_ignored(lines: Seq<Seq<char>>, line: Seq<char>)
    requires
        !is_recognized(line),
    ensures
        declared_by(lines.push(line)) == declared_by(lines),
{
    assert(lines.push(line).drop_last() == lines);
}

/// Without any line that assigns a key, its field is absent.
pub proof fn lemma_unassigned_is_absent(lines: Seq<Seq<char>>, key: Seq<char>)
    requires
        forall|k: int| 0 <= k < lines.len() ==> assigned(#[trigger] lines[k], key) is None,
    ensures
        last_assigned(lines, key) is None,
    decreases lines.len(),
{
    if lines.len() > 0 {
        assert(assigned(lines[lines.len() - 1], key) is None);
        lemma_unassigned_is_absent(lines.drop_last(), key);
    }
}

/// What one line assigns to `key`, if anything.
pub fn assigned_value(line: &Vec<char>, key: &str) -> (value: Option<String>)
    ensures
        value.deep_view() == assigned(line@, key@),
{
    let name = chars_of(key);
    let at = find_from(line, 0, '=');
    assert(line@.skip(0) == line@);
    if at >= line.len() || at != name.len() {
        return None;
    }
    let mut i: usize = 0;
    while i < at
        invariant
            i <= at < line.len(),
            at == name.len(),
            at == first_index(line@, '='),
            name@ == key@,
            line@.take(i as int) == name@.take(i as int),
        decreases at - i,
    {
        if line[i] != name[i] {
            assert(line@.take(at as int)[i as int] != key@[i as int]);
            return None;
        }
        assert(line@.take(i + 1) == line@.take(i as int).push(line@[i as int]));
        assert(name@.take(i + 1) == name@.take(i as int).push(name@[i as int]));
        i += 1;
    }
    assert(name@.take(at as int) == name@);
    let value = string_of(line, at + 1, line.len());
    Some(value)
}

impl UpdaterStatus {
    /// The status in which nothing is known.
    pub fn new() -> (status: UpdaterStatus)
        ensures
            status@ == (UpdaterStatusView {
                current_version: None,
                next_version: None,
                target_version: None,
                update_type: None,
                status: None,
                error_source: None,
            }),
    {
        UpdaterStatus {
            current_version: None,
            next_version: None,
            target_version: None,
            update_type: None,
            status: None,
            error_source: None,
        }
    }

    /// Whether the lifecycle marker is the terminal `DONE`.
    pub fn is_done(&self) -> (done: bool)
        ensures
            done == self@.is_done(),
    {
        match &self.status {
            Some(marker) => {
                let done = "DONE".to_owned();
                *marker == done
            },
            None => false,
        }
    }

    /// Whether the installed version is known and equals the target version.
    pub fn at_target(&self) -> (there: bool)
        ensures
            there == self@.at_target(),
    {
        match (&self.current_version, &self.target_version) {
            (Some(current), Some(target)) => *current == *target,
            _ => false,
        }
    }
}

/// Reads a status text. Lines that assign none of the six known keys are
/// passed over; of several assignments to one key the last one stands.
pub fn parse_status(text: &str) -> (status: UpdaterStatus)
    ensures
        status@ == status_of(text@),
{
    let chars = chars_of(text);
    let lines = split_chars(&chars, '\n');
    let mut status = UpdaterStatus::new();
    let ghost all = split(text@, '\n');
    proof {
        lemma_pieces_view(lines);
    }
    let mut i: usize = 0;
    while i < lines.len()
        invariant
            i <= lines.len(),
            lines.deep_view() == all,
            all.len() == lines.len(),
            forall|k: int| 0 <= k < lines.len() ==> #[trigger] all[k] == lines@[k]@,
            status@.current_version == last_assigned(all.take(i as int), "current_version"@),
            status@.next_version == last_assigned(all.take(i as int), "next_version"@),
            status@.target_version == last_assigned(all.take(i as int), "target_version"@),
            status@.update_type == last_assigned(all.take(i as int), "type"@),
            status@.status == last_assigned(all.take(i as int), "status"@),
            status@.error_source == last_assigned(all.take(i as int), "errorsource"@),
        decreases lines.len() - i,
    {
        let line = &lines[i];
        proof {
            let next = all.take(i + 1);
            assert(next.last() == line@);
            assert(next.drop_last() == all.take(i as int));
        }
        if let Some(value) = assigned_value(line, "current_version") {
            status.current_version = Some(value);
        }
        if let Some(value) = assigned_value(line, "next_version") {
            status.next_version = Some(value);
        }
        if let Some(value) = assigned_value(line, "target_version") {
            status.target_version = Some(value);
        }
        if let Some(value) = assigned_value(line, "type") {
            status.update_type = Some(value);
        }
        if let Some(value) = assigned_value(line, "status") {
            status.status = Some(value);
        }
        if let Some(value) = assigned_value(line, "errorsource") {
            status.error_source = Some(value);
        }
        i += 1;
    }
    assert(all.take(lines.len() as int) == all);
    status
}

} // verus!
