//! The progress readings of the details text, and which of them stands.
//!
//! The details text is line oriented; a line is cut into fields at every
//! `:`. Only lines whose first field is the marker `pmstatus` and that have a
//! third field report progress: the third field is the reading. A reading is
//! a number written as text. Turning that text into a number is the caller's
//! part; which of the numbers then stands is decided here, for any type of
//! number.

use crate::status::UpdaterStatus;
use crate::text::{chars_of, lemma_pieces_view, same_chars, split, split_chars, string_of};
use vstd::prelude::*;

verus! {

/// The reading that one line reports, if it reports one.
pub open spec fn reading_of(line: Seq<char>) -> Option<Seq<char>> {
    let fields = split(line, ':');
    if fields.len() >= 3 && fields[0] == "pmstatus"@ {
        Some(fields[2])
    } else {
        None
    }
}

/// The readings that the lines report, in the order of the lines.
pub open spec fn readings_of(lines: Seq<Seq<char>>) -> Seq<Seq<char>>
    decreases lines.len(),
{
    if lines.len() == 0 {
        Seq::empty()
    } else {
        let before = readings_of(lines.drop_last());
        match reading_of(lines.last()) {
            Some(reading) => before.push(reading),
            None => before,
        }
    }
}

/// The readings of a details text, whose lines are the pieces between line
/// feeds.
pub open spec fn readings(text: Seq<char>) -> Seq<Seq<char>> {
    readings_of(split(text, '\n'))
}

/// The value that stands after all readings were taken in their order,
/// starting from `initial`: a reading that is a number replaces the value, one
/// that is none leaves it as it was.
pub open spec fn latest<T>(parsed: Seq<Option<T>>, initial: T) -> T
    decreases parsed.len(),
{
    if parsed.len() == 0 {
        initial
    } else {
        match parsed.last() {
            Some(value) => value,
            None => latest(parsed.drop_last(), initial),
        }
    }
}

/// A reading that is no number changes nothing.
pub proof fn lemma_latest_skips_malformed<T>(parsed: Seq<Option<T>>, initial: T)
    ensures
        latest(parsed.push(None), initial) == latest(parsed, initial),
{
    assert(parsed.push(None).drop_last() == parsed);
}

/// A reading that is a number stands, whatever came before it.
pub proof fn lemma_latest_takes_number<T>(parsed: Seq<Option<T>>, initial: T, value: T)
    ensures
        latest(parsed.push(Some(value)), initial) == value,
{
}

/// The value that stands is the initial one or one of the numbers read.
pub proof fn lemma_latest_is_read<T>(parsed: Seq<Option<T>>, initial: T)
    ensures
        latest(parsed, initial) == initial && (forall|k: int|
            0 <= k < parsed.len() ==> parsed[k] is None) || exists|k: int|
            0 <= k < parsed.len() && parsed[k] == Some(latest(parsed, initial)) && forall|j: int|
                k < j < parsed.len() ==> parsed[j] is None,
    decreases parsed.len(),
{
    if parsed.len() > 0 {
        let before = parsed.drop_last();
        match parsed.last() {
            Some(value) => {
                let k = parsed.len() - 1;
                assert(parsed[k] == Some(latest(parsed, initial)));
            },
            None => {
                lemma_latest_is_read(before, initial);
                if exists|k: int|
                    0 <= k < before.len() && before[k] == Some(latest(before, initial))
                        && forall|j: int| k < j < before.len() ==> before[j] is None {
                    let k = choose|k: int|
                        0 <= k < before.len() && before[k] == Some(latest(before, initial))
                            && forall|j: int| k < j < before.len() ==> before[j] is None;
                    assert(parsed[k] == before[k]);
                    assert forall|j: int| k < j < parsed.len() implies parsed[j] is None by {
                        if j < before.len() {
                            assert(parsed[j] == before[j]);
                        }
                    }
                } else {
                    assert forall|k: int| 0 <= k < parsed.len() implies parsed[k] is None by {
                        if k < before.len() {
                            assert(parsed[k] == before[k]);
                        }
                    }
                }
            },
        }
    }
}

/// The reading of one line, cut into fields at `:`.
pub fn reading_field(line: &Vec<char>) -> (reading: Option<String>)
    ensures
        reading.deep_view() == reading_of(line@),
{
    let fields = split_chars(line, ':');
    proof {
        lemma_pieces_view(fields);
    }
    if fields.len() < 3 {
        return None;
    }
    let marker = chars_of("pmstatus");
    if !same_chars(&fields[0], &marker) {
        return None;
    }
    let field = &fields[2];
    assert(field@.subrange(0, field.len() as int) == field@);
    Some(string_of(field, 0, field.len()))
}

/// The readings of a details text, as they are written, in the order of
/// their lines. Lines that report no progress leave nothing behind.
pub fn pmstatus_fields(text: &str) -> (fields: Vec<String>)
    ensures
        fields.deep_view() == readings(text@),
{
    let chars = chars_of(text);
    let lines = split_chars(&chars, '\n');
    let ghost all = split(text@, '\n');
    proof {
        lemma_pieces_view(lines);
    }
    let mut fields: Vec<String> = Vec::new();
    assert(fields.deep_view() == Seq::<Seq<char>>::empty());
    let mut i: usize = 0;
    while i < lines.len()
        invariant
            i <= lines.len(),
            all.len() == lines.len(),
            forall|k: int| 0 <= k < lines.len() ==> #[trigger] all[k] == lines@[k]@,
            fields.deep_view() == readings_of(all.take(i as int)),
        decreases lines.len() - i,
    {
        let ghost before = fields.deep_view();
        proof {
            let next = all.take(i + 1);
            assert(next.last() == lines@[i as int]@);
            assert(next.drop_last() == all.take(i as int));
        }
        if let Some(reading) = reading_field(&lines[i]) {
            fields.push(reading);
            assert(fields.deep_view() == before.push(reading@));
        }
        i += 1;
    }
    assert(all.take(lines.len() as int) == all);
    fields
}

/// Of the readings, each turned into a number or found to be none, the
/// number that stands at the end: the last one that is a number, or `initial`
/// when there is none.
pub fn latest_reading<T>(parsed: Vec<Option<T>>, initial: T) -> (value: T)
    ensures
        value == latest(parsed@, initial),
{
    let mut rest = parsed;
    loop
        invariant
            latest(rest@, initial) == latest(parsed@, initial),
        decreases rest.len(),
    {
        match rest.pop() {
            Some(Some(value)) => {
                return value;
            },
            Some(None) => {},
            None => {
                return initial;
            },
        }
    }
}

/// The sub-step percentage that counts: `idle` once the updater is done,
/// whatever the details text reports, and the reading otherwise.
pub fn sub_step<T>(status: &UpdaterStatus, reading: T, idle: T) -> (value: T)
    ensures
        value == (if status@.is_done() {
            idle
        } else {
            reading
        }),
{
    if status.is_done() {
        idle
    } else {
        reading
    }
}

} // verus!
