use vstd::prelude::*;

use crate::day::Day;
use crate::stats::Aggregate;

verus! {

/// What running one (day, part) cell produced.
pub enum Outcome {
    /// No solver is registered for the cell.
    Skipped,
    /// The solver's input could not be read.
    MissingInput,
    /// The solver aborted; the message says why.
    Failed { message: String },
    /// The solver ran to completion every time: its first answer and the timings.
    Timed { answer: Option<u64>, stats: Aggregate },
}

/// One attempted cell of a report.
pub struct ReportEntry {
    pub day: Day,
    pub part: u8,
    pub outcome: Outcome,
}

/// The attempted cells of one run, in ascending (day, part) order.
pub struct Report {
    pub entries: Vec<ReportEntry>,
}

/// The position of cell (`d`, `p`) in the order of a run: by day, then by part.
pub open spec fn cell_key(d: int, p: int) -> int {
    3 * d + p
}

/// The key of a report entry.
pub open spec fn entry_key(e: ReportEntry) -> int {
    cell_key(e.day.value(), e.part as int)
}

/// Whether the entry is for cell (`d`, `p`).
pub open spec fn entry_is(e: ReportEntry, d: int, p: int) -> bool {
    e.day.value() == d && e.part == p
}

/// The entry for cell (`d`, `p`): the first one with that key, if any.
pub open spec fn entry_for(es: Seq<ReportEntry>, d: int, p: int) -> Option<ReportEntry>
    decreases es.len(),
{
    if es.len() == 0 {
        None
    } else {
        let earlier = entry_for(es.drop_last(), d, p);
        if earlier is Some {
            earlier
        } else if entry_is(es.last(), d, p) {
            Some(es.last())
        } else {
            None
        }
    }
}

/// Whether the report has an entry for some part of day `d`.
pub open spec fn day_has_entry(es: Seq<ReportEntry>, d: int) -> bool {
    entry_for(es, d, 1) is Some || entry_for(es, d, 2) is Some || entry_for(es, d, 3) is Some
}

/// With no entry of key (`d`, `p`) the lookup finds none.
pub proof fn lemma_entry_for_none(es: Seq<ReportEntry>, d: int, p: int)
    requires
        forall|k: int| 0 <= k < es.len() ==> !entry_is(#[trigger] es[k], d, p),
    ensures
        entry_for(es, d, p) is None,
    decreases es.len(),
{
    if es.len() > 0 {
        assert forall|k: int| 0 <= k < es.drop_last().len() implies !entry_is(#[trigger] es.drop_last()[k], d, p) by {
            assert(es.drop_last()[k] == es[k]);
        }
        lemma_entry_for_none(es.drop_last(), d, p);
    }
}

} // verus!
