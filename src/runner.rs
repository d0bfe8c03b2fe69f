use vstd::prelude::*;

use crate::day::{all_days, Day};
use crate::render::{cell_figure, cell_text, day_total};
use crate::report::{
    cell_key, day_has_entry, entry_for, entry_is, entry_key, lemma_entry_for_none, Outcome, Report,
    ReportEntry,
};
use crate::sampler::{sample, SampleRun, Solver};
use crate::stats::Aggregate;

verus! {

/// A solver registered for one (day, part) cell, with its input text, or
/// `None` where that input could not be read.
pub struct Registration<S> {
    pub day: Day,
    pub part: u8,
    pub solver: S,
    pub input: Option<String>,
}

/// The registered solvers. Where a cell is registered twice the first
/// registration counts.
pub struct Registry<S> {
    pub entries: Vec<Registration<S>>,
}

/// The errors that abort a whole run.
#[derive(Debug, Clone, Copy, PartialEq, Eq, Structural)]
pub enum RunError {
    /// No cell was attempted.
    EmptyReport,
}

/// Whether a registration is for cell (`d`, `p`).
pub open spec fn registration_is<S>(r: Registration<S>, d: int, p: int) -> bool {
    r.day.value() == d && r.part == p
}

/// Whether cell (`d`, `p`) has a registered solver.
pub open spec fn registered<S>(rs: Seq<Registration<S>>, d: int, p: int) -> bool {
    exists|i: int| 0 <= i < rs.len() && registration_is(#[trigger] rs[i], d, p)
}

/// Whether (`d`, `p`) is a cell of the grid: a day from 1 to 25 and a part from 1 to 3.
pub open spec fn in_grid(d: int, p: int) -> bool {
    1 <= d <= 25 && 1 <= p <= 3
}

/// Whether `i` is the first registration for cell (`d`, `p`).
pub open spec fn first_registration<S>(rs: Seq<Registration<S>>, d: int, p: int, i: int) -> bool {
    &&& 0 <= i < rs.len()
    &&& registration_is(rs[i], d, p)
    &&& forall|j: int| 0 <= j < i ==> !registration_is(#[trigger] rs[j], d, p)
}

/// Whether `o` is what running registration `r` can give with `iterations`
/// samples: `MissingInput` exactly where its input is absent, and timings of
/// `iterations` calls where it completed.
pub open spec fn outcome_of<S>(r: Registration<S>, o: Outcome, iterations: int) -> bool {
    &&& !(o is Skipped)
    &&& (r.input is None <==> o is MissingInput)
    &&& (o matches Outcome::Timed { stats, .. } ==> stats.count == iterations)
}

/// Whether some cell of the grid has a registered solver.
pub open spec fn any_registered<S>(rs: Seq<Registration<S>>) -> bool {
    exists|d: int, p: int| in_grid(d, p) && #[trigger] registered(rs, d, p)
}

/// Whether entry `e` holds what running the first registration of its cell
/// gave with `iterations` samples.
pub open spec fn entry_from<S>(rs: Seq<Registration<S>>, e: ReportEntry, iterations: int) -> bool {
    exists|i: int| first_registration(rs, e.day.value(), e.part as int, i) && outcome_of(
        #[trigger] rs[i],
        e.outcome,
        iterations,
    )
}

/// Whether `es` holds one attempted entry for each registered cell of the
/// grid, and nothing else, in ascending (day, part) order.
pub open spec fn covers<S>(rs: Seq<Registration<S>>, es: Seq<ReportEntry>) -> bool {
    &&& forall|k: int| 0 <= k < es.len() ==> {
        &&& in_grid(es[k].day.value(), es[k].part as int)
        &&& registered(rs, es[k].day.value(), #[trigger] es[k].part as int)
        &&& !(es[k].outcome is Skipped)
    }
    &&& forall|k: int, l: int| 0 <= k < l < es.len() ==> entry_key(#[trigger] es[k]) < entry_key(#[trigger] es[l])
    &&& forall|d: int, p: int| in_grid(d, p) && #[trigger] registered(rs, d, p) ==>
        exists|k: int| 0 <= k < es.len() && entry_is(#[trigger] es[k], d, p)
}

/// The outcome of a sampling run: its first answer and the statistics of
/// its timings where every call completed, a failure with the abort's
/// message where one aborted.
pub fn outcome_of_run(r: Result<SampleRun, String>) -> (o: Outcome)
    requires
        r matches Ok(run) ==> run.samples@.len() >= 1,
    ensures
        r matches Ok(run) ==> (o matches Outcome::Timed { answer, stats } && answer == run.answer
            && stats.describes(run.samples@)),
        r matches Err(m) ==> o == (Outcome::Failed { message: m }),
{
    match r {
        Ok(run) => {
            let stats = Aggregate::from_samples(&run.samples);
            Outcome::Timed { answer: run.answer, stats }
        },
        Err(message) => Outcome::Failed { message },
    }
}

/// Runs one cell: skipped without a solver, `MissingInput` without input,
/// otherwise the solver is sampled `iterations` times and an abort becomes
/// a `Failed` outcome.
pub fn invoke<S: Solver>(solver: Option<&S>, input: &Option<String>, iterations: usize) -> (r: Outcome)
    requires
        iterations >= 1,
    ensures
        solver is None <==> r is Skipped,
        solver is Some ==> (input is None <==> r is MissingInput),
        r matches Outcome::Timed { stats, .. } ==> stats.count == iterations,
{
    match solver {
        None => Outcome::Skipped,
        Some(s) => match input {
            None => Outcome::MissingInput,
            Some(text) => outcome_of_run(sample(s, text.as_str(), iterations)),
        },
    }
}

impl<S: Solver> Registry<S> {
    /// An empty registry.
    pub fn new() -> (r: Registry<S>)
        ensures
            r.entries@.len() == 0,
    {
        Registry { entries: Vec::new() }
    }

    /// Registers `solver` with its input for part `part` of `day`.
    pub fn register(&mut self, day: Day, part: u8, solver: S, input: Option<String>)
        requires
            1 <= part <= 3,
        ensures
            final(self).entries@ == old(self).entries@.push(
                Registration { day, part, solver, input },
            ),
    {
        self.entries.push(Registration { day, part, solver, input });
    }

    /// The index of the first registration for cell (`d`, `p`).
    pub fn lookup(&self, d: u8, p: u8) -> (r: Option<usize>)
        ensures
            r matches Some(i) ==> first_registration(self.entries@, d as int, p as int, i as int),
            r is None ==> !registered(self.entries@, d as int, p as int),
    {
        let mut i: usize = 0;
        while i < self.entries.len()
            invariant
                i <= self.entries@.len(),
                forall|j: int| 0 <= j < i ==> !registration_is(#[trigger] self.entries@[j], d as int, p as int),
            decreases self.entries@.len() - i,
        {
            let e = &self.entries[i];
            if e.day.eq_u8(d) && e.part == p {
                return Some(i);
            }
            i = i + 1;
        }
        None
    }
}

/// Runs every registered cell, days ascending and parts ascending within a
/// day, sampling each solver `iterations` times. Cells without a solver are
/// left out; a failing cell is recorded and the others still run. Fails
/// with `EmptyReport` exactly when no cell of the grid has a solver.
pub fn run_all<S: Solver>(registry: &Registry<S>, iterations: usize) -> (r: Result<Report, RunError>)
    requires
        iterations >= 1,
    ensures
        r is Err <==> !any_registered(registry.entries@),
        r matches Err(e) ==> e == RunError::EmptyReport,
        r matches Ok(rep) ==> covers(registry.entries@, rep.entries@),
        r matches Ok(rep) ==> forall|k: int| 0 <= k < rep.entries@.len() ==> entry_from(
            registry.entries@,
            #[trigger] rep.entries@[k],
            iterations as int,
        ),
{
    let ghost rs = registry.entries@;
    let mut entries: Vec<ReportEntry> = Vec::new();
    let mut days = all_days();
    let mut d: u8 = 1;
    while d <= 25
        invariant
            1 <= d <= 26,
            days.next_value() == d,
            iterations >= 1,
            rs == registry.entries@,
            forall|k: int| 0 <= k < entries@.len() ==> {
                &&& in_grid(entries@[k].day.value(), entries@[k].part as int)
                &&& registered(rs, entries@[k].day.value(), #[trigger] entries@[k].part as int)
                &&& !(entries@[k].outcome is Skipped)
                &&& entry_key(entries@[k]) < cell_key(d as int, 1)
                &&& entry_from(rs, entries@[k], iterations as int)
            },
            forall|k: int, l: int| 0 <= k < l < entries@.len() ==> entry_key(#[trigger] entries@[k]) < entry_key(#[trigger] entries@[l]),
            forall|dd: int, p: int| in_grid(dd, p) && dd < d && #[trigger] registered(rs, dd, p) ==>
                exists|k: int| 0 <= k < entries@.len() && entry_is(#[trigger] entries@[k], dd, p),
        decreases 26 - d,
    {
        let day = days.next().unwrap();
        let mut p: u8 = 1;
        while p <= 3
            invariant
                1 <= d <= 25,
                1 <= p <= 4,
                iterations >= 1,
                rs == registry.entries@,
                day.value() == d,
                forall|k: int| 0 <= k < entries@.len() ==> {
                    &&& in_grid(entries@[k].day.value(), entries@[k].part as int)
                    &&& registered(rs, entries@[k].day.value(), #[trigger] entries@[k].part as int)
                    &&& !(entries@[k].outcome is Skipped)
                    &&& entry_key(entries@[k]) < cell_key(d as int, p as int)
                    &&& entry_from(rs, entries@[k], iterations as int)
                },
                forall|k: int, l: int| 0 <= k < l < entries@.len() ==> entry_key(#[trigger] entries@[k]) < entry_key(#[trigger] entries@[l]),
                forall|dd: int, pp: int| in_grid(dd, pp) && (dd < d || (dd == d && pp < p)) && #[trigger] registered(rs, dd, pp) ==>
                    exists|k: int| 0 <= k < entries@.len() && entry_is(#[trigger] entries@[k], dd, pp),
            decreases 4 - p,
        {
            match registry.lookup(d, p) {
                Some(i) => {
                    let reg = &registry.entries[i];
                    let outcome = invoke(Some(&reg.solver), &reg.input, iterations);
                    let ghost before = entries@;
                    let entry = ReportEntry { day, part: p, outcome };
                    proof {
                        assert(registration_is(rs[i as int], d as int, p as int));
                        assert(outcome_of(rs[i as int], entry.outcome, iterations as int));
                        assert(entry_from(rs, entry, iterations as int));
                    }
                    entries.push(entry);
                    proof {
                        assert(entries@[before.len() as int] == entry);
                        assert forall|dd: int, pp: int| in_grid(dd, pp) && (dd < d || (dd == d && pp < p + 1)) && #[trigger] registered(rs, dd, pp) implies
                            exists|k: int| 0 <= k < entries@.len() && entry_is(#[trigger] entries@[k], dd, pp) by {
                            if dd == d && pp == p {
                                assert(entry_is(entries@[before.len() as int], dd, pp));
                            } else {
                                let k = choose|k: int| 0 <= k < before.len() && entry_is(#[trigger] before[k], dd, pp);
                                assert(entries@[k] == before[k]);
                            }
                        }
                    }
                },
                None => {},
            }
            p = p + 1;
        }
        d = d + 1;
    }
    if entries.len() == 0 {
        proof {
            assert forall|dd: int, pp: int| in_grid(dd, pp) implies !#[trigger] registered(rs, dd, pp) by {
                if registered(rs, dd, pp) {
                    let k = choose|k: int| 0 <= k < entries@.len() && entry_is(#[trigger] entries@[k], dd, pp);
                }
            }
        }
        return Err(RunError::EmptyReport);
    }
    proof {
        let e = entries@[0];
        assert(in_grid(e.day.value(), e.part as int) && registered(rs, e.day.value(), e.part as int));
    }
    Ok(Report { entries })
}

/// Where some entry is for cell (`d`, `p`), the lookup finds one of the entries.
proof fn lemma_entry_for_some(es: Seq<ReportEntry>, d: int, p: int, k: int)
    requires
        0 <= k < es.len(),
        entry_is(es[k], d, p),
    ensures
        entry_for(es, d, p) matches Some(e) && exists|j: int| 0 <= j < es.len() && es[j] == e,
    decreases es.len(),
{
    if k == es.len() - 1 {
        if entry_for(es.drop_last(), d, p) is Some {
            lemma_entry_for_member(es.drop_last(), d, p);
            let e = entry_for(es.drop_last(), d, p)->Some_0;
            let j = choose|j: int| 0 <= j < es.drop_last().len() && es.drop_last()[j] == e;
            assert(es[j] == e);
        } else {
            assert(es[es.len() - 1] == es.last());
        }
    } else {
        assert(es.drop_last()[k] == es[k]);
        lemma_entry_for_some(es.drop_last(), d, p, k);
        let e = entry_for(es.drop_last(), d, p)->Some_0;
        let j = choose|j: int| 0 <= j < es.drop_last().len() && es.drop_last()[j] == e;
        assert(es[j] == e);
    }
}

/// What the lookup finds is one of the entries.
proof fn lemma_entry_for_member(es: Seq<ReportEntry>, d: int, p: int)
    requires
        entry_for(es, d, p) is Some,
    ensures
        exists|j: int| 0 <= j < es.len() && es[j] == entry_for(es, d, p)->Some_0,
    decreases es.len(),
{
    if entry_for(es.drop_last(), d, p) is Some {
        lemma_entry_for_member(es.drop_last(), d, p);
        let j = choose|j: int| 0 <= j < es.drop_last().len() && es.drop_last()[j] == entry_for(es.drop_last(), d, p)->Some_0;
        assert(es[j] == es.drop_last()[j]);
    } else {
        assert(es[es.len() - 1] == es.last());
    }
}

/// A cell with no registered solver has no entry in the report of a run,
/// and its place in the rendered table shows a dash and counts nothing.
pub proof fn lemma_unregistered_cell_absent<S>(rs: Seq<Registration<S>>, es: Seq<ReportEntry>, d: int, p: int)
    requires
        covers(rs, es),
        in_grid(d, p),
        !registered(rs, d, p),
    ensures
        entry_for(es, d, p) is None,
        cell_text(entry_for(es, d, p)) == "-"@,
        cell_figure(es, d, p) == 0,
{
    assert forall|k: int| 0 <= k < es.len() implies !entry_is(#[trigger] es[k], d, p) by {
        if entry_is(es[k], d, p) {
            assert(registered(rs, es[k].day.value(), es[k].part as int));
        }
    }
    lemma_entry_for_none(es, d, p);
}

/// A day with no registered solver in any part has no row in the rendered
/// table and adds nothing to the grand total.
pub proof fn lemma_unregistered_day_excluded<S>(rs: Seq<Registration<S>>, es: Seq<ReportEntry>, d: int)
    requires
        covers(rs, es),
        1 <= d <= 25,
        !registered(rs, d, 1),
        !registered(rs, d, 2),
        !registered(rs, d, 3),
    ensures
        !day_has_entry(es, d),
        day_total(es, d) == 0,
{
    lemma_unregistered_cell_absent(rs, es, d, 1);
    lemma_unregistered_cell_absent(rs, es, d, 2);
    lemma_unregistered_cell_absent(rs, es, d, 3);
}

/// Every registered cell of the grid has an attempted outcome in the report
/// of a run, whatever happened in the other cells, a failure among them.
pub proof fn lemma_registered_cell_reported<S>(rs: Seq<Registration<S>>, es: Seq<ReportEntry>, d: int, p: int)
    requires
        covers(rs, es),
        in_grid(d, p),
        registered(rs, d, p),
    ensures
        entry_for(es, d, p) matches Some(e) && entry_is(e, d, p) && !(e.outcome is Skipped),
{
    let k = choose|k: int| 0 <= k < es.len() && entry_is(#[trigger] es[k], d, p);
    lemma_entry_for_some(es, d, p, k);
    let e = entry_for(es, d, p)->Some_0;
    let j = choose|j: int| 0 <= j < es.len() && es[j] == e;
    lemma_entry_for_is(es, d, p);
    assert(!(es[j].outcome is Skipped));
}

/// What the lookup for cell (`d`, `p`) finds is an entry for that cell.
proof fn lemma_entry_for_is(es: Seq<ReportEntry>, d: int, p: int)
    ensures
        entry_for(es, d, p) matches Some(e) ==> entry_is(e, d, p),
    decreases es.len(),
{
    if es.len() > 0 {
        lemma_entry_for_is(es.drop_last(), d, p);
    }
}

} // verus!
