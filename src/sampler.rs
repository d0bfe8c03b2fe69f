use vstd::prelude::*;

use crate::clock::{elapsed_nanos, monotonic_now};

verus! {

/// A solver for one part of one day: text in, optional answer out.
pub trait Solver {
    /// Runs the solver on `input`: `Ok` with its answer (`None` when it has
    /// none), or `Err` with a message when it aborted.
    fn solve(&self, input: &str) -> Result<Option<u64>, String>;
}

/// What a successful sampling run found: the answer of the first
/// invocation and the time of every invocation, in nanoseconds.
pub struct SampleRun {
    pub answer: Option<u64>,
    pub samples: Vec<u64>,
}

/// Records what one invocation gave: its time always joins the samples on
/// success, its answer only where it is the first, and an abort is handed
/// back with nothing recorded.
pub fn record(run: &mut SampleRun, first: bool, result: Result<Option<u64>, String>, nanos: u64) -> (r: Option<String>)
    ensures
        result matches Ok(v) ==> r is None && final(run).samples@ == old(run).samples@.push(nanos)
            && final(run).answer == (if first { v } else { old(run).answer }),
        result matches Err(m) ==> r == Some(m) && final(run).samples@ == old(run).samples@
            && final(run).answer == old(run).answer,
{
    match result {
        Ok(value) => {
            if first {
                run.answer = value;
            }
            run.samples.push(nanos);
            None
        },
        Err(message) => Some(message),
    }
}

/// Invokes `solver` on `input` `iterations` times, timing each call on the
/// monotonic clock. Only the first answer is kept; the later calls are for
/// timing only. An abort of any call is handed back unchanged.
pub fn sample<S: Solver>(solver: &S, input: &str, iterations: usize) -> (r: Result<SampleRun, String>)
    requires
        iterations >= 1,
    ensures
        r matches Ok(run) ==> run.samples@.len() == iterations,
{
    let mut run = SampleRun { answer: None, samples: Vec::new() };
    let mut i: usize = 0;
    while i < iterations
        invariant
            i <= iterations,
            run.samples@.len() == i,
        decreases iterations - i,
    {
        let start = monotonic_now();
        let result = solver.solve(input);
        let nanos = elapsed_nanos(&start);
        if let Some(message) = record(&mut run, i == 0, result, nanos) {
            return Err(message);
        }
        i = i + 1;
    }
    Ok(run)
}

} // verus!
