use std::cell::Cell;

use everybody_codes::day::Day;
use everybody_codes::merge::{merge, MergeError};
use everybody_codes::render::{format_duration, outcome_line, render};
use everybody_codes::report::{Outcome, Report, ReportEntry};
use everybody_codes::paths::data_file_path;
use everybody_codes::runner::{invoke, outcome_of_run, run_all, Registry, RunError};
use everybody_codes::sampler::{record, sample, SampleRun, Solver};
use everybody_codes::stats::Aggregate;

struct Answering(Option<u64>);

impl Solver for Answering {
    fn solve(&self, _input: &str) -> Result<Option<u64>, String> {
        Ok(self.0)
    }
}

struct Counting {
    calls: Cell<u64>,
}

impl Solver for Counting {
    fn solve(&self, input: &str) -> Result<Option<u64>, String> {
        self.calls.set(self.calls.get() + 1);
        Ok(Some(input.len() as u64 * 100 + self.calls.get()))
    }
}

struct Aborting;

impl Solver for Aborting {
    fn solve(&self, _input: &str) -> Result<Option<u64>, String> {
        Err("index out of bounds".to_string())
    }
}

enum Any {
    Answering(Answering),
    Aborting(Aborting),
}

impl Solver for Any {
    fn solve(&self, input: &str) -> Result<Option<u64>, String> {
        match self {
            Any::Answering(s) => s.solve(input),
            Any::Aborting(s) => s.solve(input),
        }
    }
}

fn day(n: u8) -> Day {
    Day::new(n).unwrap()
}

fn timed(nanos: u64) -> Outcome {
    Outcome::Timed { answer: Some(1), stats: Aggregate::from_samples(&vec![nanos]) }
}

#[test]
fn sample_returns_one_time_per_iteration() {
    for n in [1usize, 2, 7] {
        let solver = Counting { calls: Cell::new(0) };
        let run = sample(&solver, "abc", n).ok().unwrap();
        assert_eq!(run.samples.len(), n);
        assert_eq!(solver.calls.get(), n as u64);
        // the answer is the first invocation's
        assert_eq!(run.answer, Some(301));
    }
}

#[test]
fn sample_hands_back_an_abort() {
    assert_eq!(sample(&Aborting, "x", 3).err(), Some("index out of bounds".to_string()));
}

#[test]
fn aggregate_statistics() {
    let a = Aggregate::from_samples(&vec![30, 10, 20, 41]);
    assert_eq!(a.fastest, 10);
    assert_eq!(a.slowest, 41);
    assert_eq!(a.total, 101);
    assert_eq!(a.mean, 25);
    assert_eq!(a.count, 4);
    let big = Aggregate::from_samples(&vec![u64::MAX, u64::MAX]);
    assert_eq!(big.total, 2 * (u64::MAX as u128));
    assert_eq!(big.mean, u64::MAX);
}

#[test]
fn invoke_distinguishes_outcomes() {
    let input = Some("data".to_string());
    assert!(matches!(invoke::<Answering>(None, &input, 1), Outcome::Skipped));
    assert!(matches!(invoke(Some(&Answering(Some(3))), &None, 1), Outcome::MissingInput));
    assert!(matches!(invoke(Some(&Aborting), &input, 1), Outcome::Failed { .. }));
    match invoke(Some(&Answering(None)), &input, 4) {
        Outcome::Timed { answer, stats } => {
            assert_eq!(answer, None);
            assert_eq!(stats.count, 4);
        }
        _ => panic!("expected a timed outcome"),
    }
}

#[test]
fn durations_follow_the_unit_rule() {
    assert_eq!(format_duration(0), "0.000µs");
    assert_eq!(format_duration(45_000), "45.000µs");
    assert_eq!(format_duration(999_999), "999.999µs");
    assert_eq!(format_duration(1_000_000), "1.000ms");
    assert_eq!(format_duration(1_200_000), "1.200ms");
    assert_eq!(format_duration(2_045_000), "2.045ms");
    assert_eq!(format_duration(1_500_000_000), "1.500s");
    assert_eq!(format_duration(123_456_789_000), "123.456s");
}

fn example_report() -> Report {
    Report {
        entries: vec![
            ReportEntry { day: day(1), part: 1, outcome: timed(1_200_000) },
            ReportEntry { day: day(1), part: 2, outcome: timed(800_000) },
            ReportEntry { day: day(2), part: 1, outcome: timed(45_000) },
        ],
    }
}

const EXAMPLE_TABLE: &str = "| Day | Part 1 | Part 2 | Part 3 | Total |\n| :---: | ---: | ---: | ---: | ---: |\n| 01 | 1.200ms | 800.000µs | - | 2.000ms |\n| 02 | 45.000µs | - | - | 45.000µs |\n\n**Total: 2.045ms**\n";

#[test]
fn render_example_report() {
    assert_eq!(render(&example_report()), EXAMPLE_TABLE);
}

#[test]
fn render_is_repeatable() {
    let r = example_report();
    assert_eq!(render(&r), render(&r));
    assert_eq!(render(&r), render(&example_report()));
}

#[test]
fn render_marks_failed_and_missing_cells() {
    let r = Report {
        entries: vec![
            ReportEntry { day: day(3), part: 1, outcome: Outcome::Failed { message: "boom".to_string() } },
            ReportEntry { day: day(3), part: 3, outcome: Outcome::MissingInput },
        ],
    };
    assert_eq!(
        render(&r),
        "| Day | Part 1 | Part 2 | Part 3 | Total |\n| :---: | ---: | ---: | ---: | ---: |\n| 03 | failed | - | missing | 0.000µs |\n\n**Total: 0.000µs**\n"
    );
}

#[test]
fn run_all_reports_registered_cells_only() {
    let mut registry = Registry::new();
    registry.register(day(4), 2, Any::Answering(Answering(Some(9))), Some("in".to_string()));
    registry.register(day(2), 3, Any::Aborting(Aborting), Some("in".to_string()));
    registry.register(day(2), 1, Any::Answering(Answering(None)), Some("in".to_string()));
    registry.register(day(9), 1, Any::Answering(Answering(Some(1))), None);
    let report = run_all(&registry, 2).ok().unwrap();
    let keys: Vec<(u8, u8)> = report.entries.iter().map(|e| (e.day.into_inner(), e.part)).collect();
    assert_eq!(keys, vec![(2, 1), (2, 3), (4, 2), (9, 1)]);
    // the aborting solver fails its own cell only
    assert!(matches!(report.entries[0].outcome, Outcome::Timed { answer: None, .. }));
    assert!(matches!(report.entries[1].outcome, Outcome::Failed { .. }));
    assert!(matches!(report.entries[2].outcome, Outcome::Timed { answer: Some(9), .. }));
    assert!(matches!(report.entries[3].outcome, Outcome::MissingInput));
    // days without solvers have no row; absent parts show a dash
    let text = render(&report);
    assert!(!text.contains("| 01 |"));
    assert!(!text.contains("| 03 |"));
    assert!(text.contains("| 02 | "));
    assert!(text.contains("| 09 | missing | - | - | 0.000µs |"));
}

#[test]
fn run_all_with_nothing_registered_is_empty() {
    let registry: Registry<Answering> = Registry::new();
    assert_eq!(run_all(&registry, 1).err(), Some(RunError::EmptyReport));
}

#[test]
fn outcome_lines() {
    assert_eq!(outcome_line(day(1), 2, &Outcome::Skipped), "Day 01 part 2: skipped");
    assert_eq!(outcome_line(day(1), 2, &Outcome::MissingInput), "Day 01 part 2: missing input");
    assert_eq!(
        outcome_line(day(5), 1, &Outcome::Failed { message: "boom".to_string() }),
        "Day 05 part 1: failed: boom"
    );
    assert_eq!(outcome_line(day(5), 3, &timed(1_200_000)), "Day 05 part 3: 1 (1.200ms)");
    let unsolved = Outcome::Timed { answer: None, stats: Aggregate::from_samples(&vec![45_000]) };
    assert_eq!(outcome_line(day(5), 3, &unsolved), "Day 05 part 3: unsolved (45.000µs)");
}

#[test]
fn merge_replaces_only_the_marked_region() {
    let doc = b"# Title\n<!-- timings -->\nold table\n<!-- /timings -->\ntrailer\n";
    let out = merge(b"NEW", doc).unwrap();
    assert_eq!(out, b"# Title\n<!-- timings -->NEW<!-- /timings -->\ntrailer\n".to_vec());
}

#[test]
fn merge_is_idempotent() {
    let text = render(&example_report());
    let doc = b"intro <!-- timings --> x <!-- /timings --> outro";
    let once = merge(text.as_bytes(), doc).unwrap();
    let twice = merge(text.as_bytes(), &once).unwrap();
    assert_eq!(once, twice);
}

#[test]
fn merge_keeps_arbitrary_surroundings() {
    let prefix = "ünïcode <!-- timings";
    let suffix = " -- /timings --> \u{0}\u{7f} end";
    let doc = format!("{prefix}<!-- timings -->middle<!-- /timings -->{suffix}");
    let out = merge(b"T", doc.as_bytes()).unwrap();
    let expected = format!("{prefix}<!-- timings -->T<!-- /timings -->{suffix}");
    assert_eq!(out, expected.into_bytes());
}

#[test]
fn merge_without_markers_fails() {
    assert_eq!(merge(b"T", b"no markers here"), Err(MergeError::MergeTargetInvalid));
    assert_eq!(merge(b"T", b"<!-- timings --> only start"), Err(MergeError::MergeTargetInvalid));
    assert_eq!(merge(b"T", b"<!-- /timings --> <!-- timings -->"), Err(MergeError::MergeTargetInvalid));
}

#[test]
fn record_keeps_first_answer_and_every_time() {
    let mut run = SampleRun { answer: None, samples: vec![] };
    assert_eq!(record(&mut run, true, Ok(Some(7)), 100), None);
    assert_eq!(record(&mut run, false, Ok(Some(8)), 200), None);
    assert_eq!(record(&mut run, false, Ok(None), 300), None);
    assert_eq!(run.answer, Some(7));
    assert_eq!(run.samples, vec![100, 200, 300]);
    assert_eq!(record(&mut run, false, Err("boom".to_string()), 400), Some("boom".to_string()));
    assert_eq!(run.samples, vec![100, 200, 300]);
    assert_eq!(run.answer, Some(7));
}

#[test]
fn outcome_of_sampling_runs() {
    let run = SampleRun { answer: Some(5), samples: vec![10, 30] };
    match outcome_of_run(Ok(run)) {
        Outcome::Timed { answer, stats } => {
            assert_eq!(answer, Some(5));
            assert_eq!((stats.fastest, stats.slowest, stats.mean, stats.total, stats.count), (10, 30, 20, 40, 2));
        }
        _ => panic!("expected a timed outcome"),
    }
    match outcome_of_run(Err("stack overflow".to_string())) {
        Outcome::Failed { message } => assert_eq!(message, "stack overflow"),
        _ => panic!("expected a failed outcome"),
    }
}

#[test]
fn data_file_paths() {
    assert_eq!(data_file_path("inputs", day(3), 1, ".txt"), "data/inputs/03-1.txt");
}
