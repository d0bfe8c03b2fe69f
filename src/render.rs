use vstd::prelude::*;

use crate::day::Day;
use crate::report::{day_has_entry, entry_for, Outcome, Report, ReportEntry};
use crate::text::{decimal, push_decimal, push_three_digits, three_digits, two_digits};

verus! {

/// The text of a duration of `n` nanoseconds: microseconds below a
/// millisecond, milliseconds below a second, seconds above, each with three
/// decimals (truncated).
pub open spec fn duration_text(n: nat) -> Seq<char> {
    if n < 1_000_000 {
        decimal(n / 1000) + seq!['.'] + three_digits(n % 1000) + seq!['µ', 's']
    } else if n < 1_000_000_000 {
        decimal(n / 1_000_000) + seq!['.'] + three_digits((n / 1000) % 1000) + seq!['m', 's']
    } else {
        decimal(n / 1_000_000_000) + seq!['.'] + three_digits((n / 1_000_000) % 1000) + seq!['s']
    }
}

/// The figure that the table shows for an outcome: the mean of its samples,
/// or nothing where the cell did not time.
pub open spec fn outcome_figure(o: Outcome) -> nat {
    match o {
        Outcome::Timed { stats, .. } => stats.mean as nat,
        _ => 0,
    }
}

/// The figure of cell (`d`, `p`) of a report.
pub open spec fn cell_figure(es: Seq<ReportEntry>, d: int, p: int) -> nat {
    match entry_for(es, d, p) {
        Some(e) => outcome_figure(e.outcome),
        None => 0,
    }
}

/// The total of day `d`: the sum of the figures of its three parts.
pub open spec fn day_total(es: Seq<ReportEntry>, d: int) -> nat {
    cell_figure(es, d, 1) + cell_figure(es, d, 2) + cell_figure(es, d, 3)
}

/// The sum of the day totals of the days before `n`.
pub open spec fn total_before(es: Seq<ReportEntry>, n: int) -> nat
    decreases n,
{
    if n <= 1 {
        0
    } else {
        total_before(es, n - 1) + day_total(es, n - 1)
    }
}

/// The grand total of a report over all days.
pub open spec fn grand_total(es: Seq<ReportEntry>) -> nat {
    total_before(es, 26)
}

/// The text of a cell: its figure, a failure or missing-input marker, or a
/// dash where nothing was attempted.
pub open spec fn cell_text(e: Option<ReportEntry>) -> Seq<char> {
    match e {
        Some(entry) => match entry.outcome {
            Outcome::Timed { stats, .. } => duration_text(stats.mean as nat),
            Outcome::Failed { .. } => "failed"@,
            Outcome::MissingInput => "missing"@,
            Outcome::Skipped => "-"@,
        },
        None => "-"@,
    }
}

/// The separator and text of cell (`d`, `p`) within a row.
pub open spec fn cell_segment(es: Seq<ReportEntry>, d: int, p: int) -> Seq<char> {
    " | "@ + cell_text(entry_for(es, d, p))
}

/// The table row of day `d`.
pub open spec fn row_text(es: Seq<ReportEntry>, d: int) -> Seq<char> {
    ("| "@ + two_digits(d as nat)) + (cell_segment(es, d, 1) + cell_segment(es, d, 2) + cell_segment(
        es,
        d,
        3,
    )) + (" | "@ + duration_text(day_total(es, d)) + " |\n"@)
}

/// The rows of the days before `n` that have an entry.
pub open spec fn rows_before(es: Seq<ReportEntry>, n: int) -> Seq<char>
    decreases n,
{
    if n <= 1 {
        Seq::empty()
    } else {
        rows_before(es, n - 1) + if day_has_entry(es, n - 1) {
            row_text(es, n - 1)
        } else {
            Seq::empty()
        }
    }
}

/// The first lines of the table.
pub open spec fn table_header() -> Seq<char> {
    "| Day | Part 1 | Part 2 | Part 3 | Total |\n| :---: | ---: | ---: | ---: | ---: |\n"@
}

/// The text of a report: the table, one row per day with an entry, then the
/// grand total.
pub open spec fn report_text(es: Seq<ReportEntry>) -> Seq<char> {
    table_header() + rows_before(es, 26) + "\n**Total: "@ + duration_text(grand_total(es)) + "**\n"@
}

/// Appends the text of a duration of `n` nanoseconds.
pub fn push_duration(s: &mut String, n: u128)
    ensures
        final(s)@ == old(s)@ + duration_text(n as nat),
{
    proof {
        reveal_strlit(".");
        reveal_strlit("µs");
        reveal_strlit("ms");
        reveal_strlit("s");
    }
    if n < 1_000_000 {
        push_decimal(s, n / 1000);
        s.append(".");
        push_three_digits(s, n % 1000);
        s.append("µs");
    } else if n < 1_000_000_000 {
        push_decimal(s, n / 1_000_000);
        s.append(".");
        push_three_digits(s, (n / 1000) % 1000);
        s.append("ms");
    } else {
        push_decimal(s, n / 1_000_000_000);
        s.append(".");
        push_three_digits(s, (n / 1_000_000) % 1000);
        s.append("s");
    }
    assert(final(s)@ =~= old(s)@ + duration_text(n as nat));
}

/// The text of a duration of `n` nanoseconds.
pub fn format_duration(n: u128) -> (r: String)
    ensures
        r@ == duration_text(n as nat),
{
    let mut s = String::new();
    push_duration(&mut s, n);
    assert(s@ =~= duration_text(n as nat));
    s
}

/// The position of the entry for cell (`d`, `p`), the first with that key.
fn find_entry(es: &Vec<ReportEntry>, d: u8, p: u8) -> (r: Option<usize>)
    ensures
        r matches Some(i) ==> i < es@.len() && entry_for(es@, d as int, p as int) == Some(es@[i as int]),
        r is None ==> entry_for(es@, d as int, p as int) is None,
{
    let mut found: Option<usize> = None;
    let mut j: usize = 0;
    proof {
        assert(es@.take(0) =~= Seq::<ReportEntry>::empty());
    }
    while j < es.len()
        invariant
            j <= es@.len(),
            found matches Some(i) ==> i < j && entry_for(es@.take(j as int), d as int, p as int) == Some(
                es@[i as int],
            ),
            found is None ==> entry_for(es@.take(j as int), d as int, p as int) is None,
        decreases es@.len() - j,
    {
        proof {
            assert(es@.take(j + 1).drop_last() =~= es@.take(j as int));
        }
        if found.is_none() && es[j].day.eq_u8(d) && es[j].part == p {
            found = Some(j);
        }
        j = j + 1;
    }
    proof {
        assert(es@.take(es@.len() as int) =~= es@);
    }
    found
}

/// The figure of cell (`d`, `p`).
fn figure_of(es: &Vec<ReportEntry>, d: u8, p: u8) -> (r: u64)
    ensures
        r == cell_figure(es@, d as int, p as int),
{
    match find_entry(es, d, p) {
        Some(i) => match &es[i].outcome {
            Outcome::Timed { stats, .. } => stats.mean,
            _ => 0,
        },
        None => 0,
    }
}

/// Appends the text of cell (`d`, `p`).
fn push_cell(s: &mut String, es: &Vec<ReportEntry>, d: u8, p: u8)
    ensures
        final(s)@ == old(s)@ + cell_text(entry_for(es@, d as int, p as int)),
{
    match find_entry(es, d, p) {
        Some(i) => match &es[i].outcome {
            Outcome::Timed { stats, .. } => push_duration(s, stats.mean as u128),
            Outcome::Failed { .. } => s.append("failed"),
            Outcome::MissingInput => s.append("missing"),
            Outcome::Skipped => s.append("-"),
        },
        None => s.append("-"),
    }
}

/// Appends the separator and text of cell (`d`, `p`).
fn push_cell_segment(s: &mut String, es: &Vec<ReportEntry>, d: u8, p: u8)
    ensures
        final(s)@ == old(s)@ + cell_segment(es@, d as int, p as int),
{
    s.append(" | ");
    push_cell(s, es, d, p);
    assert(final(s)@ =~= old(s)@ + cell_segment(es@, d as int, p as int));
}

/// Appends the row of day `d`, whose total is `total`.
fn push_row(s: &mut String, es: &Vec<ReportEntry>, d: u8, total: u128)
    requires
        1 <= d <= 25,
        total == day_total(es@, d as int),
    ensures
        final(s)@ == old(s)@ + row_text(es@, d as int),
{
    let ghost s0 = s@;
    let day = Day::__new_unchecked(d);
    s.append("| ");
    let name = day.to_string();
    s.append(name.as_str());
    let ghost head = "| "@ + two_digits(d as nat);
    assert(s@ =~= s0 + head);
    let ghost s1 = s@;
    push_cell_segment(s, es, d, 1);
    push_cell_segment(s, es, d, 2);
    push_cell_segment(s, es, d, 3);
    let ghost cells = cell_segment(es@, d as int, 1) + cell_segment(es@, d as int, 2) + cell_segment(
        es@,
        d as int,
        3,
    );
    assert(s@ =~= s1 + cells);
    let ghost s2 = s@;
    s.append(" | ");
    push_duration(s, total);
    s.append(" |\n");
    let ghost tail = " | "@ + duration_text(day_total(es@, d as int)) + " |\n"@;
    assert(s@ =~= s2 + tail);
    assert(s@ =~= s0 + (head + cells + tail));
}

/// Renders a report as a table: one row per day that has an entry, with the
/// mean time of each part, a dash for a part without an entry and the day's
/// total, then the grand total. The same report always gives the same text.
pub fn render(report: &Report) -> (r: String)
    ensures
        r@ == report_text(report.entries@),
{
    let es = &report.entries;
    let mut s = String::new();
    s.append("| Day | Part 1 | Part 2 | Part 3 | Total |\n| :---: | ---: | ---: | ---: | ---: |\n");
    let mut grand: u128 = 0;
    let mut d: u8 = 1;
    while d <= 25
        invariant
            1 <= d <= 26,
            s@ == table_header() + rows_before(es@, d as int),
            grand == total_before(es@, d as int),
            grand <= (d - 1) * 3 * 0xffff_ffff_ffff_ffffint,
        decreases 26 - d,
    {
        let ghost before = s@;
        let f1 = figure_of(es, d, 1);
        let f2 = figure_of(es, d, 2);
        let f3 = figure_of(es, d, 3);
        let total = f1 as u128 + f2 as u128 + f3 as u128;
        let present = find_entry(es, d, 1).is_some() || find_entry(es, d, 2).is_some() || find_entry(
            es,
            d,
            3,
        ).is_some();
        if present {
            push_row(&mut s, es, d, total);
        } else {
            assert(s@ =~= before + Seq::<char>::empty());
        }
        grand = grand + total;
        d = d + 1;
        assert(s@ =~= table_header() + rows_before(es@, d as int));
    }
    s.append("\n**Total: ");
    push_duration(&mut s, grand);
    s.append("**\n");
    assert(s@ =~= report_text(es@));
    s
}

/// Rendering depends on the report's entries alone: reports with the same
/// entries render to the same text, on every call.
pub proof fn lemma_render_deterministic(a: Seq<ReportEntry>, b: Seq<ReportEntry>)
    requires
        a == b,
    ensures
        report_text(a) == report_text(b),
{
}

/// The text of an answer, or the marker of an unsolved cell.
pub open spec fn answer_text(answer: Option<u64>) -> Seq<char> {
    match answer {
        Some(v) => decimal(v as nat),
        None => "unsolved"@,
    }
}

/// The console line that reports the outcome of cell (`day`, `part`).
pub open spec fn outcome_line_text(day: Day, part: u8, o: Outcome) -> Seq<char> {
    ("Day "@ + two_digits(day.value() as nat) + " part "@ + decimal(part as nat) + ": "@) + match o {
        Outcome::Skipped => "skipped"@,
        Outcome::MissingInput => "missing input"@,
        Outcome::Failed { message } => "failed: "@ + message@,
        Outcome::Timed { answer, stats } => answer_text(answer) + " ("@ + duration_text(
            stats.mean as nat,
        ) + ")"@,
    }
}

/// The console line that reports an outcome: the cell, then the answer and
/// the mean time, or a marker of an unsolved, failed, skipped or unreadable cell.
pub fn outcome_line(day: Day, part: u8, outcome: &Outcome) -> (r: String)
    ensures
        r@ == outcome_line_text(day, part, *outcome),
{
    let mut s = String::from_str("Day ");
    let name = day.to_string();
    s.append(name.as_str());
    s.append(" part ");
    push_decimal(&mut s, part as u128);
    s.append(": ");
    let ghost head = "Day "@ + two_digits(day.value() as nat) + " part "@ + decimal(part as nat) + ": "@;
    assert(s@ =~= head);
    match outcome {
        Outcome::Skipped => s.append("skipped"),
        Outcome::MissingInput => s.append("missing input"),
        Outcome::Failed { message } => {
            s.append("failed: ");
            s.append(message.as_str());
        },
        Outcome::Timed { answer, stats } => {
            match answer {
                Some(v) => push_decimal(&mut s, *v as u128),
                None => s.append("unsolved"),
            }
            s.append(" (");
            push_duration(&mut s, stats.mean as u128);
            s.append(")");
        },
    }
    assert(s@ =~= outcome_line_text(day, part, *outcome));
    s
}

} // verus!
