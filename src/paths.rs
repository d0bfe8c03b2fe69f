use vstd::prelude::*;

use crate::day::Day;
use crate::text::{decimal, push_decimal, two_digits};

verus! {

/// `data/<folder>/<day>-<part><ext>`.
pub open spec fn data_path(folder: Seq<char>, day: Day, part: u8, ext: Seq<char>) -> Seq<char> {
    "data/"@ + folder + "/"@ + two_digits(day.value() as nat) + "-"@ + decimal(part as nat) + ext
}

/// The path `data/<folder>/<day>-<part><ext>`.
pub fn data_file_path(folder: &str, day: Day, part: u8, ext: &str) -> (r: String)
    ensures
        r@ == data_path(folder@, day, part, ext@),
{
    let mut s = String::from_str("data/");
    s.append(folder);
    s.append("/");
    let name = day.to_string();
    s.append(name.as_str());
    s.append("-");
    push_decimal(&mut s, part as u128);
    s.append(ext);
    assert(s@ =~= data_path(folder@, day, part, ext@));
    s
}

/// Where the puzzle input of a part is stored.
pub fn get_input_path(day: Day, part: u8) -> (r: String)
    ensures
        r@ == data_path("inputs"@, day, part, ".txt"@),
{
    data_file_path("inputs", day, part, ".txt")
}

/// Where the sample input of a part is stored.
pub fn get_sample_path(day: Day, part: u8) -> (r: String)
    ensures
        r@ == data_path("samples"@, day, part, ".txt"@),
{
    data_file_path("samples", day, part, ".txt")
}

/// Where the answer to the sample of a part is stored.
pub fn get_sample_answer_path(day: Day, part: u8) -> (r: String)
    ensures
        r@ == data_path("answers"@, day, part, ".txt"@),
{
    data_file_path("answers", day, part, ".txt")
}

/// Where the description of a part is stored.
pub fn get_description_path(day: Day, part: u8) -> (r: String)
    ensures
        r@ == data_path("descriptions"@, day, part, ".html"@),
{
    data_file_path("descriptions", day, part, ".html")
}

/// The text of a string literal as an owned string.
fn owned(s: &str) -> (r: String)
    ensures
        r@ == s@,
{
    String::from_str(s)
}

/// The decimal text of a number.
fn number_text(n: u128) -> (r: String)
    ensures
        r@ == decimal(n as nat),
{
    let mut s = String::new();
    push_decimal(&mut s, n);
    assert(s@ =~= decimal(n as nat));
    s
}

/// Appends `-y <year>` where a year is set.
fn push_year(args: &mut Vec<String>, year: Option<u16>)
    ensures
        final(args)@.map_values(|a: String| a@) == old(args)@.map_values(|a: String| a@) + year_args(year),
{
    let ghost start = args@.map_values(|a: String| a@);
    if let Some(y) = year {
        args.push(owned("-y"));
        args.push(number_text(y as u128));
    }
    assert(args@.map_values(|a: String| a@) =~= start + year_args(year));
}

/// The arguments that select a year, where one is set.
pub open spec fn year_args(year: Option<u16>) -> Seq<Seq<char>> {
    match year {
        Some(y) => seq!["-y"@, decimal(y as nat)],
        None => Seq::empty(),
    }
}

/// The command-line arguments that read the description of `day`.
pub fn read_args(day: Day, year: Option<u16>) -> (r: Vec<String>)
    ensures
        r@.map_values(|a: String| a@) == seq!["read"@, "-d"@, two_digits(day.value() as nat)] + year_args(year),
{
    let mut args: Vec<String> = Vec::new();
    args.push(owned("read"));
    args.push(owned("-d"));
    args.push(day.to_string());
    assert(args@.map_values(|a: String| a@) =~= seq!["read"@, "-d"@, two_digits(day.value() as nat)]);
    push_year(&mut args, year);
    args
}

/// The command-line arguments that fetch part `part` of `day` into the data files.
pub fn fetch_args(day: Day, part: u8, year: Option<u16>) -> (r: Vec<String>)
    ensures
        r@.map_values(|a: String| a@) == seq![
            "fetch"@,
            "-d"@,
            two_digits(day.value() as nat),
            "-p"@,
            decimal(part as nat),
            "--sample-path"@,
            data_path("samples"@, day, part, ".txt"@),
            "--sample-answer-path"@,
            data_path("answers"@, day, part, ".txt"@),
            "--input-path"@,
            data_path("inputs"@, day, part, ".txt"@),
            "--description-path"@,
            data_path("descriptions"@, day, part, ".html"@),
        ] + year_args(year),
{
    let mut args: Vec<String> = Vec::new();
    args.push(owned("fetch"));
    args.push(owned("-d"));
    args.push(day.to_string());
    args.push(owned("-p"));
    args.push(number_text(part as u128));
    args.push(owned("--sample-path"));
    args.push(get_sample_path(day, part));
    args.push(owned("--sample-answer-path"));
    args.push(get_sample_answer_path(day, part));
    args.push(owned("--input-path"));
    args.push(get_input_path(day, part));
    args.push(owned("--description-path"));
    args.push(get_description_path(day, part));
    assert(args@.map_values(|a: String| a@) =~= seq![
        "fetch"@,
        "-d"@,
        two_digits(day.value() as nat),
        "-p"@,
        decimal(part as nat),
        "--sample-path"@,
        data_path("samples"@, day, part, ".txt"@),
        "--sample-answer-path"@,
        data_path("answers"@, day, part, ".txt"@),
        "--input-path"@,
        data_path("inputs"@, day, part, ".txt"@),
        "--description-path"@,
        data_path("descriptions"@, day, part, ".html"@),
    ]);
    push_year(&mut args, year);
    args
}

/// The command-line arguments that submit `result` for part `part` of `day`.
pub fn submit_args(day: Day, part: u8, result: &str, year: Option<u16>) -> (r: Vec<String>)
    ensures
        r@.map_values(|a: String| a@) == seq![
            "submit"@,
            "-d"@,
            two_digits(day.value() as nat),
            "-p"@,
            decimal(part as nat),
            result@,
        ] + year_args(year),
{
    let mut args: Vec<String> = Vec::new();
    args.push(owned("submit"));
    args.push(owned("-d"));
    args.push(day.to_string());
    args.push(owned("-p"));
    args.push(number_text(part as u128));
    args.push(String::from_str(result));
    assert(args@.map_values(|a: String| a@) =~= seq![
        "submit"@,
        "-d"@,
        two_digits(day.value() as nat),
        "-p"@,
        decimal(part as nat),
        result@,
    ]);
    push_year(&mut args, year);
    args
}

/// Where the solution module of a day is created.
pub fn solution_module_path(day: Day) -> (r: String)
    ensures
        r@ == "src/bin/"@ + two_digits(day.value() as nat) + ".rs"@,
{
    let mut s = String::from_str("src/bin/");
    let name = day.to_string();
    s.append(name.as_str());
    s.append(".rs");
    s
}

/// The body of a new solution module: the three parts, none solved yet.
pub open spec fn module_body() -> Seq<char> {
    "\n\npub fn part_one(input: &str) -> Option<u64> {\n    None\n}\n\npub fn part_two(input: &str) -> Option<u64> {\n    None\n}\n\npub fn part_three(input: &str) -> Option<u64> {\n    None\n}\n"@
}

/// The source of a new solution module for `day`: a heading that names the
/// day's number, then the three unsolved parts.
pub fn module_source(day: Day) -> (r: String)
    ensures
        r@ == "// Day "@ + decimal(day.value() as nat) + module_body(),
{
    let mut s = String::from_str("// Day ");
    push_decimal(&mut s, day.into_inner() as u128);
    s.append("\n\npub fn part_one(input: &str) -> Option<u64> {\n    None\n}\n\npub fn part_two(input: &str) -> Option<u64> {\n    None\n}\n\npub fn part_three(input: &str) -> Option<u64> {\n    None\n}\n");
    s
}

} // verus!
