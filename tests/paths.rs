use everybody_codes::day::Day;
use everybody_codes::paths::{
    fetch_args, get_description_path, get_input_path, get_sample_answer_path, get_sample_path,
    module_source, read_args, solution_module_path, submit_args,
};

#[test]
fn data_paths() {
    let d = Day::new(7).unwrap();
    assert_eq!(get_input_path(d, 2), "data/inputs/07-2.txt");
    assert_eq!(get_sample_path(d, 1), "data/samples/07-1.txt");
    assert_eq!(get_sample_answer_path(d, 3), "data/answers/07-3.txt");
    assert_eq!(get_description_path(d, 1), "data/descriptions/07-1.html");
}

#[test]
fn command_arguments() {
    let d = Day::new(12).unwrap();
    assert_eq!(read_args(d, None), vec!["read", "-d", "12"]);
    assert_eq!(read_args(d, Some(2024)), vec!["read", "-d", "12", "-y", "2024"]);
    assert_eq!(submit_args(d, 2, "4711", None), vec!["submit", "-d", "12", "-p", "2", "4711"]);
    assert_eq!(
        fetch_args(d, 3, Some(2025)),
        vec![
            "fetch",
            "-d",
            "12",
            "-p",
            "3",
            "--sample-path",
            "data/samples/12-3.txt",
            "--sample-answer-path",
            "data/answers/12-3.txt",
            "--input-path",
            "data/inputs/12-3.txt",
            "--description-path",
            "data/descriptions/12-3.html",
            "-y",
            "2025",
        ]
    );
}

#[test]
fn solution_module_files() {
    let d = Day::new(4).unwrap();
    assert_eq!(solution_module_path(d), "src/bin/04.rs");
    let source = module_source(Day::new(12).unwrap());
    assert!(source.starts_with("// Day 12\n\npub fn part_one(input: &str) -> Option<u64> {\n"));
    assert!(source.ends_with("pub fn part_three(input: &str) -> Option<u64> {\n    None\n}\n"));
    assert!(module_source(d).starts_with("// Day 4\n"));
}
