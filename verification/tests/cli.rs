use process_stats::cli::{decide, parse_arguments, usage_text, Invocation, UsageError};

fn strings(fields: &[&str]) -> Vec<String> {
    fields.iter().map(|field| field.to_string()).collect()
}

fn run_of(result: Result<Invocation, UsageError>) -> (String, Option<String>) {
    match result {
        Ok(Invocation::Run { input, output_directory }) => (input, output_directory),
        Ok(Invocation::Help) => panic!("help was not asked for"),
        Err(error) => panic!("{:?}", error),
    }
}

#[test]
fn input_alone_is_a_run() {
    let (input, directory) = run_of(parse_arguments(&strings(&["input.csv"])));
    assert_eq!(input, "input.csv");
    assert_eq!(directory, None);
}

#[test]
fn output_directory_is_taken_in_each_form() {
    for arguments in [
        strings(&["-d", "out", "input.csv"]),
        strings(&["input.csv", "-d", "out"]),
        strings(&["-dout", "input.csv"]),
        strings(&["--output-directory", "out", "input.csv"]),
        strings(&["--output-directory=out", "input.csv"]),
    ] {
        let (input, directory) = run_of(parse_arguments(&arguments));
        assert_eq!(input, "input.csv");
        assert_eq!(directory, Some("out".to_string()));
    }
}

#[test]
fn first_free_argument_is_the_input() {
    let (input, directory) = run_of(parse_arguments(&strings(&["a.csv", "b.csv"])));
    assert_eq!(input, "a.csv");
    assert_eq!(directory, None);
    let (input, _) = run_of(parse_arguments(&strings(&["--", "-h"])));
    assert_eq!(input, "-h");
}

#[test]
fn help_goes_before_everything_else() {
    for arguments in [
        strings(&["-h"]),
        strings(&["--help"]),
        strings(&["-h", "input.csv"]),
        strings(&["input.csv", "--help", "-d", "out"]),
    ] {
        assert!(matches!(parse_arguments(&arguments), Ok(Invocation::Help)));
    }
}

#[test]
fn missing_input_is_an_error() {
    assert!(matches!(parse_arguments(&Vec::new()), Err(UsageError::MissingInput)));
    assert!(matches!(parse_arguments(&strings(&["-d", "out"])), Err(UsageError::MissingInput)));
}

#[test]
fn options_that_are_not_declared_are_rejected() {
    assert!(matches!(parse_arguments(&strings(&["-x", "input.csv"])), Err(UsageError::Rejected)));
    assert!(matches!(parse_arguments(&strings(&["--verbose"])), Err(UsageError::Rejected)));
}

#[test]
fn options_used_otherwise_than_declared_are_rejected() {
    assert!(matches!(parse_arguments(&strings(&["input.csv", "-d"])), Err(UsageError::Rejected)));
    assert!(matches!(parse_arguments(&strings(&["--help=yes"])), Err(UsageError::Rejected)));
    assert!(matches!(
        parse_arguments(&strings(&["-d", "a", "-d", "b", "input.csv"])),
        Err(UsageError::Rejected)
    ));
    assert!(matches!(parse_arguments(&strings(&["-h", "-h"])), Err(UsageError::Rejected)));
}

#[test]
fn decide_follows_help_then_input() {
    assert!(matches!(decide(true, None, &Vec::new()), Ok(Invocation::Help)));
    assert!(matches!(
        decide(true, Some("out".to_string()), &strings(&["a.csv"])),
        Ok(Invocation::Help)
    ));
    assert!(matches!(decide(false, None, &Vec::new()), Err(UsageError::MissingInput)));
    let (input, directory) = run_of(decide(false, Some("out".to_string()), &strings(&["a", "b"])));
    assert_eq!(input, "a");
    assert_eq!(directory, Some("out".to_string()));
}

#[test]
fn usage_names_the_program_and_the_options() {
    let usage = usage_text("process-stats");
    assert!(usage.starts_with("Usage: process-stats [options] input.csv\n\nOptions:\n"));
    assert!(usage.contains("-h, --help"));
    assert!(usage.contains("print this message"));
    assert!(usage.contains("-d, --output-directory DIR"));
    assert!(usage.contains("Graph output folder"));
    assert!(usage.ends_with("\n"));
}
