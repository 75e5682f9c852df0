//! The command line: which options there are and what an invocation asks for.

use vstd::prelude::*;
use vstd::string::StringExecFns;
use crate::text::optional_text;
use crate::text::texts;

verus! {

/// `Options` of getopts: the options that a program declares. Nothing is
/// known of a value but what `declared` names.
#[verifier::external_type_specification]
#[verifier::external_body]
pub struct ExOptions(getopts::Options);

/// `Matches` of getopts: what a command line was found to hold. Nothing is
/// known of a value but what `occurrences` and `free_arguments` name.
#[verifier::external_type_specification]
#[verifier::external_body]
pub struct ExMatches(getopts::Matches);

/// `Fail` of getopts: why a command line was refused. Nothing is known of a
/// value.
#[verifier::external_type_specification]
#[verifier::external_body]
pub struct ExFail(getopts::Fail);

/// The options that a set of options of getopts declares, in the order of
/// their declaration: of each its short name, its long name, its
/// description, the hint for its value, and whether it takes a value. The
/// sets that are built here keep the parsing style that `Options::new` gives
/// them, so that what getopts makes of a command line rests on their
/// declarations alone.
pub uninterp spec fn declared(options: getopts::Options) -> Seq<
    (Seq<char>, Seq<char>, Seq<char>, Seq<char>, bool),
>;

/// What the matches of getopts hold for each name of a declared option: its
/// occurrences on the command line in their order, each with the value that
/// was given to it, if any.
pub uninterp spec fn occurrences(matches: getopts::Matches) -> Map<
    Seq<char>,
    Seq<Option<Seq<char>>>,
>;

/// The free arguments that the matches of getopts hold, in their order.
pub uninterp spec fn free_arguments(matches: getopts::Matches) -> Seq<Seq<char>>;

/// What getopts makes of the arguments under the declared options: the
/// occurrences of each option and the free arguments, or nothing where it
/// refuses the arguments.
pub uninterp spec fn parsed(
    options: Seq<(Seq<char>, Seq<char>, Seq<char>, Seq<char>, bool)>,
    arguments: Seq<Seq<char>>,
) -> Option<(Map<Seq<char>, Seq<Option<Seq<char>>>>, Seq<Seq<char>>)>;

/// The usage message that getopts writes for the declared options below the
/// line `brief`.
pub uninterp spec fn usage_message(
    options: Seq<(Seq<char>, Seq<char>, Seq<char>, Seq<char>, bool)>,
    brief: Seq<char>,
) -> Seq<char>;

/// Names that getopts accepts for an option: a short name of one ASCII
/// character or none, and a long name that is not a single character.
pub open spec fn names_accepted(short_name: &str, long_name: &str) -> bool {
    &&& short_name@.len() == 0 || (short_name@.len() == 1 && short_name.is_ascii())
    &&& long_name@.len() != 1
}

/// Every declared option has a name.
pub open spec fn all_named(options: Seq<(Seq<char>, Seq<char>, Seq<char>, Seq<char>, bool)>) -> bool {
    forall|i: int|
        0 <= i < options.len() ==> (#[trigger] options[i]).0.len() > 0 || options[i].1.len() > 0
}

/// Every name of a declared option, short or long, is among the names that
/// `known` holds.
pub open spec fn names_known(
    known: Map<Seq<char>, Seq<Option<Seq<char>>>>,
    options: Seq<(Seq<char>, Seq<char>, Seq<char>, Seq<char>, bool)>,
) -> bool {
    forall|i: int|
        0 <= i < options.len() ==> {
            &&& (#[trigger] options[i]).0.len() > 0 ==> known.contains_key(options[i].0)
            &&& options[i].1.len() > 0 ==> known.contains_key(options[i].1)
        }
}

/// The value given to the first of the occurrences, if there is an
/// occurrence and it has a value.
pub open spec fn first_value(occurrences: Seq<Option<Seq<char>>>) -> Option<Seq<char>> {
    if occurrences.len() > 0 {
        occurrences[0]
    } else {
        None
    }
}

/// `Options::new` of getopts: a set of options that declares none.
#[verifier::external_body]
fn new_options() -> (options: getopts::Options)
    ensures
        declared(options) == Seq::<(Seq<char>, Seq<char>, Seq<char>, Seq<char>, bool)>::empty(),
{
    getopts::Options::new()
}

/// `Options::optflag` of getopts: declares one more option, which takes no
/// value and has no hint. getopts panics on names that it does not accept.
#[verifier::external_body]
fn add_flag(options: &mut getopts::Options, short_name: &str, long_name: &str, description: &str)
    requires
        names_accepted(short_name, long_name),
    ensures
        declared(*final(options)) == declared(*old(options)).push(
            (short_name@, long_name@, description@, Seq::<char>::empty(), false),
        ),
{
    options.optflag(short_name, long_name, description);
}

/// `Options::optopt` of getopts: declares one more option, which takes a
/// value. getopts panics on names that it does not accept.
#[verifier::external_body]
fn add_value_option(
    options: &mut getopts::Options,
    short_name: &str,
    long_name: &str,
    description: &str,
    hint: &str,
)
    requires
        names_accepted(short_name, long_name),
    ensures
        declared(*final(options)) == declared(*old(options)).push(
            (short_name@, long_name@, description@, hint@, true),
        ),
{
    options.optopt(short_name, long_name, description, hint);
}

/// `Options::parse` of getopts, which panics on a declared option without a
/// name. The matches hold what `parsed` names, and they know every declared
/// name, short or long.
#[verifier::external_body]
fn parse(options: &getopts::Options, arguments: &Vec<String>) -> (result: Result<
    getopts::Matches,
    getopts::Fail,
>)
    requires
        all_named(declared(*options)),
    ensures
        match result {
            Ok(matches) => {
                &&& parsed(declared(*options), texts(arguments@)) == Some(
                    (occurrences(matches), free_arguments(matches)),
                )
                &&& names_known(occurrences(matches), declared(*options))
            },
            Err(_) => parsed(declared(*options), texts(arguments@)) is None,
        },
{
    options.parse(arguments)
}

/// `Matches::opt_present` of getopts, which panics on a name that no option
/// declares: whether the option occurs.
#[verifier::external_body]
fn opt_present(matches: &getopts::Matches, name: &str) -> (present: bool)
    requires
        occurrences(*matches).contains_key(name@),
    ensures
        present == (occurrences(*matches)[name@].len() > 0),
{
    matches.opt_present(name)
}

/// `Matches::opt_str` of getopts, which panics on a name that no option
/// declares: the value given to the first occurrence of the option.
#[verifier::external_body]
fn opt_str(matches: &getopts::Matches, name: &str) -> (value: Option<String>)
    requires
        occurrences(*matches).contains_key(name@),
    ensures
        optional_text(value) == first_value(occurrences(*matches)[name@]),
{
    matches.opt_str(name)
}

/// The field `free` of the matches of getopts: the free arguments.
#[verifier::external_body]
fn free(matches: &getopts::Matches) -> (arguments: Vec<String>)
    ensures
        texts(arguments@) == free_arguments(*matches),
{
    matches.free.clone()
}

/// `Options::usage` of getopts: the usage message for the declared options.
#[verifier::external_body]
fn usage(options: &getopts::Options, brief: &str) -> (message: String)
    ensures
        message@ == usage_message(declared(*options), brief@),
{
    options.usage(brief)
}

/// What an invocation asks for.
pub enum Invocation {
    /// To show the usage message and do nothing else.
    Help,
    /// To analyse the measurements of the file `input`, and to write the
    /// charts to `output_directory` where one is given.
    Run { input: String, output_directory: Option<String> },
}

/// What an invocation asks for, as texts.
pub ghost enum InvocationView {
    Help,
    Run { input: Seq<char>, output_directory: Option<Seq<char>> },
}

impl View for Invocation {
    type V = InvocationView;

    open spec fn view(&self) -> InvocationView {
        match *self {
            Invocation::Help => InvocationView::Help,
            Invocation::Run { input, output_directory } => InvocationView::Run {
                input: input@,
                output_directory: optional_text(output_directory),
            },
        }
    }
}

/// Why a command line asks for nothing that can be done.
#[derive(Clone, Copy, Debug, PartialEq, Eq, Structural)]
pub enum UsageError {
    /// The options are not those that the program declares, or they are not
    /// used as declared.
    Rejected,
    /// No input file is named.
    MissingInput,
}

/// The options that the program declares: `-h`, `--help` and `-d DIR`,
/// `--output-directory DIR`.
pub open spec fn program_options() -> Seq<(Seq<char>, Seq<char>, Seq<char>, Seq<char>, bool)> {
    seq![
        ("h"@, "help"@, "print this message"@, Seq::<char>::empty(), false),
        ("d"@, "output-directory"@, "Graph output folder"@, "DIR"@, true),
    ]
}

/// What the invocation asks for, given whether help is asked for, the output
/// directory if one is given, and the free arguments. Help goes before
/// everything else; otherwise the first free argument names the input.
pub open spec fn decision(
    help: bool,
    output_directory: Option<Seq<char>>,
    free: Seq<Seq<char>>,
) -> Result<InvocationView, UsageError> {
    if help {
        Ok(InvocationView::Help)
    } else if free.len() == 0 {
        Err(UsageError::MissingInput)
    } else {
        Ok(InvocationView::Run { input: free[0], output_directory })
    }
}

/// What the command line asks for.
pub open spec fn command_line(arguments: Seq<Seq<char>>) -> Result<InvocationView, UsageError> {
    match parsed(program_options(), arguments) {
        None => Err(UsageError::Rejected),
        Some((occurrences, free)) => decision(
            occurrences["h"@].len() > 0,
            first_value(occurrences["d"@]),
            free,
        ),
    }
}

/// An invocation, or the reason why there is none, as texts.
pub open spec fn outcome_view(result: Result<Invocation, UsageError>) -> Result<
    InvocationView,
    UsageError,
> {
    match result {
        Ok(invocation) => Ok(invocation@),
        Err(error) => Err(error),
    }
}

/// Declares the options of the program.
fn declare_options() -> (options: getopts::Options)
    ensures
        declared(options) == program_options(),
{
    proof {
        reveal_strlit("h");
        reveal_strlit("help");
        reveal_strlit("d");
        reveal_strlit("output-directory");
    }
    let mut options = new_options();
    add_flag(&mut options, "h", "help", "print this message");
    add_value_option(&mut options, "d", "output-directory", "Graph output folder", "DIR");
    assert(declared(options) =~= program_options());
    options
}

/// Decides what an invocation asks for, given whether help is asked for, the
/// output directory if one is given, and the free arguments.
pub fn decide(help: bool, output_directory: Option<String>, free: &Vec<String>) -> (result: Result<
    Invocation,
    UsageError,
>)
    ensures
        outcome_view(result) == decision(help, optional_text(output_directory), texts(free@)),
{
    if help {
        Ok(Invocation::Help)
    } else if free.len() == 0 {
        Err(UsageError::MissingInput)
    } else {
        Ok(Invocation::Run { input: free[0].clone(), output_directory })
    }
}

/// Reads the command line, without the name of the program.
pub fn parse_arguments(arguments: &Vec<String>) -> (result: Result<Invocation, UsageError>)
    ensures
        outcome_view(result) == command_line(texts(arguments@)),
{
    let options = declare_options();
    proof {
        reveal_strlit("h");
        reveal_strlit("d");
    }
    match parse(&options, arguments) {
        Err(_) => Err(UsageError::Rejected),
        Ok(matches) => {
            assert(occurrences(matches).contains_key(program_options()[0].0));
            assert(occurrences(matches).contains_key(program_options()[1].0));
            let help = opt_present(&matches, "h");
            let output_directory = opt_str(&matches, "d");
            let free = free(&matches);
            decide(help, output_directory, &free)
        },
    }
}

/// The first line of the usage message for the program called `program`.
pub open spec fn brief_text(program: Seq<char>) -> Seq<char> {
    "Usage: "@ + program + " [options] input.csv"@
}

/// The usage message for the program called `program`.
pub fn usage_text(program: &str) -> (message: String)
    ensures
        message@ == usage_message(program_options(), brief_text(program@)),
{
    let options = declare_options();
    let mut brief = String::new();
    brief.append("Usage: ");
    brief.append(program);
    brief.append(" [options] input.csv");
    assert(brief@ =~= brief_text(program@));
    usage(&options, brief.as_str())
}

} // verus!
