//! The command line: which options a list of arguments sets, and which
//! argument stops the run.
use vstd::prelude::*;
use crate::options::{
    format_named, parse_format, slash_terminated, with_trailing_slash, FileFormat, Options,
    DEFAULT_FILE_FORMAT,
};
use crate::text::{
    chars_of, eq_lit, lowercase, spec_lowercase, string_from_chars, strings_view, trim,
};

verus! {

broadcast use vstd::string::group_string_axioms;

/// What the command line asks of a run.
pub struct Cli {
    /// Format, input file, output directory and cleaning; no bitrate and no
    /// songs yet.
    pub options: Options,
    /// 0: errors only; 1: errors and warnings; 2: everything.
    pub verbosity: u8,
    /// Whether this is a search (no output directory is needed then).
    pub searching: bool,
    /// The search term, lower-cased.
    pub search_query: String,
    /// Whether artists are taken from song names.
    pub get_artist: bool,
    /// Whether the user is asked before files are removed.
    pub print_warning: bool,
}

/// The abstract value of a `Cli`.
pub struct CliSpec {
    pub format: FileFormat,
    pub input_file: Seq<char>,
    pub output_dir: Seq<char>,
    pub clean_dir: bool,
    pub verbosity: u8,
    pub searching: bool,
    pub search_query: Seq<char>,
    pub get_artist: bool,
    pub print_warning: bool,
}

impl View for Cli {
    type V = CliSpec;

    open spec fn view(&self) -> CliSpec {
        CliSpec {
            format: self.options.format,
            input_file: self.options.input_file@,
            output_dir: self.options.output_dir@,
            clean_dir: self.options.clean_dir,
            verbosity: self.verbosity,
            searching: self.searching,
            search_query: self.search_query@,
            get_artist: self.get_artist,
            print_warning: self.print_warning,
        }
    }
}

/// What the command line asks for.
pub enum ArgAction {
    /// Print the help text and stop.
    Help,
    /// Run with these options.
    Run(Cli),
}

/// The abstract value of an `ArgAction`.
pub enum ActionSpec {
    Help,
    Run(CliSpec),
}

/// A command line that is refused.
#[derive(Debug, Clone, Copy, PartialEq, Eq, Structural)]
pub enum ArgError {
    /// `-i` is the last argument.
    IncompleteInput,
    /// `-o` is the last argument.
    IncompleteOutput,
    /// The directory after `-o` does not exist.
    OutputMissing,
    /// The directory after `-o` is empty.
    InvalidOutputDir,
    /// `-s` is the last argument.
    NoSearchTerm,
    /// `-f` is the last argument.
    IncompleteFormat,
    /// The argument of `-f` names no format.
    InvalidFormat,
    /// No input file was given.
    NoInputFile,
    /// No output directory was given and this is no search.
    NoOutputDir,
}

/// The outcome of reading a command line: the unknown arguments met on the
/// way (each gets a warning), then what the command line asks for.
pub struct ArgsOutcome {
    pub unknown: Vec<String>,
    pub result: Result<ArgAction, ArgError>,
}

/// The view of the result of reading a command line.
pub open spec fn result_view(r: Result<ArgAction, ArgError>) -> Result<ActionSpec, ArgError> {
    match r {
        Ok(ArgAction::Help) => Ok(ActionSpec::Help),
        Ok(ArgAction::Run(c)) => Ok(ActionSpec::Run(c@)),
        Err(e) => Err(e),
    }
}

/// The options before any argument is read.
pub open spec fn initial_cli() -> CliSpec {
    CliSpec {
        format: FileFormat::Flac,
        input_file: Seq::empty(),
        output_dir: Seq::empty(),
        clean_dir: false,
        verbosity: 2,
        searching: false,
        search_query: Seq::empty(),
        get_artist: true,
        print_warning: true,
    }
}

/// The checks made once every argument has been read.
pub open spec fn finish(st: CliSpec) -> Result<ActionSpec, ArgError> {
    if st.input_file.len() == 0 {
        Err(ArgError::NoInputFile)
    } else if st.output_dir.len() == 0 && !st.searching {
        Err(ArgError::NoOutputDir)
    } else {
        Ok(ActionSpec::Run(st))
    }
}

/// Reading `args` from index `x` on, with the options `st` set so far and
/// the unknown arguments `unknown` met so far; `exists[i]` tells whether
/// `args[i]` names an existing path.
pub open spec fn args_from(
    args: Seq<Seq<char>>,
    exists: Seq<bool>,
    x: int,
    st: CliSpec,
    unknown: Seq<Seq<char>>,
) -> (Seq<Seq<char>>, Result<ActionSpec, ArgError>)
    decreases args.len() - x,
{
    if x < 0 || x >= args.len() {
        (unknown, finish(st))
    } else {
        let a = args[x];
        if a == "--help"@ || a == "-h"@ {
            (unknown, Ok(ActionSpec::Help))
        } else if a == "-i"@ || a == "--input"@ {
            if x + 1 == args.len() {
                (unknown, Err(ArgError::IncompleteInput))
            } else {
                args_from(args, exists, x + 2, CliSpec { input_file: args[x + 1], ..st }, unknown)
            }
        } else if a == "-o"@ || a == "--output"@ {
            if x + 1 == args.len() {
                (unknown, Err(ArgError::IncompleteOutput))
            } else if !exists[x + 1] {
                (unknown, Err(ArgError::OutputMissing))
            } else if args[x + 1].len() == 0 {
                (unknown, Err(ArgError::InvalidOutputDir))
            } else {
                args_from(
                    args,
                    exists,
                    x + 2,
                    CliSpec { output_dir: slash_terminated(args[x + 1]), ..st },
                    unknown,
                )
            }
        } else if a == "--search"@ || a == "-s"@ {
            if x + 1 == args.len() {
                (unknown, Err(ArgError::NoSearchTerm))
            } else {
                args_from(
                    args,
                    exists,
                    x + 2,
                    CliSpec { searching: true, search_query: spec_lowercase(args[x + 1]), ..st },
                    unknown,
                )
            }
        } else if a == "--format"@ || a == "-f"@ {
            if x + 1 == args.len() {
                (unknown, Err(ArgError::IncompleteFormat))
            } else {
                match format_named(trim(spec_lowercase(args[x + 1]))) {
                    None => (unknown, Err(ArgError::InvalidFormat)),
                    Some(f) => args_from(args, exists, x + 2, CliSpec { format: f, ..st }, unknown),
                }
            }
        } else if a == "--do-not-warn"@ || a == "-n"@ {
            args_from(args, exists, x + 1, CliSpec { print_warning: false, ..st }, unknown)
        } else if a == "--delete-not-present"@ {
            args_from(args, exists, x + 1, CliSpec { clean_dir: true, ..st }, unknown)
        } else if a == "--verbose"@ || a == "-v"@ {
            args_from(args, exists, x + 1, CliSpec { verbosity: 2, ..st }, unknown)
        } else if a == "--quiet"@ || a == "-q"@ {
            args_from(args, exists, x + 1, CliSpec { verbosity: 1, ..st }, unknown)
        } else if a == "--silent"@ || a == "-Q"@ {
            args_from(args, exists, x + 1, CliSpec { verbosity: 0, ..st }, unknown)
        } else if a == "--no-artist"@ {
            args_from(args, exists, x + 1, CliSpec { get_artist: false, ..st }, unknown)
        } else {
            args_from(args, exists, x + 1, st, unknown.push(a))
        }
    }
}

/// What the command line `args` (the program's name first) asks for.
pub open spec fn args_spec(args: Seq<Seq<char>>, exists: Seq<bool>) -> (
    Seq<Seq<char>>,
    Result<ActionSpec, ArgError>,
) {
    args_from(args, exists, 1, initial_cli(), Seq::empty())
}

/// Whether `a` is one of two spellings of a flag.
fn is_flag(a: &Vec<char>, long: &str, short: &str) -> (b: bool)
    ensures
        b == (a@ == long@ || a@ == short@),
{
    eq_lit(a, long) || eq_lit(a, short)
}

/// Reads a command line (the program's name first); `exists[i]` tells
/// whether `args[i]` names an existing path.
pub fn parse_args(args: &Vec<String>, exists: &Vec<bool>) -> (r: ArgsOutcome)
    requires
        exists@.len() == args@.len(),
    ensures
        (strings_view(r.unknown@), result_view(r.result)) == args_spec(
            strings_view(args@),
            exists@,
        ),
        r.result matches Ok(ArgAction::Run(c)) ==> c.options.bitrate is None
            && c.options.songs@.len() == 0,
{
    let ghost av = strings_view(args@);
    let mut format = DEFAULT_FILE_FORMAT;
    let mut input_file = string_from_chars(&Vec::new());
    let mut output_dir = string_from_chars(&Vec::new());
    let mut clean_dir = false;
    let mut verbosity: u8 = 2;
    let mut searching = false;
    let mut search_query = string_from_chars(&Vec::new());
    let mut get_artist = true;
    let mut print_warning = true;
    let mut unknown: Vec<String> = Vec::new();
    let n = args.len();
    let mut x: usize = 1;
    proof {
        assert(strings_view(unknown@) =~= Seq::<Seq<char>>::empty());
        assert(input_file@ =~= Seq::<char>::empty());
        assert(output_dir@ =~= Seq::<char>::empty());
        assert(search_query@ =~= Seq::<char>::empty());
    }
    while x < n
        invariant
            n == args@.len() == exists@.len(),
            1 <= x,
            av == strings_view(args@),
            args_spec(av, exists@) == args_from(
                av,
                exists@,
                x as int,
                CliSpec {
                    format,
                    input_file: input_file@,
                    output_dir: output_dir@,
                    clean_dir,
                    verbosity,
                    searching,
                    search_query: search_query@,
                    get_artist,
                    print_warning,
                },
                strings_view(unknown@),
            ),
        decreases n - x,
    {
        let a = chars_of(args[x].as_str());
        assert(a@ == av[x as int]);
        if is_flag(&a, "--help", "-h") {
            return ArgsOutcome { unknown, result: Ok(ArgAction::Help) };
        } else if is_flag(&a, "-i", "--input") {
            if x + 1 == n {
                return ArgsOutcome { unknown, result: Err(ArgError::IncompleteInput) };
            }
            input_file = args[x + 1].clone();
            x = x + 2;
        } else if is_flag(&a, "-o", "--output") {
            if x + 1 == n {
                return ArgsOutcome { unknown, result: Err(ArgError::IncompleteOutput) };
            }
            if !exists[x + 1] {
                return ArgsOutcome { unknown, result: Err(ArgError::OutputMissing) };
            }
            let value = &args[x + 1];
            if value.as_str().is_empty() {
                return ArgsOutcome { unknown, result: Err(ArgError::InvalidOutputDir) };
            }
            output_dir = with_trailing_slash(value);
            x = x + 2;
        } else if is_flag(&a, "--search", "-s") {
            if x + 1 == n {
                return ArgsOutcome { unknown, result: Err(ArgError::NoSearchTerm) };
            }
            searching = true;
            search_query = lowercase(args[x + 1].as_str());
            x = x + 2;
        } else if is_flag(&a, "--format", "-f") {
            if x + 1 == n {
                return ArgsOutcome { unknown, result: Err(ArgError::IncompleteFormat) };
            }
            match parse_format(args[x + 1].as_str()) {
                None => {
                    return ArgsOutcome { unknown, result: Err(ArgError::InvalidFormat) };
                },
                Some(f) => {
                    format = f;
                },
            }
            x = x + 2;
        } else if is_flag(&a, "--do-not-warn", "-n") {
            print_warning = false;
            x = x + 1;
        } else if eq_lit(&a, "--delete-not-present") {
            clean_dir = true;
            x = x + 1;
        } else if is_flag(&a, "--verbose", "-v") {
            verbosity = 2;
            x = x + 1;
        } else if is_flag(&a, "--quiet", "-q") {
            verbosity = 1;
            x = x + 1;
        } else if is_flag(&a, "--silent", "-Q") {
            verbosity = 0;
            x = x + 1;
        } else if eq_lit(&a, "--no-artist") {
            get_artist = false;
            x = x + 1;
        } else {
            let ghost before = strings_view(unknown@);
            unknown.push(args[x].clone());
            assert(strings_view(unknown@) =~= before.push(av[x as int]));
            x = x + 1;
        }
    }
    if input_file.as_str().is_empty() {
        return ArgsOutcome { unknown, result: Err(ArgError::NoInputFile) };
    }
    if output_dir.as_str().is_empty() && !searching {
        return ArgsOutcome { unknown, result: Err(ArgError::NoOutputDir) };
    }
    let options = Options {
        bitrate: None,
        format,
        input_file,
        output_dir,
        songs: Vec::new(),
        clean_dir,
    };
    let cli = Cli { options, verbosity, searching, search_query, get_artist, print_warning };
    ArgsOutcome { unknown, result: Ok(ArgAction::Run(cli)) }
}

} // verus!
