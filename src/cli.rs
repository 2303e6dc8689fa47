//! The command line: a target directory, `-v`/`--verbose`,
//! `-o`/`--output-dir DIR` (default `docs`) and `-n`/`--dry-run`.
use vstd::prelude::*;

use crate::text::{chars_of, starts_with_of};

verus! {

/// The parsed command line.
#[derive(Debug, Clone)]
pub struct Args {
    /// Path to an existing project directory.
    pub target: String,
    pub verbose: bool,
    /// Where the documentation goes, relative to the target unless absolute.
    pub output_dir: String,
    /// Show what would be done without doing it.
    pub dry_run: bool,
}

/// Why a command line was refused.
#[derive(Clone, Copy, PartialEq, Eq, Structural, Debug)]
pub enum ArgsError {
    /// No target directory was given.
    MissingTarget,
    /// `-o` or `--output-dir` ends the command line.
    MissingValue,
    /// An option that is not one of the four.
    UnknownOption,
    /// A second positional argument.
    UnexpectedArgument,
}

/// A parse in progress: target, verbose, output directory, dry run.
pub type ArgState = (Option<Seq<char>>, bool, Seq<char>, bool);

pub open spec fn default_output_dir() -> Seq<char> {
    "docs"@
}

/// The outcome of parsing the arguments from index `i` on, from state `st`.
pub open spec fn parse_at(toks: Seq<Seq<char>>, i: int, st: ArgState) -> Result<ArgState, ArgsError>
    decreases toks.len() - i,
{
    if i >= toks.len() {
        if st.0 is Some {
            Ok(st)
        } else {
            Err(ArgsError::MissingTarget)
        }
    } else {
        let t = toks[i];
        if t == "-v"@ || t == "--verbose"@ {
            parse_at(toks, i + 1, (st.0, true, st.2, st.3))
        } else if t == "-n"@ || t == "--dry-run"@ {
            parse_at(toks, i + 1, (st.0, st.1, st.2, true))
        } else if t == "-o"@ || t == "--output-dir"@ {
            if i + 1 < toks.len() {
                parse_at(toks, i + 2, (st.0, st.1, toks[i + 1], st.3))
            } else {
                Err(ArgsError::MissingValue)
            }
        } else if t.len() > 1 && t[0] == '-' {
            Err(ArgsError::UnknownOption)
        } else if st.0 is Some {
            Err(ArgsError::UnexpectedArgument)
        } else {
            parse_at(toks, i + 1, (Some(t), st.1, st.2, st.3))
        }
    }
}

/// The outcome of parsing a command line whose first item is the program name.
pub open spec fn parse_spec(toks: Seq<Seq<char>>) -> Result<ArgState, ArgsError> {
    parse_at(toks, 1, (None, false, default_output_dir(), false))
}

pub open spec fn tokens(argv: &[&str]) -> Seq<Seq<char>> {
    argv@.map_values(|s: &str| s@)
}

impl Args {
    pub open spec fn state(&self) -> ArgState {
        (Some(self.target@), self.verbose, self.output_dir@, self.dry_run)
    }

    /// Parses `argv`, whose first item is the program name.
    pub fn try_parse_from(argv: &[&str]) -> (r: Result<Args, ArgsError>)
        ensures
            match r {
                Ok(a) => parse_spec(tokens(argv)) == Ok::<ArgState, ArgsError>(a.state()),
                Err(e) => parse_spec(tokens(argv)) == Err::<ArgState, ArgsError>(e),
            },
    {
        let ghost toks = tokens(argv);
        let n = argv.len();
        let mut target: Option<String> = None;
        let mut verbose = false;
        let mut output_dir = String::from_str("docs");
        let mut dry_run = false;
        let mut i: usize = 1;
        while i < n
            invariant
                n == argv@.len() == toks.len(),
                toks == tokens(argv),
                1 <= i,
                parse_spec(toks) == parse_at(
                    toks,
                    i as int,
                    (
                        match target {
                            Some(t) => Some(t@),
                            None => None,
                        },
                        verbose,
                        output_dir@,
                        dry_run,
                    ),
                ),
            decreases n - i,
        {
            let t = argv[i];
            assert(toks[i as int] == t@);
            if is_token(t, "-v") || is_token(t, "--verbose") {
                verbose = true;
                i = i + 1;
            } else if is_token(t, "-n") || is_token(t, "--dry-run") {
                dry_run = true;
                i = i + 1;
            } else if is_token(t, "-o") || is_token(t, "--output-dir") {
                if i + 1 < n {
                    assert(toks[i + 1] == argv@[i + 1]@);
                    output_dir = String::from_str(argv[i + 1]);
                    i = i + 2;
                } else {
                    return Err(ArgsError::MissingValue);
                }
            } else if is_option(t) {
                return Err(ArgsError::UnknownOption);
            } else if target.is_some() {
                return Err(ArgsError::UnexpectedArgument);
            } else {
                target = Some(String::from_str(t));
                i = i + 1;
            }
        }
        match target {
            Some(t) => Ok(Args { target: t, verbose, output_dir, dry_run }),
            None => Err(ArgsError::MissingTarget),
        }
    }
}

fn is_token(t: &str, lit: &str) -> (r: bool)
    ensures
        r == (t@ == lit@),
{
    let a = chars_of(t);
    let b = chars_of(lit);
    let r = a.len() == b.len() && starts_with_of(&a, &b);
    assert(a@.subrange(0, a@.len() as int) =~= a@);
    r
}

fn is_option(t: &str) -> (r: bool)
    ensures
        r == (t@.len() > 1 && t@[0] == '-'),
{
    let a = chars_of(t);
    a.len() > 1 && a[0] == '-'
}

} // verus!
