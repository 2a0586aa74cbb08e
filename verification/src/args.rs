//! The arguments of the command line.

use crate::text::{same_text, string_views};
use vstd::prelude::*;

verus! {

/// What the command line asks for.
#[derive(Debug)]
pub struct Request {
    /// The template: a directory or the address of a repository.
    pub source: String,
    /// The directory that the project is written into.
    pub output: String,
}

/// What is wrong with the arguments.
#[derive(Debug, PartialEq, Eq, Clone, Copy, Structural)]
pub enum ArgError {
    /// `-s` or `--source` stands last, without a value.
    MissingSourceValue,
    /// `-o` or `--output` stands last, without a value.
    MissingOutputValue,
    /// No source is given.
    MissingSource,
}

pub open spec fn is_source_flag(arg: Seq<char>) -> bool {
    arg == "-s"@ || arg == "--source"@
}

pub open spec fn is_output_flag(arg: Seq<char>) -> bool {
    arg == "-o"@ || arg == "--output"@
}

/// What the arguments from `at` on ask for, given the source and the
/// output found so far. A flag takes the argument after it as its value,
/// whatever that is, and a later value replaces an earlier one. Of the
/// arguments that stand alone the first is the source, unless a source is
/// known by then; the others are passed over.
pub open spec fn parsed_from(
    args: Seq<Seq<char>>,
    at: int,
    source: Option<Seq<char>>,
    output: Seq<char>,
) -> Result<(Seq<char>, Seq<char>), ArgError>
    decreases args.len() - at,
{
    if at < 0 || at >= args.len() {
        match source {
            Some(s) => Ok((s, output)),
            None => Err(ArgError::MissingSource),
        }
    } else if is_source_flag(args[at]) {
        if at + 1 < args.len() {
            parsed_from(args, at + 2, Some(args[at + 1]), output)
        } else {
            Err(ArgError::MissingSourceValue)
        }
    } else if is_output_flag(args[at]) {
        if at + 1 < args.len() {
            parsed_from(args, at + 2, source, args[at + 1])
        } else {
            Err(ArgError::MissingOutputValue)
        }
    } else {
        parsed_from(
            args,
            at + 1,
            match source {
                Some(s) => Some(s),
                None => Some(args[at]),
            },
            output,
        )
    }
}

/// What the arguments ask for. Without `-o` the output is the current
/// directory.
pub open spec fn parsed(args: Seq<Seq<char>>) -> Result<(Seq<char>, Seq<char>), ArgError> {
    parsed_from(args, 0, None, "."@)
}

pub open spec fn text_of(s: Option<String>) -> Option<Seq<char>> {
    match s {
        Some(t) => Some(t@),
        None => None,
    }
}

/// Reads the arguments of the command line, the name of the program left
/// out.
pub fn parse_args(args: &Vec<String>) -> (r: Result<Request, ArgError>)
    ensures
        match r {
            Ok(req) => parsed(string_views(args@)) == Ok::<(Seq<char>, Seq<char>), ArgError>(
                (req.source@, req.output@),
            ),
            Err(e) => parsed(string_views(args@)) == Err::<(Seq<char>, Seq<char>), ArgError>(e),
        },
{
    let ghost all = string_views(args@);
    let mut source: Option<String> = None;
    let mut output: String = ".".to_owned();
    let mut i: usize = 0;
    while i < args.len()
        invariant
            i <= args.len(),
            all == string_views(args@),
            parsed(all) == parsed_from(all, i as int, text_of(source), output@),
        decreases args.len() - i,
    {
        let arg = args[i].as_str();
        proof {
            assert(all[i as int] == arg@);
        }
        if same_text(arg, "-s") || same_text(arg, "--source") {
            if i + 1 < args.len() {
                proof {
                    assert(all[i + 1] == args@[i + 1]@);
                }
                source = Some(args[i + 1].clone());
                i += 2;
            } else {
                return Err(ArgError::MissingSourceValue);
            }
        } else if same_text(arg, "-o") || same_text(arg, "--output") {
            if i + 1 < args.len() {
                proof {
                    assert(all[i + 1] == args@[i + 1]@);
                }
                output = args[i + 1].clone();
                i += 2;
            } else {
                return Err(ArgError::MissingOutputValue);
            }
        } else {
            if source.is_none() {
                source = Some(args[i].clone());
            }
            i += 1;
        }
    }
    match source {
        Some(s) => Ok(Request { source: s, output }),
        None => Err(ArgError::MissingSource),
    }
}

} // verus!
