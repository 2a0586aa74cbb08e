//! Version control around a template: what is looked for in its root, and
//! the commands that bring a working copy up to date.

use crate::number::{decimal, decimal_chars};
use crate::source::has_segment;
use crate::text::{string_views, to_chars, to_string};
use vstd::prelude::*;

verus! {

/// A program and the arguments it is run with.
#[derive(Debug)]
pub struct Invocation {
    pub program: String,
    pub args: Vec<String>,
}

/// Why a command did not do its work.
#[derive(Debug, PartialEq, Eq, Clone, Copy, Structural)]
pub enum VcsError {
    /// The program is not installed.
    Unavailable,
    /// The program could not be started.
    NotStarted,
    /// The program ran and reported a failure.
    Failed,
}

/// `extra`, where `wanted`; nothing otherwise.
pub open spec fn optional(wanted: bool, extra: Seq<char>) -> Seq<Seq<char>> {
    if wanted {
        seq![extra]
    } else {
        Seq::empty()
    }
}

/// The arguments of `git` that bring the addresses of the submodules of
/// `repo` in line with what the repository declares.
pub open spec fn sync_args(repo: Seq<char>, recursive: bool) -> Seq<Seq<char>> {
    seq!["-C"@, repo, "submodule"@, "sync"@] + optional(recursive, "--recursive"@)
}

/// The argument that sets the number of parallel jobs.
pub open spec fn jobs_arg(n: nat) -> Seq<char> {
    "--jobs="@ + decimal(n)
}

/// The arguments of `git` that fetch the submodules of `repo`.
pub open spec fn update_args(repo: Seq<char>, recursive: bool, jobs: Option<usize>) -> Seq<
    Seq<char>,
> {
    seq!["-C"@, repo, "submodule"@, "update"@, "--init"@] + optional(recursive, "--recursive"@)
        + match jobs {
        Some(n) => seq![jobs_arg(n as nat)],
        None => Seq::empty(),
    }
}

/// What a command ends with, given whether its program is installed and,
/// where it was started, whether it reported success.
pub open spec fn outcome_of(available: bool, status: Option<bool>) -> Result<(), VcsError> {
    if !available {
        Err(VcsError::Unavailable)
    } else {
        match status {
            None => Err(VcsError::NotStarted),
            Some(false) => Err(VcsError::Failed),
            Some(true) => Ok(()),
        }
    }
}

/// Whether the root of a repository, whose entries are named `entries`,
/// declares submodules.
pub fn has_gitmodules(entries: &Vec<String>) -> (r: bool)
    ensures
        r == string_views(entries@).contains(".gitmodules"@),
{
    has_segment(entries, ".gitmodules")
}

/// Whether the directory whose entries are named `entries` is a Subversion
/// working copy.
pub fn has_svn_meta(entries: &Vec<String>) -> (r: bool)
    ensures
        r == string_views(entries@).contains(".svn"@),
{
    has_segment(entries, ".svn")
}

/// The command that tells whether `git` is installed.
pub fn git_available() -> (out: Invocation)
    ensures
        out.program@ == "git"@,
        string_views(out.args@) == seq!["--version"@],
{
    let mut args: Vec<String> = Vec::new();
    args.push("--version".to_owned());
    proof {
        assert(string_views(args@) =~= seq!["--version"@]);
    }
    Invocation { program: "git".to_owned(), args }
}

/// The command that tells whether `svn` is installed.
pub fn svn_available() -> (out: Invocation)
    ensures
        out.program@ == "svn"@,
        string_views(out.args@) == seq!["--version"@],
{
    let mut args: Vec<String> = Vec::new();
    args.push("--version".to_owned());
    proof {
        assert(string_views(args@) =~= seq!["--version"@]);
    }
    Invocation { program: "svn".to_owned(), args }
}

/// The command that brings the addresses of the submodules of `repo` in
/// line with what the repository declares.
pub fn git_submodule_sync(repo: &str, recursive: bool) -> (out: Invocation)
    ensures
        out.program@ == "git"@,
        string_views(out.args@) == sync_args(repo@, recursive),
{
    let mut args: Vec<String> = Vec::new();
    args.push("-C".to_owned());
    args.push(repo.to_owned());
    args.push("submodule".to_owned());
    args.push("sync".to_owned());
    if recursive {
        args.push("--recursive".to_owned());
    }
    proof {
        assert(string_views(args@) =~= sync_args(repo@, recursive));
    }
    Invocation { program: "git".to_owned(), args }
}

/// The command that fetches the submodules of `repo`, with `jobs` jobs at
/// a time where a number is given.
pub fn git_submodule_update_init(repo: &str, recursive: bool, jobs: Option<usize>) -> (out:
    Invocation)
    ensures
        out.program@ == "git"@,
        string_views(out.args@) == update_args(repo@, recursive, jobs),
{
    let mut args: Vec<String> = Vec::new();
    args.push("-C".to_owned());
    args.push(repo.to_owned());
    args.push("submodule".to_owned());
    args.push("update".to_owned());
    args.push("--init".to_owned());
    if recursive {
        args.push("--recursive".to_owned());
    }
    match jobs {
        Some(n) => {
            let mut text = to_chars("--jobs=");
            let digits = decimal_chars(n as u64);
            let ghost lead = text@;
            let mut k: usize = 0;
            while k < digits.len()
                invariant
                    k <= digits.len(),
                    text@ == lead + digits@.take(k as int),
                decreases digits.len() - k,
            {
                text.push(digits[k]);
                proof {
                    assert(text@ =~= lead + digits@.take(k + 1));
                }
                k += 1;
            }
            proof {
                assert(digits@.take(digits.len() as int) =~= digits@);
            }
            args.push(to_string(&text));
        },
        None => {},
    }
    proof {
        assert(string_views(args@) =~= update_args(repo@, recursive, jobs));
    }
    Invocation { program: "git".to_owned(), args }
}

/// The command that brings the working copy `repo` up to date.
pub fn svn_update(repo: &str) -> (out: Invocation)
    ensures
        out.program@ == "svn"@,
        string_views(out.args@) == seq!["update"@, repo@],
{
    let mut args: Vec<String> = Vec::new();
    args.push("update".to_owned());
    args.push(repo.to_owned());
    proof {
        assert(string_views(args@) =~= seq!["update"@, repo@]);
    }
    Invocation { program: "svn".to_owned(), args }
}

/// What a command ended with: `available` says whether its program is
/// installed, `status` whether it reported success, and `None` that it
/// could not be started.
pub fn command_outcome(available: bool, status: Option<bool>) -> (r: Result<(), VcsError>)
    ensures
        r == outcome_of(available, status),
{
    if !available {
        Err(VcsError::Unavailable)
    } else {
        match status {
            None => Err(VcsError::NotStarted),
            Some(false) => Err(VcsError::Failed),
            Some(true) => Ok(()),
        }
    }
}

} // verus!
