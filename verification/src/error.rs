//! Why a run was given up.

use crate::filter::PatternError;
use crate::guard::SafetyError;
use vstd::prelude::*;

verus! {

/// Why a run was given up. Files, segments, items, templates and jobs are
/// named by their place in the list that they came in.
#[derive(Clone, Copy, Debug, PartialEq, Eq, Structural)]
pub enum RunError {
    /// A copy pattern was refused.
    Pattern(PatternError),
    /// The project slug is empty once it is normalized.
    EmptySlug,
    /// No directory at the template root stands for the project.
    NoMainDirectory,
    /// More than one directory at the template root stands for the project.
    SeveralMainDirectories,
    /// A segment of a template path could not be rendered.
    SegmentNotRendered { file: usize, segment: usize },
    /// A segment of a template path was rendered into an unsafe name.
    UnsafeSegment { file: usize, segment: usize },
    /// A template file could not be read as text.
    TemplateUnreadable { item: usize },
    /// The engine refused a template.
    TemplateRefused { index: usize },
    /// A template could not be rendered.
    RenderFailed { job: usize },
    /// The path guard refused the target of a job.
    Unsafe { job: usize, reason: SafetyError },
    /// A hook named a file by an unsafe relative path.
    UnsafeHookPath { file: usize },
    /// A hook failed.
    HookFailed,
    /// The caller could not do what it was asked to do.
    Failed,
    /// The caller answered with something that was not asked for.
    OutOfTurn,
}

} // verus!
