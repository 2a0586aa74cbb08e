//! What a hook is given and what is taken from its answer.
//!
//! A hook is a script of the template that runs at one of three moments of
//! a run. It is given the bindings and a context, and may answer with
//! bindings of its own and with files to be written.

use crate::materializer::HookStage;
use crate::resolver::{bound, Store};
use crate::values::{Bindings, Scalar, ScalarView};
use vstd::prelude::*;

verus! {

/// A value in the answer of a hook, as far as bindings can hold it.
#[derive(Debug)]
pub enum Returned {
    Truth(bool),
    Whole(i64),
    Text(String),
    /// Anything else: nothing, a fraction, a table, a function.
    Other,
}

/// One variable in the answer of a hook.
#[derive(Debug)]
pub struct ReturnedVar {
    pub name: String,
    pub value: Returned,
}

/// One file in the answer of a hook, with what was found of its path and
/// of its content.
#[derive(Debug)]
pub struct ReturnedFile {
    pub path: Option<String>,
    pub content: Option<String>,
}

/// The file name of the script of a stage, within the directory `hooks` of
/// the template.
pub open spec fn script_of(stage: HookStage) -> Seq<char> {
    match stage {
        HookStage::PrePrompt => "pre_prompt.lua"@,
        HookStage::PreGen => "pre_gen_project.lua"@,
        HookStage::PostGen => "post_gen_project.lua"@,
    }
}

/// The name under which a stage is known to its script.
pub open spec fn label_of(stage: HookStage) -> Seq<char> {
    match stage {
        HookStage::PrePrompt => "pre_prompt"@,
        HookStage::PreGen => "pre_gen_project"@,
        HookStage::PostGen => "post_gen_project"@,
    }
}

/// The context of a stage: its name under `stage` and, except before the
/// user is asked, the directory that is written into under `output`.
pub open spec fn context_of(stage: HookStage, output: Seq<char>) -> Store {
    let named = Map::<Seq<char>, ScalarView>::empty().insert(
        "stage"@,
        ScalarView::Str(label_of(stage)),
    );
    match stage {
        HookStage::PrePrompt => named,
        _ => named.insert("output"@, ScalarView::Str(output)),
    }
}

/// What bindings hold for a value of a hook.
pub open spec fn value_of(r: Returned) -> Option<ScalarView> {
    match r {
        Returned::Truth(b) => Some(ScalarView::Bool(b)),
        Returned::Whole(i) => Some(ScalarView::Int(i as int)),
        Returned::Text(s) => Some(ScalarView::Str(s@)),
        Returned::Other => None,
    }
}

/// The bindings that the variables of a hook come to: each variable whose
/// value bindings can hold, a later one over an earlier one of its name.
pub open spec fn taken(vars: Seq<ReturnedVar>) -> Store
    decreases vars.len(),
{
    if vars.len() == 0 {
        Map::empty()
    } else {
        bound(taken(vars.drop_last()), vars.last().name@, value_of(vars.last().value))
    }
}

/// A file counts when both its path and its content were found.
pub open spec fn is_complete(f: ReturnedFile) -> bool {
    f.path is Some && f.content is Some
}

/// The files that count, each as its path and its content, in their
/// order.
pub open spec fn complete(files: Seq<ReturnedFile>) -> Seq<(Seq<char>, Seq<char>)>
    decreases files.len(),
{
    if files.len() == 0 {
        Seq::empty()
    } else if is_complete(files.last()) {
        complete(files.drop_last()).push(
            (files.last().path->Some_0@, files.last().content->Some_0@),
        )
    } else {
        complete(files.drop_last())
    }
}

pub open spec fn pair_views(v: Seq<(String, String)>) -> Seq<(Seq<char>, Seq<char>)> {
    Seq::new(v.len(), |i: int| (v[i].0@, v[i].1@))
}

/// The file name of the script of `stage`.
pub fn script_name(stage: HookStage) -> (out: &'static str)
    ensures
        out@ == script_of(stage),
{
    match stage {
        HookStage::PrePrompt => "pre_prompt.lua",
        HookStage::PreGen => "pre_gen_project.lua",
        HookStage::PostGen => "post_gen_project.lua",
    }
}

/// The name under which `stage` is known to its script.
pub fn stage_label(stage: HookStage) -> (out: &'static str)
    ensures
        out@ == label_of(stage),
{
    match stage {
        HookStage::PrePrompt => "pre_prompt",
        HookStage::PreGen => "pre_gen_project",
        HookStage::PostGen => "post_gen_project",
    }
}

/// The context that the script of `stage` is given, where `output` is the
/// directory that is written into.
pub fn hook_context(stage: HookStage, output: &str) -> (out: Bindings)
    ensures
        out@ == context_of(stage, output@),
{
    let mut out = Bindings::new();
    out.insert("stage", Scalar::Str(stage_label(stage).to_owned()));
    match stage {
        HookStage::PrePrompt => {},
        _ => {
            out.insert("output", Scalar::Str(output.to_owned()));
        },
    }
    out
}

/// The bindings that the variables in the answer of a hook come to.
pub fn updated_vars(vars: &Vec<ReturnedVar>) -> (out: Bindings)
    ensures
        out@ == taken(vars@),
{
    let mut out = Bindings::new();
    let mut i: usize = 0;
    proof {
        assert(vars@.take(0) =~= Seq::<ReturnedVar>::empty());
    }
    while i < vars.len()
        invariant
            i <= vars.len(),
            out@ == taken(vars@.take(i as int)),
        decreases vars.len() - i,
    {
        proof {
            assert(vars@.take(i + 1).drop_last() =~= vars@.take(i as int));
            assert(vars@.take(i + 1).last() == vars@[i as int]);
        }
        let var = &vars[i];
        match &var.value {
            Returned::Truth(b) => {
                out.insert(var.name.as_str(), Scalar::Bool(*b));
            },
            Returned::Whole(n) => {
                out.insert(var.name.as_str(), Scalar::Int(*n));
            },
            Returned::Text(s) => {
                out.insert(var.name.as_str(), Scalar::Str(s.clone()));
            },
            Returned::Other => {},
        }
        i += 1;
    }
    proof {
        assert(vars@.take(vars.len() as int) =~= vars@);
    }
    out
}

/// The files in the answer of a hook that count, each as its path and its
/// content.
pub fn complete_files(files: &Vec<ReturnedFile>) -> (out: Vec<(String, String)>)
    ensures
        pair_views(out@) == complete(files@),
{
    let mut out: Vec<(String, String)> = Vec::new();
    let mut i: usize = 0;
    proof {
        assert(files@.take(0) =~= Seq::<ReturnedFile>::empty());
        assert(pair_views(out@) =~= complete(files@.take(0)));
    }
    while i < files.len()
        invariant
            i <= files.len(),
            pair_views(out@) == complete(files@.take(i as int)),
        decreases files.len() - i,
    {
        let ghost before = pair_views(out@);
        proof {
            assert(files@.take(i + 1).drop_last() =~= files@.take(i as int));
            assert(files@.take(i + 1).last() == files@[i as int]);
        }
        let file = &files[i];
        match (&file.path, &file.content) {
            (Some(path), Some(content)) => {
                out.push((path.clone(), content.clone()));
                proof {
                    assert(pair_views(out@) =~= before.push((path@, content@)));
                }
            },
            _ => {},
        }
        i += 1;
    }
    proof {
        assert(files@.take(files.len() as int) =~= files@);
    }
    out
}

} // verus!
