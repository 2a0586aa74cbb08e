//! The manifest of a template: its variables and its copy patterns.

use crate::filter::{compiles_to, CopyFilter, PatternError};
use crate::resolver::{bound, default_of, resolve_defaults, resolved_bindings, Store};
use crate::values::{Bindings, Scalar};
use vstd::prelude::*;

verus! {

/// The kind of a variable.
#[derive(Debug)]
pub enum VarKind {
    String,
    Bool,
    Number,
    /// One of the listed values, in the order in which they are offered.
    Choice(Vec<String>),
}

/// A value that a choice variable may take, with the label under which it is
/// offered.
#[derive(Debug)]
pub struct ChoiceLabel {
    pub value: String,
    pub label: String,
}

/// The description of one variable.
#[derive(Debug)]
pub struct VarDef {
    pub name: String,
    pub kind: VarKind,
    /// A literal, or a text that is an expression over other variables.
    pub default: Option<Scalar>,
    /// Labels for the values of a choice variable, where it has any.
    pub choice_labels: Option<Vec<ChoiceLabel>>,
}

/// What a template declares: its variables, in order, and the patterns of
/// the files that are copied without being rendered.
#[derive(Debug)]
pub struct Manifest {
    pub variables: Vec<VarDef>,
    pub copy_without_render: Vec<String>,
}

/// The bindings that hold every default as it is written: each variable with
/// a default bound to it, a later variable of the same name over an earlier
/// one.
pub open spec fn prefilled(defs: Seq<VarDef>) -> Store
    decreases defs.len(),
{
    if defs.len() == 0 {
        Map::empty()
    } else {
        bound(prefilled(defs.drop_last()), defs.last().name@, default_of(defs.last()))
    }
}

impl Default for Manifest {
    fn default() -> (out: Manifest)
        ensures
            out.variables@.len() == 0,
            out.copy_without_render@.len() == 0,
    {
        Manifest { variables: Vec::new(), copy_without_render: Vec::new() }
    }
}

impl Manifest {
    /// Compiles the copy patterns into a filter. A pattern that is empty or
    /// holds a bracket is refused, and with it the whole list.
    pub fn compile_copy_filter(&self) -> (r: Result<CopyFilter, PatternError>)
        ensures
            compiles_to(self.copy_without_render@, r),
    {
        CopyFilter::compile(&self.copy_without_render)
    }

    /// Resolves the defaults of the variables on top of `initial`; see
    /// [`resolve_defaults`].
    pub fn evaluate_defaults(&self, initial: &Bindings) -> (out: Bindings)
        ensures
            out@ == resolved_bindings(self.variables@, initial@),
    {
        resolve_defaults(&self.variables, initial)
    }

    /// The bindings that hold every default as it is written.
    pub fn prefill(&self) -> (out: Bindings)
        ensures
            out@ == prefilled(self.variables@),
    {
        prefill(&self.variables)
    }
}

/// The bindings that hold every default of `variables` as it is written.
pub fn prefill(variables: &Vec<VarDef>) -> (out: Bindings)
    ensures
        out@ == prefilled(variables@),
{
    let mut out = Bindings::new();
    let mut i: usize = 0;
    proof {
        assert(variables@.take(0) =~= Seq::<VarDef>::empty());
    }
    while i < variables.len()
        invariant
            i <= variables.len(),
            out@ == prefilled(variables@.take(i as int)),
        decreases variables.len() - i,
    {
        let def = &variables[i];
        proof {
            assert(variables@.take(i + 1).drop_last() =~= variables@.take(i as int));
            assert(variables@.take(i + 1).last() == *def);
        }
        match &def.default {
            Some(value) => {
                out.insert(def.name.as_str(), value.copy());
            },
            None => {},
        }
        i += 1;
    }
    proof {
        assert(variables@.take(variables.len() as int) =~= variables@);
    }
    out
}

} // verus!
