//! The template engine, as far as this crate relies on it.
//!
//! Everything here is trusted: the contracts say what the `minijinja` crate
//! is taken to do, and nothing in this crate proves them. What the engine
//! makes of an expression is not spelled out; it is given a name, so that
//! the rest of the crate can say which text was rendered against which
//! bindings. What it makes of a registered template has no name: the crate
//! says what it does with whatever the engine answers.

use crate::values::{Bindings, Scalar, ScalarView};
use vstd::prelude::*;

verus! {

#[verifier::external_type_specification]
#[verifier::external_body]
pub struct ExEnvironment<'source>(minijinja::Environment<'source>);

/// A template engine of this crate's own making: an environment that owns
/// its templates and that nothing has been set on but what the functions of
/// this module set. There is no other way to come by one, so whatever holds
/// of the environments made here holds of every engine: no filter, test,
/// function, global, formatter, loader or syntax but the engine's own, and
/// no template but those that [`add_template`] put there.
pub struct Engine {
    inner: minijinja::Environment<'static>,
}

/// The templates that an engine holds: source text by name.
pub uninterp spec fn registered(env: Engine) -> Map<
    Seq<char>,
    Seq<char>,
>;

/// Whether an engine treats a reference to an undefined variable as a
/// failure.
pub uninterp spec fn strict(env: Engine) -> bool;

/// What `Environment::render_str` makes of the expression `source` against
/// `bindings`, in an engine that holds no template; `None` where it fails.
pub uninterp spec fn expression_text(
    strict: bool,
    source: Seq<char>,
    bindings: Map<Seq<char>, ScalarView>,
) -> Option<Seq<char>>;

/// Whether `Environment::add_template_owned` accepts `source` under `name`.
pub uninterp spec fn template_accepted(name: Seq<char>, source: Seq<char>) -> bool;

/// A fresh engine.
///
/// Trusted: this is `minijinja::Environment::new`, which gives an
/// environment without templates and with the lenient default for undefined
/// variables.
#[verifier::external_body]
pub(crate) fn new_environment() -> (out: Engine)
    ensures
        (registered(out) == Map::<Seq<char>, Seq<char>>::empty()),
        !strict(out),
{
    Engine { inner: minijinja::Environment::new() }
}

/// Makes references to undefined variables fail.
///
/// Trusted: this is `minijinja::Environment::set_undefined_behavior` with
/// `UndefinedBehavior::Strict`, which changes that setting and leaves the
/// templates alone.
#[verifier::external_body]
pub(crate) fn make_strict(env: &mut Engine)
    ensures
        strict(*final(env)),
        registered(*final(env)) == registered(*old(env)),
{
    env.inner.set_undefined_behavior(minijinja::UndefinedBehavior::Strict)
}

/// Renders the expression `source` against `bindings`, with an engine that
/// holds no template.
///
/// Trusted: this is `minijinja::Environment::render_str`, called with the
/// bindings as context, each value as the engine's string, boolean or
/// integer. The contract only names the result: it claims that, for an
/// engine without templates, the same setting, source and bindings always
/// give the same text or the same failure. Of an engine that holds
/// templates nothing is claimed, since what is rendered may then list them
/// in an order that is not fixed.
#[verifier::external_body]
pub(crate) fn render_str(
    env: &Engine,
    source: &str,
    bindings: &Bindings,
) -> (out: Option<String>)
    requires
        registered(*env) == Map::<Seq<char>, Seq<char>>::empty(),
        bindings.is_distinct(),
    ensures
        match out {
            Some(text) => expression_text(strict(*env), source@, bindings@) == Some(text@),
            None => expression_text(strict(*env), source@, bindings@) is None,
        },
{
    let ctx: std::collections::BTreeMap<&str, minijinja::Value> = bindings.entries.iter().map(
        |b| (b.name.as_str(), match &b.value {
            Scalar::Str(s) => minijinja::Value::from(s.as_str()),
            Scalar::Bool(v) => minijinja::Value::from(*v),
            Scalar::Int(v) => minijinja::Value::from(*v),
        }),
    ).collect();
    env.inner.render_str(source, ctx).ok()
}

/// Registers `source` under `name`; says whether the engine accepted it.
///
/// Trusted: this is `minijinja::Environment::add_template_owned`, which
/// compiles the source and, where that succeeds, keeps it under the name in
/// place of what the name held before; where it fails nothing is kept, and
/// what an engine held before stays, since every template of an engine
/// came in by this function. The contract names whether it succeeds, as a
/// function of name and source.
#[verifier::external_body]
pub(crate) fn add_template(env: &mut Engine, name: String, source: String) -> (ok:
    bool)
    ensures
        ok == template_accepted(name@, source@),
        strict(*final(env)) == strict(*old(env)),
        registered(*final(env)) == if ok {
            registered(*old(env)).insert(name@, source@)
        } else {
            registered(*old(env))
        },
{
    env.inner.add_template_owned(name, source).is_ok()
}

/// Renders the template registered as `name` against `bindings`; `None`
/// where no such template is registered or rendering fails.
///
/// Trusted: this is `minijinja::Environment::get_template` followed by
/// `minijinja::Template::render`, called with the bindings as context.
/// Nothing is claimed of the result: what a template renders to is the
/// engine's to say, and a template may ask the engine for a listing of its
/// templates, whose order is not fixed.
#[verifier::external_body]
pub(crate) fn render_template(
    env: &Engine,
    name: &str,
    bindings: &Bindings,
) -> (out: Option<String>)
    requires
        bindings.is_distinct(),
{
    let ctx: std::collections::BTreeMap<&str, minijinja::Value> = bindings.entries.iter().map(
        |b| (b.name.as_str(), match &b.value {
            Scalar::Str(s) => minijinja::Value::from(s.as_str()),
            Scalar::Bool(v) => minijinja::Value::from(*v),
            Scalar::Int(v) => minijinja::Value::from(*v),
        }),
    ).collect();
    env.inner.get_template(name).and_then(|t| t.render(ctx)).ok()
}

} // verus!
