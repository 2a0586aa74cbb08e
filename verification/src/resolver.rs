//! The variable resolver: evaluates the defaults of variables that depend on
//! one another, pass after pass, until a pass changes nothing or the budget
//! of passes is used up.

use crate::manifest::VarDef;
use crate::render::{
    expression_text, make_strict, new_environment, registered, render_str, strict,
};
use crate::values::{Bindings, Scalar, ScalarView};
use vstd::prelude::*;

verus! {

pub type Store = Map<Seq<char>, ScalarView>;

/// The default of a variable, as a value.
pub open spec fn default_of(d: VarDef) -> Option<ScalarView> {
    match d.default {
        Some(v) => Some(v@),
        None => None,
    }
}

/// What `b` holds for `name`, if anything.
pub open spec fn held(b: Store, name: Seq<char>) -> Option<ScalarView> {
    if b.contains_key(name) {
        Some(b[name])
    } else {
        None
    }
}

/// What a variable with the default `default` is to be bound to, given what
/// rendering the default as an expression gave and what the variable holds:
/// a text default gives the rendered text, or the text as it is written
/// where rendering failed; any other default is a literal, and gives itself
/// where the variable holds nothing yet, and nothing to bind where it does.
pub open spec fn settled(
    default: Option<ScalarView>,
    rendered: Option<Seq<char>>,
    held: Option<ScalarView>,
) -> Option<ScalarView> {
    match default {
        Some(ScalarView::Str(source)) => match rendered {
            Some(text) => Some(ScalarView::Str(text)),
            None => Some(ScalarView::Str(source)),
        },
        Some(v) => match held {
            Some(_) => None,
            None => Some(v),
        },
        None => None,
    }
}

/// What rendering the default of `d` gives against `b`, where it is a text.
pub open spec fn rendering(d: VarDef, b: Store) -> Option<Seq<char>> {
    match default_of(d) {
        Some(ScalarView::Str(source)) => expression_text(true, source, b),
        _ => None,
    }
}

/// What the default of `d` evaluates to against `b`.
pub open spec fn evaluated(d: VarDef, b: Store) -> Option<ScalarView> {
    settled(default_of(d), rendering(d, b), held(b, d.name@))
}

/// `b` with `name` bound to `value`, where there is a value.
pub open spec fn bound(b: Store, name: Seq<char>, value: Option<ScalarView>) -> Store {
    match value {
        Some(v) => b.insert(name, v),
        None => b,
    }
}

/// Whether binding `name` to `value` changes `b`.
pub open spec fn binds_anew(b: Store, name: Seq<char>, value: Option<ScalarView>) -> bool {
    match value {
        Some(v) => !(b.contains_key(name) && b[name] == v),
        None => false,
    }
}

/// `b` after the variable `d` has been taken once.
pub open spec fn step(b: Store, d: VarDef) -> Store {
    bound(b, d.name@, evaluated(d, b))
}

/// Whether taking the variable `d` changes `b`.
pub open spec fn step_changes(b: Store, d: VarDef) -> bool {
    binds_anew(b, d.name@, evaluated(d, b))
}

/// `b` after one pass: each variable taken once, in order, each against
/// what the ones before it left.
pub open spec fn pass(defs: Seq<VarDef>, b: Store) -> Store
    decreases defs.len(),
{
    if defs.len() == 0 {
        b
    } else {
        step(pass(defs.drop_last(), b), defs.last())
    }
}

/// Whether one pass changes `b` at any of its steps.
pub open spec fn pass_changes(defs: Seq<VarDef>, b: Store) -> bool
    decreases defs.len(),
{
    if defs.len() == 0 {
        false
    } else {
        pass_changes(defs.drop_last(), b) || step_changes(
            pass(defs.drop_last(), b),
            defs.last(),
        )
    }
}

/// `b` after passes are made until one changes nothing, `budget` of them at
/// most.
pub open spec fn resolve_within(defs: Seq<VarDef>, b: Store, budget: nat) -> Store
    decreases budget,
{
    if budget == 0 {
        b
    } else if !pass_changes(defs, b) {
        b
    } else {
        resolve_within(defs, pass(defs, b), (budget - 1) as nat)
    }
}

/// The number of passes allowed for `n` variables: twice `n`, and two for
/// no variable at all.
pub open spec fn budget(n: nat) -> nat {
    if n == 0 {
        2
    } else {
        2 * n
    }
}

/// The bindings that resolution ends with.
pub open spec fn resolved_bindings(defs: Seq<VarDef>, initial: Store) -> Store {
    resolve_within(defs, initial, budget(defs.len()))
}

pub open spec fn text_of(rendered: Option<String>) -> Option<Seq<char>> {
    match rendered {
        Some(s) => Some(s@),
        None => None,
    }
}

/// A pass that changes nothing at any step leaves the bindings as they
/// were.
pub proof fn lemma_quiet_pass(defs: Seq<VarDef>, b: Store)
    requires
        !pass_changes(defs, b),
    ensures
        pass(defs, b) == b,
    decreases defs.len(),
{
    if defs.len() > 0 {
        lemma_quiet_pass(defs.drop_last(), b);
        let d = defs.last();
        assert(step(b, d) =~= b);
    }
}

/// Binds the variable `def` to what its default settles to, given in
/// `rendered` the text that rendering it as an expression gave, or `None`
/// where that failed or the default is no text. A default that is no text
/// is bound only where the variable holds nothing yet. Says whether the
/// bindings changed.
pub fn apply_default(bindings: &mut Bindings, def: &VarDef, rendered: Option<String>) -> (changed:
    bool)
    ensures
        final(bindings)@ == bound(
            old(bindings)@,
            def.name@,
            settled(default_of(*def), text_of(rendered), held(old(bindings)@, def.name@)),
        ),
        changed == binds_anew(
            old(bindings)@,
            def.name@,
            settled(default_of(*def), text_of(rendered), held(old(bindings)@, def.name@)),
        ),
        old(bindings).is_distinct() ==> final(bindings).is_distinct(),
{
    let value = match &def.default {
        None => {
            return false;
        },
        Some(Scalar::Str(source)) => match rendered {
            Some(text) => Scalar::Str(text),
            None => Scalar::Str(source.clone()),
        },
        Some(other) => {
            if bindings.contains(def.name.as_str()) {
                return false;
            }
            other.copy()
        },
    };
    let same = match bindings.get(def.name.as_str()) {
        Some(current) => current.same(&value),
        None => false,
    };
    if same {
        false
    } else {
        bindings.insert(def.name.as_str(), value);
        true
    }
}

/// Resolves the defaults of `defs` on top of `initial`. Each pass takes
/// every variable once, in order: a text default is rendered as an
/// expression against the bindings as they stand, and where rendering fails
/// the text itself is bound instead; any other default is bound as it is,
/// once, where the variable holds nothing yet.
/// Passes are made until one changes nothing, twice the number of variables
/// at most.
pub fn resolve_defaults(defs: &Vec<VarDef>, initial: &Bindings) -> (out: Bindings)
    ensures
        out@ == resolved_bindings(defs@, initial@),
{
    let mut engine = new_environment();
    make_strict(&mut engine);
    let mut vars = initial.distinct();
    let count: u128 = defs.len() as u128;
    let limit: u128 = if count == 0 {
        2
    } else {
        2 * count
    };
    let mut done: u128 = 0;
    while done < limit
        invariant
            done <= limit,
            limit == budget(defs@.len()),
            strict(engine),
            registered(engine) == Map::<Seq<char>, Seq<char>>::empty(),
            vars.is_distinct(),
            resolved_bindings(defs@, initial@) == resolve_within(
                defs@,
                vars@,
                (limit - done) as nat,
            ),
        decreases limit - done,
    {
        let ghost start = vars@;
        let mut changed = false;
        let mut i: usize = 0;
        proof {
            assert(defs@.take(0) =~= Seq::<VarDef>::empty());
        }
        while i < defs.len()
            invariant
                i <= defs.len(),
                strict(engine),
                registered(engine) == Map::<Seq<char>, Seq<char>>::empty(),
                vars.is_distinct(),
                vars@ == pass(defs@.take(i as int), start),
                changed == pass_changes(defs@.take(i as int), start),
            decreases defs.len() - i,
        {
            let def = &defs[i];
            proof {
                assert(defs@.take(i + 1).drop_last() =~= defs@.take(i as int));
                assert(defs@.take(i + 1).last() == *def);
            }
            let rendered = match &def.default {
                Some(Scalar::Str(source)) => render_str(&engine, source.as_str(), &vars),
                _ => None,
            };
            proof {
                assert(settled(default_of(*def), text_of(rendered), held(vars@, def.name@))
                    == evaluated(*def, vars@));
            }
            let moved = apply_default(&mut vars, def, rendered);
            changed = changed || moved;
            i += 1;
        }
        proof {
            assert(defs@.take(defs.len() as int) =~= defs@);
        }
        if !changed {
            proof {
                lemma_quiet_pass(defs@, start);
            }
            return vars;
        }
        done += 1;
    }
    vars
}

} // verus!
