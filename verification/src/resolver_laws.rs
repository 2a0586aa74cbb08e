//! What holds of variable resolution whatever the template engine does.

use crate::render::expression_text;
use crate::resolver::{
    bound, budget, default_of, evaluated, held, lemma_quiet_pass, pass, pass_changes,
    rendering, resolve_within, resolved_bindings, settled, step, step_changes, Store,
};
use crate::manifest::VarDef;
use crate::values::ScalarView;
use vstd::prelude::*;

verus! {

/// No two variables have the same name.
pub open spec fn distinct_names(defs: Seq<VarDef>) -> bool {
    forall|i: int, j: int| 0 <= i < j < defs.len() ==> defs[i].name@ != defs[j].name@
}

/// `name` is the name of a variable with a default: resolution may bind it.
pub open spec fn assigned(defs: Seq<VarDef>, name: Seq<char>) -> bool {
    exists|i: int|
        0 <= i < defs.len() && (#[trigger] defs[i]).name@ == name && default_of(defs[i]) is Some
}

/// Taking the variable `d` leaves `b` as it is.
pub open spec fn stable(b: Store, d: VarDef) -> bool {
    !step_changes(b, d)
}

/// No variable changes `b` any more.
pub open spec fn is_settled(defs: Seq<VarDef>, b: Store) -> bool {
    forall|i: int| 0 <= i < defs.len() ==> stable(b, #[trigger] defs[i])
}

/// `a` and `b` bind the same of `names`, and to the same values.
pub open spec fn agree_on(a: Store, b: Store, names: Set<Seq<char>>) -> bool {
    forall|n: Seq<char>| #[trigger]
        names.contains(n) ==> (a.contains_key(n) == b.contains_key(n) && (a.contains_key(n)
            ==> a[n] == b[n]))
}

/// What rendering `source` gives depends on the variables in `names` alone.
pub open spec fn reads_only(source: Seq<char>, names: Set<Seq<char>>) -> bool {
    forall|a: Store, b: Store| #[trigger]
        agree_on(a, b, names) ==> expression_text(true, source, a)
            == expression_text(true, source, b)
}

/// The variables that resolution never binds, and those ranked below `name`.
pub open spec fn below(
    defs: Seq<VarDef>,
    rank: spec_fn(Seq<char>) -> nat,
    name: Seq<char>,
) -> Set<Seq<char>> {
    Set::new(|n: Seq<char>| !assigned(defs, n) || rank(n) < rank(name))
}

/// `rank` lays the variables out in layers: the expression of each reads
/// only variables that resolution never binds and variables of lower rank,
/// and no rank reaches the number of variables.
pub open spec fn layered(defs: Seq<VarDef>, rank: spec_fn(Seq<char>) -> nat) -> bool {
    &&& forall|i: int| 0 <= i < defs.len() ==> rank((#[trigger] defs[i]).name@) < defs.len()
    &&& forall|i: int|
        0 <= i < defs.len() ==> match default_of(#[trigger] defs[i]) {
            Some(ScalarView::Str(source)) => reads_only(source, below(defs, rank, defs[i].name@)),
            _ => true,
        }
}

/// The expressions of the variables do not depend on one another in a
/// circle.
pub open spec fn acyclic(defs: Seq<VarDef>) -> bool {
    exists|rank: spec_fn(Seq<char>) -> nat| layered(defs, rank)
}

/// The same name and the same default.
pub open spec fn same_def(x: VarDef, y: VarDef) -> bool {
    x.name@ == y.name@ && default_of(x) == default_of(y)
}

/// `b` holds the variables of `a` in another order.
pub open spec fn reordered(a: Seq<VarDef>, b: Seq<VarDef>) -> bool {
    &&& a.len() == b.len()
    &&& forall|i: int| 0 <= i < a.len() ==> exists|j: int| 0 <= j < b.len() && same_def(#[trigger] a[i], #[trigger] b[j])
    &&& forall|j: int| 0 <= j < b.len() ==> exists|i: int| 0 <= i < a.len() && same_def(#[trigger] a[i], #[trigger] b[j])
}

/// All variables ranked below `k` are stable, and so are those of rank `k`
/// among the first `upto`.
pub open spec fn stable_up_to(
    defs: Seq<VarDef>,
    rank: spec_fn(Seq<char>) -> nat,
    b: Store,
    k: nat,
    upto: int,
) -> bool {
    &&& forall|i: int|
        0 <= i < defs.len() && rank((#[trigger] defs[i]).name@) < k ==> stable(b, defs[i])
    &&& forall|i: int|
        0 <= i < upto && i < defs.len() && rank((#[trigger] defs[i]).name@) == k ==> stable(
            b,
            defs[i],
        )
}

/// The expression `source` refers to the variable `missing`: it cannot be
/// rendered against bindings that do not bind `missing`.
pub open spec fn needs(source: Seq<char>, missing: Seq<char>) -> bool {
    forall|s: Store|
        !s.contains_key(missing) ==> #[trigger] expression_text(true, source, s)
            is None
}

proof fn lemma_pass_binds(
    defs: Seq<VarDef>,
    b: Store,
    i: int,
    source: Seq<char>,
    missing: Seq<char>,
    m: int,
)
    requires
        0 <= i < m <= defs.len(),
        default_of(defs[i]) == Some(ScalarView::Str(source)),
        forall|j: int| i < j < defs.len() ==> defs[j].name@ != defs[i].name@,
        !b.contains_key(missing),
        !assigned(defs, missing),
        needs(source, missing),
    ensures
        held(pass(defs.take(m), b), defs[i].name@) == Some(ScalarView::Str(source)),
    decreases m,
{
    let before = pass(defs.take(m - 1), b);
    lemma_pass_frame(defs, b, m - 1, missing);
    assert(defs.take(m).drop_last() =~= defs.take(m - 1));
    assert(defs.take(m).last() == defs[m - 1]);
    if m - 1 == i {
        assert(rendering(defs[i], before) is None);
    } else {
        lemma_pass_binds(defs, b, i, source, missing, m - 1);
        assert(defs[m - 1].name@ != defs[i].name@);
    }
}

proof fn lemma_resolve_binds(
    defs: Seq<VarDef>,
    b: Store,
    allowed: nat,
    i: int,
    source: Seq<char>,
    missing: Seq<char>,
)
    requires
        allowed >= 1,
        0 <= i < defs.len(),
        default_of(defs[i]) == Some(ScalarView::Str(source)),
        forall|j: int| i < j < defs.len() ==> defs[j].name@ != defs[i].name@,
        !b.contains_key(missing),
        !assigned(defs, missing),
        needs(source, missing),
    ensures
        held(resolve_within(defs, b, allowed), defs[i].name@) == Some(ScalarView::Str(source)),
    decreases allowed,
{
    lemma_pass_binds(defs, b, i, source, missing, defs.len() as int);
    lemma_pass_frame(defs, b, defs.len() as int, missing);
    assert(defs.take(defs.len() as int) =~= defs);
    if !pass_changes(defs, b) {
        lemma_quiet_pass(defs, b);
    } else if allowed > 1 {
        lemma_resolve_binds(defs, pass(defs, b), (allowed - 1) as nat, i, source, missing);
    }
}

/// A text default whose expression refers to a variable that is neither
/// bound at the start nor given a default does not stop resolution: the
/// variable ends up bound to the text as it is written. So does one whose
/// expression can never be rendered. (Of several variables with one name
/// the last counts.)
pub proof fn lemma_failing_default_stays(
    defs: Seq<VarDef>,
    initial: Store,
    i: int,
    source: Seq<char>,
    missing: Seq<char>,
)
    requires
        0 <= i < defs.len(),
        default_of(defs[i]) == Some(ScalarView::Str(source)),
        forall|j: int| i < j < defs.len() ==> defs[j].name@ != defs[i].name@,
        !initial.contains_key(missing),
        !assigned(defs, missing),
        needs(source, missing),
    ensures
        held(resolved_bindings(defs, initial), defs[i].name@) == Some(ScalarView::Str(source)),
{
    lemma_resolve_binds(defs, initial, budget(defs.len()), i, source, missing);
}

/// The default of `d` is a literal: a value that is no text.
pub open spec fn has_literal(d: VarDef) -> bool {
    match default_of(d) {
        Some(ScalarView::Str(_)) => false,
        Some(_) => true,
        None => false,
    }
}

/// What a variable with a literal default ends up with: what it held at
/// the start, else its default.
pub open spec fn literal_outcome(b: Store, d: VarDef) -> Option<ScalarView> {
    if b.contains_key(d.name@) {
        Some(b[d.name@])
    } else {
        default_of(d)
    }
}

proof fn lemma_pass_literal(defs: Seq<VarDef>, b: Store, i: int, m: int)
    requires
        distinct_names(defs),
        0 <= i < defs.len(),
        0 <= m <= defs.len(),
        has_literal(defs[i]),
    ensures
        m <= i ==> held(pass(defs.take(m), b), defs[i].name@) == held(b, defs[i].name@),
        m > i ==> held(pass(defs.take(m), b), defs[i].name@) == literal_outcome(b, defs[i]),
    decreases m,
{
    if m == 0 {
        assert(defs.take(0) =~= Seq::<VarDef>::empty());
    } else {
        lemma_pass_literal(defs, b, i, m - 1);
        assert(defs.take(m).drop_last() =~= defs.take(m - 1));
        assert(defs.take(m).last() == defs[m - 1]);
        if m - 1 < i {
            assert(defs[m - 1].name@ != defs[i].name@);
        } else if m - 1 > i {
            assert(defs[i].name@ != defs[m - 1].name@);
        }
    }
}

proof fn lemma_resolve_literal(defs: Seq<VarDef>, b: Store, allowed: nat, i: int)
    requires
        distinct_names(defs),
        0 <= i < defs.len(),
        has_literal(defs[i]),
        allowed >= 1 || b.contains_key(defs[i].name@),
    ensures
        held(resolve_within(defs, b, allowed), defs[i].name@) == literal_outcome(b, defs[i]),
    decreases allowed,
{
    if allowed > 0 {
        lemma_pass_literal(defs, b, i, defs.len() as int);
        assert(defs.take(defs.len() as int) =~= defs);
        if !pass_changes(defs, b) {
            lemma_quiet_pass(defs, b);
        } else {
            lemma_resolve_literal(defs, pass(defs, b), (allowed - 1) as nat, i);
        }
    }
}

/// A default that is no text is bound once, and only where the variable
/// holds nothing: after resolution the variable holds what it held at the
/// start, else its default.
pub proof fn lemma_literal_default_binds_once(defs: Seq<VarDef>, initial: Store, i: int)
    requires
        distinct_names(defs),
        0 <= i < defs.len(),
        has_literal(defs[i]),
    ensures
        held(resolved_bindings(defs, initial), defs[i].name@) == literal_outcome(
            initial,
            defs[i],
        ),
{
    lemma_resolve_literal(defs, initial, budget(defs.len()), i);
}

/// A change to a variable that the expression of `defs[i]` does not read,
/// and that is not `defs[i]` itself, leaves `defs[i]` stable.
proof fn lemma_stable_kept(
    defs: Seq<VarDef>,
    rank: spec_fn(Seq<char>) -> nat,
    b: Store,
    i: int,
    name: Seq<char>,
    value: ScalarView,
)
    requires
        layered(defs, rank),
        0 <= i < defs.len(),
        stable(b, defs[i]),
        assigned(defs, name),
        rank(name) >= rank(defs[i].name@),
        name != defs[i].name@,
    ensures
        stable(b.insert(name, value), defs[i]),
{
    let d = defs[i];
    let after = b.insert(name, value);
    match default_of(d) {
        Some(ScalarView::Str(source)) => {
            let names = below(defs, rank, d.name@);
            assert(reads_only(source, names));
            assert(agree_on(after, b, names));
            assert(rendering(d, after) == rendering(d, b));
        },
        _ => {},
    }
}

/// Taking `defs[j]` leaves a stable `defs[i]` stable, when `defs[j]` is
/// stable itself or is another variable of the same or a higher rank.
proof fn lemma_step_keeps(
    defs: Seq<VarDef>,
    rank: spec_fn(Seq<char>) -> nat,
    b: Store,
    i: int,
    j: int,
)
    requires
        layered(defs, rank),
        distinct_names(defs),
        0 <= i < defs.len(),
        0 <= j < defs.len(),
        stable(b, defs[i]),
        stable(b, defs[j]) || (i != j && rank(defs[j].name@) >= rank(defs[i].name@)),
    ensures
        stable(step(b, defs[j]), defs[i]),
{
    let d = defs[j];
    if stable(b, d) {
        assert(step(b, d) =~= b);
    } else {
        let v = evaluated(d, b)->Some_0;
        assert(default_of(d) is Some);
        assert(assigned(defs, d.name@));
        if i < j {
            assert(defs[i].name@ != defs[j].name@);
        } else {
            assert(defs[j].name@ != defs[i].name@);
        }
        lemma_stable_kept(defs, rank, b, i, d.name@, v);
    }
}

/// Once taken, a variable is stable.
proof fn lemma_step_settles(
    defs: Seq<VarDef>,
    rank: spec_fn(Seq<char>) -> nat,
    b: Store,
    i: int,
)
    requires
        layered(defs, rank),
        0 <= i < defs.len(),
    ensures
        stable(step(b, defs[i]), defs[i]),
{
    let d = defs[i];
    let after = step(b, d);
    match default_of(d) {
        Some(ScalarView::Str(source)) => {
            let names = below(defs, rank, d.name@);
            assert(reads_only(source, names));
            assert(assigned(defs, d.name@));
            assert(!names.contains(d.name@));
            assert(agree_on(after, b, names));
            assert(rendering(d, after) == rendering(d, b));
        },
        _ => {},
    }
}

/// A pass over the first `m` variables keeps what was stable below rank
/// `k`, and makes the variables of rank `k` among them stable.
proof fn lemma_pass_advances(
    defs: Seq<VarDef>,
    rank: spec_fn(Seq<char>) -> nat,
    b: Store,
    k: nat,
    m: int,
)
    requires
        layered(defs, rank),
        distinct_names(defs),
        stable_up_to(defs, rank, b, k, 0),
        0 <= m <= defs.len(),
    ensures
        stable_up_to(defs, rank, pass(defs.take(m), b), k, m),
    decreases m,
{
    if m == 0 {
        assert(defs.take(0) =~= Seq::<VarDef>::empty());
    } else {
        lemma_pass_advances(defs, rank, b, k, m - 1);
        assert(defs.take(m).drop_last() =~= defs.take(m - 1));
        assert(defs.take(m).last() == defs[m - 1]);
        let c = pass(defs.take(m - 1), b);
        let d = defs[m - 1];
        let after = step(c, d);
        assert(pass(defs.take(m), b) == after);
        assert forall|i: int|
            0 <= i < defs.len() && rank((#[trigger] defs[i]).name@) < k implies stable(
            after,
            defs[i],
        ) by {
            if rank(d.name@) < k {
                assert(stable(c, d));
            }
            lemma_step_keeps(defs, rank, c, i, m - 1);
        }
        assert forall|i: int|
            0 <= i < m && i < defs.len() && rank((#[trigger] defs[i]).name@) == k implies stable(
            after,
            defs[i],
        ) by {
            if i == m - 1 {
                lemma_step_settles(defs, rank, c, i);
            } else {
                if rank(d.name@) < k {
                    assert(stable(c, d));
                }
                lemma_step_keeps(defs, rank, c, i, m - 1);
            }
        }
    }
}

/// A pass that changes nothing finds every variable stable.
proof fn lemma_quiet_is_settled(defs: Seq<VarDef>, b: Store)
    requires
        !pass_changes(defs, b),
    ensures
        is_settled(defs, b),
    decreases defs.len(),
{
    if defs.len() > 0 {
        let head = defs.drop_last();
        lemma_quiet_is_settled(head, b);
        lemma_quiet_pass(head, b);
        assert forall|i: int| 0 <= i < defs.len() implies stable(b, #[trigger] defs[i]) by {
            if i < defs.len() - 1 {
                assert(head[i] == defs[i]);
            }
        }
    }
}

/// Where every variable is stable, a pass changes nothing.
proof fn lemma_settled_is_quiet(defs: Seq<VarDef>, b: Store)
    requires
        is_settled(defs, b),
    ensures
        !pass_changes(defs, b),
    decreases defs.len(),
{
    if defs.len() > 0 {
        let head = defs.drop_last();
        assert forall|i: int| 0 <= i < head.len() implies stable(b, #[trigger] head[i]) by {
            assert(head[i] == defs[i]);
        }
        lemma_settled_is_quiet(head, b);
        lemma_quiet_pass(head, b);
        assert(stable(b, defs[defs.len() - 1]));
    }
}

/// With layered variables, resolution ends settled once the passes allowed
/// are at least as many as the ranks still to be made stable, and one more.
proof fn lemma_converges(
    defs: Seq<VarDef>,
    rank: spec_fn(Seq<char>) -> nat,
    b: Store,
    k: nat,
    allowed: nat,
)
    requires
        layered(defs, rank),
        distinct_names(defs),
        stable_up_to(defs, rank, b, k, 0),
        k <= defs.len(),
        allowed >= defs.len() - k + 1,
    ensures
        is_settled(defs, resolve_within(defs, b, allowed)),
    decreases allowed,
{
    if !pass_changes(defs, b) {
        lemma_quiet_is_settled(defs, b);
    } else {
        if k >= defs.len() {
            assert forall|i: int| 0 <= i < defs.len() implies stable(b, #[trigger] defs[i]) by {
                assert(rank(defs[i].name@) < k);
            }
            lemma_settled_is_quiet(defs, b);
        }
        lemma_pass_advances(defs, rank, b, k, defs.len() as int);
        assert(defs.take(defs.len() as int) =~= defs);
        let after = pass(defs, b);
        assert(stable_up_to(defs, rank, after, k + 1, 0));
        lemma_converges(defs, rank, after, k + 1, (allowed - 1) as nat);
    }
}

/// Passes bind no variable but those with a default, and leave all others
/// as they were.
proof fn lemma_pass_frame(defs: Seq<VarDef>, b: Store, m: int, name: Seq<char>)
    requires
        0 <= m <= defs.len(),
        !assigned(defs, name),
    ensures
        pass(defs.take(m), b).contains_key(name) == b.contains_key(name),
        b.contains_key(name) ==> pass(defs.take(m), b)[name] == b[name],
    decreases m,
{
    if m == 0 {
        assert(defs.take(0) =~= Seq::<VarDef>::empty());
    } else {
        lemma_pass_frame(defs, b, m - 1, name);
        assert(defs.take(m).drop_last() =~= defs.take(m - 1));
        assert(defs.take(m).last() == defs[m - 1]);
        let d = defs[m - 1];
        if default_of(d) is Some {
            assert(d.name@ != name);
        }
    }
}

proof fn lemma_resolve_frame(defs: Seq<VarDef>, b: Store, allowed: nat, name: Seq<char>)
    requires
        !assigned(defs, name),
    ensures
        resolve_within(defs, b, allowed).contains_key(name) == b.contains_key(name),
        b.contains_key(name) ==> resolve_within(defs, b, allowed)[name] == b[name],
    decreases allowed,
{
    if allowed > 0 && pass_changes(defs, b) {
        lemma_pass_frame(defs, b, defs.len() as int, name);
        assert(defs.take(defs.len() as int) =~= defs);
        lemma_resolve_frame(defs, pass(defs, b), (allowed - 1) as nat, name);
    }
}

/// Two settled bindings agree on every bound variable ranked below `k`.
proof fn lemma_settled_agree(
    defs: Seq<VarDef>,
    rank: spec_fn(Seq<char>) -> nat,
    x: Store,
    y: Store,
    k: nat,
)
    requires
        layered(defs, rank),
        is_settled(defs, x),
        is_settled(defs, y),
        forall|n: Seq<char>|
            !assigned(defs, n) ==> (x.contains_key(n) == y.contains_key(n) && (x.contains_key(n)
                ==> x[n] == y[n])),
        forall|i: int|
            0 <= i < defs.len() && has_literal(#[trigger] defs[i]) ==> held(x, defs[i].name@)
                is Some && held(x, defs[i].name@) == held(y, defs[i].name@),
    ensures
        forall|i: int|
            0 <= i < defs.len() && default_of(#[trigger] defs[i]) is Some && rank(defs[i].name@)
                < k ==> x.contains_key(defs[i].name@) && y.contains_key(defs[i].name@)
                && x[defs[i].name@] == y[defs[i].name@],
    decreases k,
{
    if k > 0 {
        lemma_settled_agree(defs, rank, x, y, (k - 1) as nat);
        assert forall|i: int|
            0 <= i < defs.len() && default_of(#[trigger] defs[i]) is Some && rank(defs[i].name@)
                < k implies x.contains_key(defs[i].name@) && y.contains_key(defs[i].name@)
            && x[defs[i].name@] == y[defs[i].name@] by {
            let d = defs[i];
            assert(stable(x, d) && stable(y, d));
            match default_of(d) {
                Some(ScalarView::Str(source)) => {
                    let names = below(defs, rank, d.name@);
                    assert(reads_only(source, names));
                    assert forall|n: Seq<char>| #[trigger] names.contains(n) implies (
                    x.contains_key(n) == y.contains_key(n) && (x.contains_key(n) ==> x[n]
                        == y[n])) by {
                        if assigned(defs, n) {
                            let j = choose|j: int|
                                0 <= j < defs.len() && (#[trigger] defs[j]).name@ == n
                                    && default_of(defs[j]) is Some;
                            assert(rank(defs[j].name@) < k - 1 + 1);
                            assert(rank(n) < rank(d.name@));
                        }
                    }
                    assert(agree_on(x, y, names));
                    assert(rendering(d, x) == rendering(d, y));
                },
                _ => {},
            }
        }
    }
}

/// With layered variables there is one way only to be settled, given the
/// variables that resolution never binds.
proof fn lemma_settled_once(
    defs: Seq<VarDef>,
    rank: spec_fn(Seq<char>) -> nat,
    x: Store,
    y: Store,
)
    requires
        layered(defs, rank),
        is_settled(defs, x),
        is_settled(defs, y),
        forall|n: Seq<char>|
            !assigned(defs, n) ==> (x.contains_key(n) == y.contains_key(n) && (x.contains_key(n)
                ==> x[n] == y[n])),
        forall|i: int|
            0 <= i < defs.len() && has_literal(#[trigger] defs[i]) ==> held(x, defs[i].name@)
                is Some && held(x, defs[i].name@) == held(y, defs[i].name@),
    ensures
        x == y,
{
    lemma_settled_agree(defs, rank, x, y, defs.len());
    assert forall|n: Seq<char>|
        (#[trigger] x.dom().contains(n)) == y.dom().contains(n) && (x.dom().contains(n) ==> x[n]
            == y[n]) by {
        if assigned(defs, n) {
            let j = choose|j: int|
                0 <= j < defs.len() && (#[trigger] defs[j]).name@ == n && default_of(defs[j])
                    is Some;
            assert(rank(defs[j].name@) < defs.len());
            assert(x.contains_key(defs[j].name@) && y.contains_key(defs[j].name@));
        } else {
            assert(x.contains_key(n) == y.contains_key(n));
        }
    }
    assert(x.dom() =~= y.dom());
    assert(x =~= y);
}

proof fn lemma_reordered_assigned(a: Seq<VarDef>, b: Seq<VarDef>, name: Seq<char>)
    requires
        reordered(a, b),
    ensures
        assigned(a, name) == assigned(b, name),
{
    if assigned(a, name) {
        let i = choose|i: int|
            0 <= i < a.len() && (#[trigger] a[i]).name@ == name && default_of(a[i]) is Some;
        let j = choose|j: int| 0 <= j < b.len() && same_def(#[trigger] a[i], #[trigger] b[j]);
        assert(b[j].name@ == name && default_of(b[j]) is Some);
    }
    if assigned(b, name) {
        let j = choose|j: int|
            0 <= j < b.len() && (#[trigger] b[j]).name@ == name && default_of(b[j]) is Some;
        let i = choose|i: int| 0 <= i < a.len() && same_def(#[trigger] a[i], #[trigger] b[j]);
        assert(a[i].name@ == name && default_of(a[i]) is Some);
    }
}

proof fn lemma_reordered_layered(
    a: Seq<VarDef>,
    b: Seq<VarDef>,
    rank: spec_fn(Seq<char>) -> nat,
)
    requires
        reordered(a, b),
        layered(a, rank),
    ensures
        layered(b, rank),
{
    assert forall|j: int| 0 <= j < b.len() implies rank((#[trigger] b[j]).name@) < b.len()
        && match default_of(b[j]) {
        Some(ScalarView::Str(source)) => reads_only(source, below(b, rank, b[j].name@)),
        _ => true,
    } by {
        let i = choose|i: int| 0 <= i < a.len() && same_def(#[trigger] a[i], #[trigger] b[j]);
        assert(rank(a[i].name@) < a.len());
        assert forall|n: Seq<char>|
            below(a, rank, a[i].name@).contains(n) == below(b, rank, b[j].name@).contains(
                n,
            ) by {
            lemma_reordered_assigned(a, b, n);
        }
        assert(below(a, rank, a[i].name@) =~= below(b, rank, b[j].name@));
    }
}

proof fn lemma_reordered_settled(a: Seq<VarDef>, b: Seq<VarDef>, s: Store)
    requires
        reordered(a, b),
        is_settled(b, s),
    ensures
        is_settled(a, s),
{
    assert forall|i: int| 0 <= i < a.len() implies stable(s, #[trigger] a[i]) by {
        let j = choose|j: int| 0 <= j < b.len() && same_def(#[trigger] a[i], #[trigger] b[j]);
        assert(stable(s, b[j]));
        assert(evaluated(a[i], s) == evaluated(b[j], s));
    }
}

proof fn lemma_pass_names(defs: Seq<VarDef>, b: Store, m: int, name: Seq<char>)
    requires
        0 <= m <= defs.len(),
    ensures
        pass(defs.take(m), b).contains_key(name) == (b.contains_key(name) || assigned(
            defs.take(m),
            name,
        )),
    decreases m,
{
    if m == 0 {
        assert(defs.take(0) =~= Seq::<VarDef>::empty());
    } else {
        lemma_pass_names(defs, b, m - 1, name);
        let head = defs.take(m - 1);
        let all = defs.take(m);
        assert(all.drop_last() =~= head);
        assert(all.last() == defs[m - 1]);
        let d = defs[m - 1];
        let here = d.name@ == name && default_of(d) is Some;
        if assigned(head, name) {
            let i = choose|i: int|
                0 <= i < head.len() && (#[trigger] head[i]).name@ == name && default_of(head[i])
                    is Some;
            assert(all[i] == head[i]);
        }
        if here {
            assert(all[m - 1] == d);
        }
        if assigned(all, name) {
            let i = choose|i: int|
                0 <= i < all.len() && (#[trigger] all[i]).name@ == name && default_of(all[i])
                    is Some;
            if i < m - 1 {
                assert(head[i] == all[i]);
            }
        }
        assert(assigned(all, name) == (assigned(head, name) || here));
    }
}

proof fn lemma_resolve_names(defs: Seq<VarDef>, b: Store, allowed: nat, name: Seq<char>)
    requires
        allowed >= 1 || (assigned(defs, name) ==> b.contains_key(name)),
    ensures
        resolve_within(defs, b, allowed).contains_key(name) == (b.contains_key(name)
            || assigned(defs, name)),
    decreases allowed,
{
    if allowed > 0 {
        lemma_pass_names(defs, b, defs.len() as int, name);
        assert(defs.take(defs.len() as int) =~= defs);
        if !pass_changes(defs, b) {
            lemma_quiet_pass(defs, b);
        } else {
            lemma_resolve_names(defs, pass(defs, b), (allowed - 1) as nat, name);
        }
    }
}

/// After resolution the variables that are bound are those that were bound
/// at the start and those that have a default: where the bindings at the
/// start name variables only, and every variable has a default, the names
/// bound are the names of the variables.
pub proof fn lemma_resolved_names(defs: Seq<VarDef>, initial: Store, name: Seq<char>)
    ensures
        resolved_bindings(defs, initial).contains_key(name) == (initial.contains_key(name)
            || assigned(defs, name)),
{
    lemma_resolve_names(defs, initial, budget(defs.len()), name);
}

/// With variables whose expressions do not depend on one another in a
/// circle, resolution ends within its budget with bindings that no further
/// pass would change.
pub proof fn lemma_resolution_settles(defs: Seq<VarDef>, initial: Store)
    requires
        distinct_names(defs),
        acyclic(defs),
    ensures
        is_settled(defs, resolved_bindings(defs, initial)),
        !pass_changes(defs, resolved_bindings(defs, initial)),
{
    let rank = choose|rank: spec_fn(Seq<char>) -> nat| layered(defs, rank);
    lemma_converges(defs, rank, initial, 0, budget(defs.len()));
    lemma_settled_is_quiet(defs, resolved_bindings(defs, initial));
}

/// With variables whose expressions do not depend on one another in a
/// circle, the order in which the variables are listed does not matter:
/// resolution ends with the same bindings for every order.
pub proof fn lemma_order_does_not_matter(a: Seq<VarDef>, b: Seq<VarDef>, initial: Store)
    requires
        distinct_names(a),
        distinct_names(b),
        reordered(a, b),
        acyclic(a),
    ensures
        resolved_bindings(a, initial) == resolved_bindings(b, initial),
{
    let x = resolved_bindings(a, initial);
    let y = resolved_bindings(b, initial);
    let rank = choose|rank: spec_fn(Seq<char>) -> nat| layered(a, rank);
    lemma_resolution_settles(a, initial);
    lemma_reordered_layered(a, b, rank);
    assert(acyclic(b));
    lemma_resolution_settles(b, initial);
    lemma_reordered_settled(a, b, y);
    assert forall|i: int| 0 <= i < a.len() && has_literal(#[trigger] a[i]) implies held(
        x,
        a[i].name@,
    ) is Some && held(x, a[i].name@) == held(y, a[i].name@) by {
        let j = choose|j: int| 0 <= j < b.len() && same_def(#[trigger] a[i], #[trigger] b[j]);
        lemma_resolve_literal(a, initial, budget(a.len()), i);
        lemma_resolve_literal(b, initial, budget(b.len()), j);
    }
    assert forall|n: Seq<char>| !assigned(a, n) implies (x.contains_key(n) == y.contains_key(n)
        && (x.contains_key(n) ==> x[n] == y[n])) by {
        lemma_reordered_assigned(a, b, n);
        lemma_resolve_frame(a, initial, budget(a.len()), n);
        lemma_resolve_frame(b, initial, budget(b.len()), n);
    }
    lemma_settled_once(a, rank, x, y);
}

} // verus!
