//! Variable values and the bindings from variable names to values.

use crate::text::same_text;
use vstd::prelude::*;

verus! {

/// The value of a variable.
#[derive(Debug)]
pub enum Scalar {
    Str(String),
    Bool(bool),
    Int(i64),
}

/// What a [`Scalar`] stands for.
pub enum ScalarView {
    Str(Seq<char>),
    Bool(bool),
    Int(int),
}

impl View for Scalar {
    type V = ScalarView;

    open spec fn view(&self) -> ScalarView {
        match self {
            Scalar::Str(s) => ScalarView::Str(s@),
            Scalar::Bool(b) => ScalarView::Bool(*b),
            Scalar::Int(i) => ScalarView::Int(*i as int),
        }
    }
}

impl Scalar {
    /// A copy of the value.
    pub fn copy(&self) -> (out: Scalar)
        ensures
            out@ == self@,
    {
        match self {
            Scalar::Str(s) => Scalar::Str(s.clone()),
            Scalar::Bool(b) => Scalar::Bool(*b),
            Scalar::Int(i) => Scalar::Int(*i),
        }
    }

    /// Whether two values are of the same kind and hold the same.
    pub fn same(&self, other: &Scalar) -> (r: bool)
        ensures
            r == (self@ == other@),
    {
        match (self, other) {
            (Scalar::Str(a), Scalar::Str(b)) => same_text(a.as_str(), b.as_str()),
            (Scalar::Bool(a), Scalar::Bool(b)) => *a == *b,
            (Scalar::Int(a), Scalar::Int(b)) => *a == *b,
            _ => false,
        }
    }

    /// The text of a string value.
    pub fn as_str(&self) -> (out: Option<&str>)
        ensures
            match out {
                Some(s) => self@ == ScalarView::Str(s@),
                None => !(self@ is Str),
            },
    {
        match self {
            Scalar::Str(s) => Some(s.as_str()),
            _ => None,
        }
    }
}

/// One variable with its value.
#[derive(Debug)]
pub struct Binding {
    pub name: String,
    pub value: Scalar,
}

/// Variables with their values. Where a name stands more than once, its
/// first entry counts.
#[derive(Debug)]
pub struct Bindings {
    pub entries: Vec<Binding>,
}

/// The value of the first entry named `name`.
pub open spec fn lookup(entries: Seq<Binding>, name: Seq<char>) -> Option<ScalarView>
    decreases entries.len(),
{
    if entries.len() == 0 {
        None
    } else if entries[0].name@ == name {
        Some(entries[0].value@)
    } else {
        lookup(entries.drop_first(), name)
    }
}

/// The map that a list of entries stands for.
pub open spec fn map_of(entries: Seq<Binding>) -> Map<Seq<char>, ScalarView> {
    Map::new(
        |name: Seq<char>| lookup(entries, name) is Some,
        |name: Seq<char>| lookup(entries, name)->Some_0,
    )
}

/// No two entries have the same name.
pub open spec fn no_name_twice(entries: Seq<Binding>) -> bool {
    forall|i: int, j: int| 0 <= i < j < entries.len() ==> entries[i].name@ != entries[j].name@
}

impl View for Bindings {
    type V = Map<Seq<char>, ScalarView>;

    open spec fn view(&self) -> Map<Seq<char>, ScalarView> {
        map_of(self.entries@)
    }
}

pub proof fn lemma_lookup_found(entries: Seq<Binding>, name: Seq<char>, at: int)
    requires
        0 <= at < entries.len(),
        entries[at].name@ == name,
        forall|k: int| 0 <= k < at ==> entries[k].name@ != name,
    ensures
        lookup(entries, name) == Some(entries[at].value@),
    decreases entries.len(),
{
    if at > 0 {
        let rest = entries.drop_first();
        assert forall|k: int| 0 <= k < at - 1 implies rest[k].name@ != name by {
            assert(rest[k] == entries[k + 1]);
        }
        assert(rest[at - 1] == entries[at]);
        lemma_lookup_found(rest, name, at - 1);
    }
}

pub proof fn lemma_lookup_missing(entries: Seq<Binding>, name: Seq<char>)
    requires
        forall|k: int| 0 <= k < entries.len() ==> entries[k].name@ != name,
    ensures
        lookup(entries, name) is None,
    decreases entries.len(),
{
    if entries.len() > 0 {
        let rest = entries.drop_first();
        assert forall|k: int| 0 <= k < rest.len() implies rest[k].name@ != name by {
            assert(rest[k] == entries[k + 1]);
        }
        lemma_lookup_missing(rest, name);
    }
}

/// Putting a new value in the place of an entry changes what its name
/// stands for and nothing else.
proof fn lemma_lookup_update(entries: Seq<Binding>, at: int, b: Binding, name: Seq<char>)
    requires
        0 <= at < entries.len(),
        entries[at].name@ == b.name@,
        forall|k: int| 0 <= k < at ==> entries[k].name@ != b.name@,
    ensures
        lookup(entries.update(at, b), name) == if name == b.name@ {
            Some(b.value@)
        } else {
            lookup(entries, name)
        },
    decreases entries.len(),
{
    let now = entries.update(at, b);
    if at == 0 {
        assert(now.drop_first() =~= entries.drop_first());
    } else {
        let rest = entries.drop_first();
        assert forall|k: int| 0 <= k < at - 1 implies rest[k].name@ != b.name@ by {
            assert(rest[k] == entries[k + 1]);
        }
        assert(rest[at - 1] == entries[at]);
        lemma_lookup_update(rest, at - 1, b, name);
        assert(now.drop_first() =~= rest.update(at - 1, b));
        assert(now[0] == entries[0]);
    }
}

/// Adding an entry under a name that no entry has yet changes what that
/// name stands for and nothing else.
proof fn lemma_lookup_push(entries: Seq<Binding>, b: Binding, name: Seq<char>)
    requires
        forall|k: int| 0 <= k < entries.len() ==> entries[k].name@ != b.name@,
    ensures
        lookup(entries.push(b), name) == if name == b.name@ {
            Some(b.value@)
        } else {
            lookup(entries, name)
        },
    decreases entries.len(),
{
    let now = entries.push(b);
    if entries.len() == 0 {
        assert(now.drop_first() =~= Seq::<Binding>::empty());
        assert(lookup(now.drop_first(), name) is None);
        assert(lookup(entries, name) is None);
        assert(now[0] == b);
    } else {
        let rest = entries.drop_first();
        assert forall|k: int| 0 <= k < rest.len() implies rest[k].name@ != b.name@ by {
            assert(rest[k] == entries[k + 1]);
        }
        lemma_lookup_push(rest, b, name);
        assert(now.drop_first() =~= rest.push(b));
        assert(now[0] == entries[0]);
        assert(entries[0].name@ != b.name@);
    }
}

impl Bindings {
    /// Each name stands once among the entries.
    pub open spec fn is_distinct(&self) -> bool {
        no_name_twice(self.entries@)
    }

    /// No variable at all.
    pub fn new() -> (out: Bindings)
        ensures
            out@ == Map::<Seq<char>, ScalarView>::empty(),
            out.entries@.len() == 0,
    {
        let out = Bindings { entries: Vec::new() };
        proof {
            assert forall|name: Seq<char>| !out@.contains_key(name) by {
                assert(lookup(out.entries@, name) is None);
            }
            assert(out@ =~= Map::<Seq<char>, ScalarView>::empty());
        }
        out
    }

    /// The place of the first entry named `name`.
    fn position(&self, name: &str) -> (at: Option<usize>)
        ensures
            match at {
                Some(i) => {
                    &&& i < self.entries@.len()
                    &&& self.entries@[i as int].name@ == name@
                    &&& forall|k: int| 0 <= k < i ==> self.entries@[k].name@ != name@
                },
                None => forall|k: int|
                    0 <= k < self.entries@.len() ==> self.entries@[k].name@ != name@,
            },
    {
        let mut i: usize = 0;
        while i < self.entries.len()
            invariant
                i <= self.entries.len(),
                forall|k: int| 0 <= k < i ==> self.entries@[k].name@ != name@,
            decreases self.entries.len() - i,
        {
            if same_text(self.entries[i].name.as_str(), name) {
                return Some(i);
            }
            i += 1;
        }
        None
    }

    /// The value bound to `name`, if there is one.
    pub fn get(&self, name: &str) -> (out: Option<&Scalar>)
        ensures
            match out {
                Some(v) => self@.contains_key(name@) && self@[name@] == v@,
                None => !self@.contains_key(name@),
            },
    {
        match self.position(name) {
            Some(i) => {
                proof {
                    lemma_lookup_found(self.entries@, name@, i as int);
                }
                Some(&self.entries[i].value)
            },
            None => {
                proof {
                    lemma_lookup_missing(self.entries@, name@);
                }
                None
            },
        }
    }

    /// Whether `name` is bound.
    pub fn contains(&self, name: &str) -> (r: bool)
        ensures
            r == self@.contains_key(name@),
    {
        self.get(name).is_some()
    }

    /// Binds `name` to `value`, in place of what it was bound to before.
    /// Where each name stood once, each still does.
    pub fn insert(&mut self, name: &str, value: Scalar)
        ensures
            final(self)@ == old(self)@.insert(name@, value@),
            old(self).is_distinct() ==> final(self).is_distinct(),
    {
        let ghost before = self.entries@;
        let b = Binding { name: name.to_owned(), value };
        match self.position(name) {
            Some(i) => {
                self.entries.set(i, b);
                proof {
                    assert forall|n: Seq<char>| lookup(self.entries@, n) == (if n == name@ {
                        Some(value@)
                    } else {
                        lookup(before, n)
                    }) by {
                        lemma_lookup_update(before, i as int, b, n);
                    }
                }
            },
            None => {
                self.entries.push(b);
                proof {
                    assert forall|n: Seq<char>| lookup(self.entries@, n) == (if n == name@ {
                        Some(value@)
                    } else {
                        lookup(before, n)
                    }) by {
                        lemma_lookup_push(before, b, n);
                    }
                }
            },
        }
        proof {
            assert(self@ =~= map_of(before).insert(name@, value@));
        }
    }

    /// The same bindings with each name standing once: of several entries
    /// with one name the first is kept.
    pub fn distinct(&self) -> (out: Bindings)
        ensures
            out@ == self@,
            out.is_distinct(),
    {
        let mut out = Bindings::new();
        merge_bindings(&mut out, self);
        proof {
            assert(out@ =~= self@);
        }
        out
    }

    /// A copy of the bindings.
    pub fn copy(&self) -> (out: Bindings)
        ensures
            out@ == self@,
            out.entries@.len() == self.entries@.len(),
            forall|k: int|
                0 <= k < self.entries@.len() ==> (#[trigger] out.entries@[k]).name@
                    == self.entries@[k].name@ && out.entries@[k].value@ == self.entries@[k].value@,
    {
        let mut entries: Vec<Binding> = Vec::new();
        let mut i: usize = 0;
        while i < self.entries.len()
            invariant
                i <= self.entries.len(),
                entries.len() == i,
                forall|k: int|
                    0 <= k < i ==> (#[trigger] entries@[k]).name@ == self.entries@[k].name@
                        && entries@[k].value@ == self.entries@[k].value@,
            decreases self.entries.len() - i,
        {
            let e = &self.entries[i];
            entries.push(Binding { name: e.name.clone(), value: e.value.copy() });
            i += 1;
        }
        let out = Bindings { entries };
        proof {
            lemma_same_entries(out.entries@, self.entries@);
        }
        out
    }
}

/// Lists with the same names and values, place by place, stand for the
/// same map.
pub proof fn lemma_same_entries(a: Seq<Binding>, b: Seq<Binding>)
    requires
        a.len() == b.len(),
        forall|k: int|
            0 <= k < a.len() ==> (#[trigger] a[k]).name@ == b[k].name@ && a[k].value@
                == b[k].value@,
    ensures
        map_of(a) == map_of(b),
{
    assert forall|n: Seq<char>| lookup(a, n) == lookup(b, n) by {
        lemma_same_lookup(a, b, n);
    }
    assert(map_of(a) =~= map_of(b));
}

proof fn lemma_same_lookup(a: Seq<Binding>, b: Seq<Binding>, name: Seq<char>)
    requires
        a.len() == b.len(),
        forall|k: int|
            0 <= k < a.len() ==> (#[trigger] a[k]).name@ == b[k].name@ && a[k].value@
                == b[k].value@,
    ensures
        lookup(a, name) == lookup(b, name),
    decreases a.len(),
{
    if a.len() > 0 {
        assert(a[0].name@ == b[0].name@ && a[0].value@ == b[0].value@);
        let x = a.drop_first();
        let y = b.drop_first();
        assert forall|k: int| 0 <= k < x.len() implies (#[trigger] x[k]).name@ == y[k].name@
            && x[k].value@ == y[k].value@ by {
            assert(x[k] == a[k + 1] && y[k] == b[k + 1]);
            assert(a[k + 1].name@ == b[k + 1].name@);
        }
        lemma_same_lookup(x, y, name);
    }
}

/// What the entries from `from` on stand for is what the later ones stand
/// for, with the entry at `from` put on top.
proof fn lemma_map_of_skip(entries: Seq<Binding>, from: int)
    requires
        0 <= from < entries.len(),
    ensures
        map_of(entries.skip(from)) == map_of(entries.skip(from + 1)).insert(
            entries[from].name@,
            entries[from].value@,
        ),
{
    let here = entries.skip(from);
    let later = entries.skip(from + 1);
    assert(here.drop_first() =~= later);
    assert(here[0] == entries[from]);
    assert forall|n: Seq<char>| lookup(here, n) == (if n == entries[from].name@ {
        Some(entries[from].value@)
    } else {
        lookup(later, n)
    }) by {}
    assert(map_of(here) =~= map_of(later).insert(entries[from].name@, entries[from].value@));
}

/// Binds in `into` every variable of `from` to its value in `from`, and
/// leaves the other variables of `into` as they are.
pub fn merge_bindings(into: &mut Bindings, from: &Bindings)
    ensures
        final(into)@ == old(into)@.union_prefer_right(from@),
        old(into).is_distinct() ==> final(into).is_distinct(),
{
    let ghost start = into@;
    let mut i: usize = from.entries.len();
    proof {
        assert(from.entries@.skip(i as int) =~= Seq::<Binding>::empty());
        assert forall|n: Seq<char>| lookup(Seq::<Binding>::empty(), n) is None by {}
        assert(into@ =~= start.union_prefer_right(map_of(from.entries@.skip(i as int))));
    }
    while i > 0
        invariant
            i <= from.entries.len(),
            into@ == start.union_prefer_right(map_of(from.entries@.skip(i as int))),
            old(into).is_distinct() ==> into.is_distinct(),
        decreases i,
    {
        i -= 1;
        let e = &from.entries[i];
        let ghost before = into@;
        into.insert(e.name.as_str(), e.value.copy());
        proof {
            lemma_map_of_skip(from.entries@, i as int);
            let later = map_of(from.entries@.skip(i + 1));
            assert(into@ =~= start.union_prefer_right(later.insert(e.name@, e.value@)));
        }
    }
    proof {
        assert(from.entries@.skip(0) =~= from.entries@);
    }
}

} // verus!
