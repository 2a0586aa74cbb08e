//! The path guard: turns a relative path that came from outside into a
//! location under a canonical root, or says why it will not.
//!
//! The guard never looks at the file system itself. Its caller looks, and
//! hands over what it found as [`PathFacts`].

use crate::paths::{safe_segment_chars_on, safe_segment_on, Platform};
use crate::text::{string_views, to_chars};
use vstd::prelude::*;

verus! {

/// One component of a path, as the platform's path parser tells them apart.
pub enum Component {
    /// A drive or share prefix.
    Prefix,
    /// The root directory: the path is absolute.
    RootDir,
    /// `.`
    CurDir,
    /// `..`
    ParentDir,
    /// A plain name.
    Normal(String),
}

/// What was found at one location, looked at without following a link at
/// its last name.
#[derive(Clone, Copy, Debug, PartialEq, Eq, Structural)]
pub enum Entry {
    /// Nothing is there: no file, no directory, and no link either.
    Absent,
    /// The last name is a symbolic link, whether or not there is anything
    /// where it points.
    Symlink,
    /// Something is there, and the last name is no link.
    Plain,
    /// It was not possible to tell what is there.
    Unreadable,
}

/// What was found of the whole candidate path.
pub enum Target {
    /// Nothing is there: no file, no directory, and no link either.
    Absent,
    /// It exists, and this is its canonical form, component by component.
    Canonical(Vec<String>),
    /// It exists, and its canonical form could not be had.
    Unresolved,
}

/// What the caller found on the file system for one relative path under one
/// root: `entries[k]` at the root joined with the first `k + 1` components,
/// and `target` at the root joined with all of them.
pub struct PathFacts {
    pub entries: Vec<Entry>,
    pub target: Target,
}

/// Why a path was refused.
#[derive(Clone, Copy, Debug, PartialEq, Eq, Structural)]
pub enum SafetyError {
    /// The component at `index` is no plain name.
    UnsupportedComponent { index: usize },
    /// The name at `index` breaks the segment rule.
    UnsafeSegment { index: usize },
    /// The location reached with the component at `index` is a symbolic link.
    SymlinkComponent { index: usize },
    /// The location reached with the component at `index` could not be read.
    Unreadable { index: usize },
    /// The canonical form of the whole path could not be had.
    Unresolved,
    /// The canonical form of the whole path does not lie under the root.
    EscapesRoot,
    /// The canonical form of the root could not be had.
    RootUnavailable,
}

/// `a` is a prefix of `b`, component by component.
pub open spec fn is_prefix(a: Seq<Seq<char>>, b: Seq<Seq<char>>) -> bool {
    a.len() <= b.len() && b.take(a.len() as int) == a
}

/// The name of a component; empty where it is no plain name.
pub open spec fn name_of(c: Component) -> Seq<char> {
    match c {
        Component::Normal(name) => name@,
        _ => Seq::<char>::empty(),
    }
}

pub open spec fn names(rel: Seq<Component>) -> Seq<Seq<char>> {
    Seq::new(rel.len(), |i: int| name_of(rel[i]))
}

/// What is wrong with the component at `k`, if anything: it is no plain
/// name, its name breaks the segment rule, or the location it leads to is a
/// symbolic link or cannot be read. A location without an entry among the
/// facts counts as unreadable.
pub open spec fn component_error(
    rel: Seq<Component>,
    entries: Seq<Entry>,
    platform: Platform,
    k: int,
) -> Option<SafetyError> {
    match rel[k] {
        Component::Normal(name) => {
            if !safe_segment_on(name@, platform) {
                Some(SafetyError::UnsafeSegment { index: k as usize })
            } else if k >= entries.len() {
                Some(SafetyError::Unreadable { index: k as usize })
            } else {
                match entries[k] {
                    Entry::Symlink => Some(SafetyError::SymlinkComponent { index: k as usize }),
                    Entry::Unreadable => Some(SafetyError::Unreadable { index: k as usize }),
                    _ => None,
                }
            }
        },
        _ => Some(SafetyError::UnsupportedComponent { index: k as usize }),
    }
}

/// The error of the first component among the first `upto` that has one.
pub open spec fn first_error(
    rel: Seq<Component>,
    entries: Seq<Entry>,
    platform: Platform,
    upto: int,
) -> Option<SafetyError>
    decreases upto,
{
    if upto <= 0 {
        None
    } else {
        match first_error(rel, entries, platform, upto - 1) {
            Some(e) => Some(e),
            None => component_error(rel, entries, platform, upto - 1),
        }
    }
}

pub open spec fn target_error(root: Seq<Seq<char>>, target: Target) -> Option<SafetyError> {
    match target {
        Target::Absent => None,
        Target::Canonical(c) => if is_prefix(root, string_views(c@)) {
            None
        } else {
            Some(SafetyError::EscapesRoot)
        },
        Target::Unresolved => Some(SafetyError::Unresolved),
    }
}

/// The location that `rel` names under `root`, or the first reason to refuse
/// it: the components are taken in order, and only when all of them pass is
/// the whole path held against the root.
pub open spec fn resolved(
    root: Seq<Seq<char>>,
    rel: Seq<Component>,
    facts: PathFacts,
    platform: Platform,
) -> Result<Seq<Seq<char>>, SafetyError> {
    match first_error(rel, facts.entries@, platform, rel.len() as int) {
        Some(e) => Err(e),
        None => match target_error(root, facts.target) {
            Some(e) => Err(e),
            None => Ok(root + names(rel)),
        },
    }
}

proof fn lemma_first_error_none(
    rel: Seq<Component>,
    entries: Seq<Entry>,
    platform: Platform,
    upto: int,
)
    requires
        0 <= upto <= rel.len(),
    ensures
        first_error(rel, entries, platform, upto) is None <==> forall|k: int|
            0 <= k < upto ==> component_error(rel, entries, platform, k) is None,
    decreases upto,
{
    if upto > 0 {
        lemma_first_error_none(rel, entries, platform, upto - 1);
    }
}

proof fn lemma_first_error_at(
    rel: Seq<Component>,
    entries: Seq<Entry>,
    platform: Platform,
    k: int,
    upto: int,
)
    requires
        0 <= k < upto <= rel.len(),
        first_error(rel, entries, platform, k) is None,
        component_error(rel, entries, platform, k) is Some,
    ensures
        first_error(rel, entries, platform, upto) == component_error(rel, entries, platform, k),
    decreases upto,
{
    if upto > k + 1 {
        lemma_first_error_at(rel, entries, platform, k, upto - 1);
    }
}

/// A path with a component that is no plain name (`..`, `.`, a root or a
/// prefix) is refused, and so is one with a component that leads to a
/// symbolic link.
pub proof fn lemma_refused(
    root: Seq<Seq<char>>,
    rel: Seq<Component>,
    facts: PathFacts,
    platform: Platform,
    k: int,
)
    requires
        0 <= k < rel.len(),
        !(rel[k] is Normal) || (k < facts.entries@.len() && facts.entries@[k] == Entry::Symlink),
    ensures
        resolved(root, rel, facts, platform) is Err,
{
    lemma_first_error_none(rel, facts.entries@, platform, rel.len() as int);
    assert(component_error(rel, facts.entries@, platform, k) is Some);
}

/// A path made of safe plain names, none of which leads to a symbolic link
/// or to something unreadable, is accepted when its location does not exist
/// yet or lies under the root, and what comes back is the root followed by
/// those names.
pub proof fn lemma_accepted(
    root: Seq<Seq<char>>,
    rel: Seq<Component>,
    facts: PathFacts,
    platform: Platform,
)
    requires
        facts.entries@.len() >= rel.len(),
        forall|k: int|
            0 <= k < rel.len() ==> (#[trigger] rel[k]) is Normal && safe_segment_on(
                name_of(rel[k]),
                platform,
            ),
        forall|k: int|
            0 <= k < rel.len() ==> (#[trigger] facts.entries@[k]) == Entry::Absent
                || facts.entries@[k] == Entry::Plain,
        match facts.target {
            Target::Absent => true,
            Target::Canonical(c) => is_prefix(root, string_views(c@)),
            Target::Unresolved => false,
        },
    ensures
        resolved(root, rel, facts, platform) == Ok::<Seq<Seq<char>>, SafetyError>(
            root + names(rel),
        ),
{
    lemma_first_error_none(rel, facts.entries@, platform, rel.len() as int);
    assert forall|k: int| 0 <= k < rel.len() implies component_error(
        rel,
        facts.entries@,
        platform,
        k,
    ) is None by {
        assert(rel[k] is Normal);
        assert(facts.entries@[k] == Entry::Absent || facts.entries@[k] == Entry::Plain);
    }
}

/// Whatever is accepted lies under the root, and below the root it is made
/// of safe plain names only.
pub proof fn lemma_resolved_under_root(
    root: Seq<Seq<char>>,
    rel: Seq<Component>,
    facts: PathFacts,
    platform: Platform,
)
    requires
        resolved(root, rel, facts, platform) is Ok,
    ensures
        is_prefix(root, resolved(root, rel, facts, platform)->Ok_0),
        resolved(root, rel, facts, platform)->Ok_0.len() == root.len() + rel.len(),
        forall|k: int|
            0 <= k < rel.len() ==> safe_segment_on(
                #[trigger] resolved(root, rel, facts, platform)->Ok_0[root.len() + k],
                platform,
            ),
{
    let out = root + names(rel);
    lemma_first_error_none(rel, facts.entries@, platform, rel.len() as int);
    assert(out.take(root.len() as int) =~= root);
    assert forall|k: int| 0 <= k < rel.len() implies safe_segment_on(
        #[trigger] out[root.len() + k],
        platform,
    ) by {
        assert(component_error(rel, facts.entries@, platform, k) is None);
        assert(out[root.len() + k] == name_of(rel[k]));
    }
}

/// `target` is `root` followed by the names of `rel`, and `rel` is made of
/// safe plain names only.
pub open spec fn lies_under(
    root: Seq<Seq<char>>,
    rel: Seq<Component>,
    target: Seq<Seq<char>>,
    platform: Platform,
) -> bool {
    &&& target == root + names(rel)
    &&& forall|k: int|
        0 <= k < rel.len() ==> (#[trigger] rel[k]) is Normal && safe_segment_on(
            name_of(rel[k]),
            platform,
        )
}

/// Whatever the guard accepts is the root followed by safe plain names.
pub proof fn lemma_accepted_lies_under(
    root: Seq<Seq<char>>,
    rel: Seq<Component>,
    facts: PathFacts,
    platform: Platform,
)
    requires
        resolved(root, rel, facts, platform) is Ok,
    ensures
        lies_under(root, rel, resolved(root, rel, facts, platform)->Ok_0, platform),
{
    lemma_first_error_none(rel, facts.entries@, platform, rel.len() as int);
    assert forall|k: int| 0 <= k < rel.len() implies (#[trigger] rel[k]) is Normal
        && safe_segment_on(name_of(rel[k]), platform) by {
        assert(component_error(rel, facts.entries@, platform, k) is None);
    }
}

/// Whether `a` is a prefix of `b`, component by component.
pub fn is_prefix_exec(a: &Vec<String>, b: &Vec<String>) -> (r: bool)
    ensures
        r == is_prefix(string_views(a@), string_views(b@)),
{
    if a.len() > b.len() {
        return false;
    }
    let mut i: usize = 0;
    while i < a.len()
        invariant
            i <= a.len() <= b.len(),
            forall|k: int| 0 <= k < i ==> a@[k]@ == b@[k]@,
        decreases a.len() - i,
    {
        if !(a[i] == b[i]) {
            proof {
                let x = string_views(a@);
                let y = string_views(b@);
                assert(y.take(x.len() as int)[i as int] == b@[i as int]@);
                assert(x[i as int] == a@[i as int]@);
            }
            return false;
        }
        i += 1;
    }
    proof {
        let x = string_views(a@);
        let y = string_views(b@);
        assert(y.take(x.len() as int) =~= x);
    }
    true
}

/// The location that `rel` names under the canonical root `canon_root`, or
/// the first reason to refuse it. Each component must be a plain name that
/// keeps the segment rule of `platform`, and must not lead to an existing
/// symbolic link; the whole path, where it already exists, must have a
/// canonical form under the root.
pub fn safe_resolve_under_canon(
    canon_root: &Vec<String>,
    rel: &Vec<Component>,
    facts: &PathFacts,
    platform: Platform,
) -> (r: Result<Vec<String>, SafetyError>)
    ensures
        match r {
            Ok(path) => resolved(string_views(canon_root@), rel@, *facts, platform) == Ok::<
                Seq<Seq<char>>,
                SafetyError,
            >(string_views(path@)),
            Err(e) => resolved(string_views(canon_root@), rel@, *facts, platform) == Err::<
                Seq<Seq<char>>,
                SafetyError,
            >(e),
        },
{
    let mut cur: Vec<String> = Vec::new();
    let mut j: usize = 0;
    while j < canon_root.len()
        invariant
            j <= canon_root.len(),
            string_views(cur@) == string_views(canon_root@).take(j as int),
        decreases canon_root.len() - j,
    {
        let item = canon_root[j].clone();
        let ghost before = string_views(cur@);
        cur.push(item);
        proof {
            assert(string_views(cur@) =~= before.push(item@));
            assert(string_views(cur@) =~= string_views(canon_root@).take(j + 1));
        }
        j += 1;
    }
    proof {
        assert(string_views(canon_root@).take(canon_root.len() as int) =~= string_views(
            canon_root@,
        ));
        assert(names(rel@).take(0) =~= Seq::<Seq<char>>::empty());
        assert(string_views(cur@) =~= string_views(canon_root@) + names(rel@).take(0));
    }
    let mut k: usize = 0;
    while k < rel.len()
        invariant
            k <= rel.len(),
            first_error(rel@, facts.entries@, platform, k as int) is None,
            string_views(cur@) == string_views(canon_root@) + names(rel@).take(k as int),
        decreases rel.len() - k,
    {
        let ghost step = component_error(rel@, facts.entries@, platform, k as int);
        proof {
            if step is Some {
                lemma_first_error_at(rel@, facts.entries@, platform, k as int, rel@.len() as int);
            }
        }
        match &rel[k] {
            Component::Normal(name) => {
                let chars = to_chars(name.as_str());
                if !safe_segment_chars_on(&chars, platform) {
                    assert(step is Some);
                    return Err(SafetyError::UnsafeSegment { index: k });
                }
                if k >= facts.entries.len() {
                    assert(step is Some);
                    return Err(SafetyError::Unreadable { index: k });
                }
                match facts.entries[k] {
                    Entry::Symlink => {
                        assert(step is Some);
                        return Err(SafetyError::SymlinkComponent { index: k });
                    },
                    Entry::Unreadable => {
                        assert(step is Some);
                        return Err(SafetyError::Unreadable { index: k });
                    },
                    _ => {},
                }
                let item = name.clone();
                let ghost before = string_views(cur@);
                cur.push(item);
                proof {
                    assert(step is None);
                    assert(string_views(cur@) =~= before.push(name@));
                    assert(names(rel@).take(k + 1) =~= names(rel@).take(k as int).push(name@));
                    assert(string_views(cur@) =~= string_views(canon_root@) + names(rel@).take(
                        k + 1,
                    ));
                }
            },
            _ => {
                assert(step is Some);
                return Err(SafetyError::UnsupportedComponent { index: k });
            },
        }
        k += 1;
    }
    proof {
        assert(names(rel@).take(rel.len() as int) =~= names(rel@));
    }
    match &facts.target {
        Target::Absent => Ok(cur),
        Target::Canonical(c) => {
            if is_prefix_exec(canon_root, c) {
                Ok(cur)
            } else {
                Err(SafetyError::EscapesRoot)
            }
        },
        Target::Unresolved => Err(SafetyError::Unresolved),
    }
}

/// As [`safe_resolve_under_canon`], for a root whose canonical form the
/// caller has just asked for: `None` says that it could not be had.
pub fn safe_resolve_under(
    canon_root: &Option<Vec<String>>,
    rel: &Vec<Component>,
    facts: &PathFacts,
    platform: Platform,
) -> (r: Result<Vec<String>, SafetyError>)
    ensures
        match *canon_root {
            None => r == Err::<Vec<String>, SafetyError>(SafetyError::RootUnavailable),
            Some(root) => match r {
                Ok(path) => resolved(string_views(root@), rel@, *facts, platform) == Ok::<
                    Seq<Seq<char>>,
                    SafetyError,
                >(string_views(path@)),
                Err(e) => resolved(string_views(root@), rel@, *facts, platform) == Err::<
                    Seq<Seq<char>>,
                    SafetyError,
                >(e),
            },
        },
{
    match canon_root {
        None => Err(SafetyError::RootUnavailable),
        Some(root) => safe_resolve_under_canon(root, rel, facts, platform),
    }
}

} // verus!
