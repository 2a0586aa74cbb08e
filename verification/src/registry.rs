//! The template registry: which files of a template tree become which
//! files of the project, under which names, and in which order their
//! contents are registered with the engine.

use crate::error::RunError;
use crate::filter::{any_match, CopyFilter};
use crate::paths::{safe_segment_chars_on, safe_segment_on, Platform};
use crate::render::{
    add_template, expression_text, make_strict, new_environment, registered, render_str, strict,
    template_accepted, Engine,
};
use crate::resolver::Store;
use crate::slug::{lemma_slug_idempotent, sanitize_slug_python, slug};
use crate::text::{
    contains_chars, contains_seq, join, join_strings, same_text, string_views, to_chars,
    to_string,
};
use crate::values::{Bindings, Scalar, ScalarView};
use vstd::prelude::*;

verus! {

/// The text bound to `key`, where `key` is bound to a text.
pub open spec fn text_binding(b: Store, key: Seq<char>) -> Option<Seq<char>> {
    if b.contains_key(key) {
        match b[key] {
            ScalarView::Str(s) => Some(s),
            _ => None,
        }
    } else {
        None
    }
}

/// What the project slug is made from: the text bound to `project_slug`,
/// or else the slug of the text bound to `project_title`, or else of the
/// one bound to `project_name`, or else of `project`.
pub open spec fn slug_source(b: Store) -> Seq<char> {
    match text_binding(b, "project_slug"@) {
        Some(s) => s,
        None => slug(
            match text_binding(b, "project_title"@) {
                Some(t) => t,
                None => match text_binding(b, "project_name"@) {
                    Some(n) => n,
                    None => "project"@,
                },
            },
        ),
    }
}

/// The normalized project slug.
pub open spec fn project_slug(b: Store) -> Seq<char> {
    slug(slug_source(b))
}

/// The name of the project directory that hooks write into: the slug of
/// the text bound to `project_slug`, or of `project`.
pub open spec fn hook_directory(b: Store) -> Seq<char> {
    slug(
        match text_binding(b, "project_slug"@) {
            Some(s) => s,
            None => "project"@,
        },
    )
}

/// The text bound to `key`, where `key` is bound to a text.
pub fn bound_text<'a>(b: &'a Bindings, key: &str) -> (out: Option<&'a str>)
    ensures
        match out {
            Some(s) => text_binding(b@, key@) == Some(s@),
            None => text_binding(b@, key@) is None,
        },
{
    match b.get(key) {
        Some(v) => v.as_str(),
        None => None,
    }
}

/// The bindings that templates are rendered against: `b` with
/// `project_slug` bound to the normalized project slug. An empty slug is
/// refused.
pub fn render_bindings(b: &Bindings) -> (r: Result<Bindings, RunError>)
    ensures
        match r {
            Ok(out) => project_slug(b@).len() > 0 && out@ == b@.insert(
                "project_slug"@,
                ScalarView::Str(project_slug(b@)),
            ),
            Err(e) => project_slug(b@).len() == 0 && e == RunError::EmptySlug,
        },
{
    let source: String = match bound_text(b, "project_slug") {
        Some(s) => s.to_owned(),
        None => {
            let fallback: &str = match bound_text(b, "project_title") {
                Some(t) => t,
                None => match bound_text(b, "project_name") {
                    Some(n) => n,
                    None => "project",
                },
            };
            sanitize_slug_python(fallback)
        },
    };
    let normalized = sanitize_slug_python(source.as_str());
    let chars = to_chars(normalized.as_str());
    if chars.len() == 0 {
        return Err(RunError::EmptySlug);
    }
    let mut out = b.copy();
    out.insert("project_slug", Scalar::Str(normalized));
    Ok(out)
}

/// The name of the project directory that hooks write into.
pub fn hook_project_dir(b: &Bindings) -> (out: String)
    ensures
        out@ == hook_directory(b@),
{
    match bound_text(b, "project_slug") {
        Some(s) => sanitize_slug_python(s),
        None => sanitize_slug_python("project"),
    }
}

/// A directory name stands for the project when it holds `{{`, `}}` and
/// `project_slug`.
pub open spec fn is_main_dir(name: Seq<char>) -> bool {
    contains_seq(name, "{{"@) && contains_seq(name, "}}"@) && contains_seq(
        name,
        "project_slug"@,
    )
}

fn is_main_dir_name(name: &str) -> (r: bool)
    ensures
        r == is_main_dir(name@),
{
    let chars = to_chars(name);
    let open = to_chars("{{");
    let close = to_chars("}}");
    let key = to_chars("project_slug");
    contains_chars(&chars, &open) && contains_chars(&chars, &close) && contains_chars(
        &chars,
        &key,
    )
}

/// What looking for the project directory among `names` gives: the one name
/// that stands for the project, or that there is none, or that there are
/// several.
pub open spec fn main_dir_found(names: Seq<Seq<char>>, r: Result<String, RunError>) -> bool {
    match r {
        Ok(name) => exists|i: int|
            {
                &&& 0 <= i < names.len()
                &&& #[trigger] names[i] == name@
                &&& is_main_dir(names[i])
                &&& forall|j: int| 0 <= j < names.len() && j != i ==> !is_main_dir(names[j])
            },
        Err(e) => if e == RunError::NoMainDirectory {
            forall|j: int| 0 <= j < names.len() ==> !is_main_dir(names[j])
        } else {
            &&& e == RunError::SeveralMainDirectories
            &&& exists|i: int, j: int|
                0 <= i < j < names.len() && is_main_dir(#[trigger] names[i]) && is_main_dir(
                    #[trigger] names[j],
                )
        },
    }
}

/// Finds the one directory at the template root that stands for the
/// project.
pub fn find_main_dir(dirs: &Vec<String>) -> (r: Result<String, RunError>)
    ensures
        main_dir_found(string_views(dirs@), r),
{
    let ghost names = string_views(dirs@);
    let mut found: Option<usize> = None;
    let mut i: usize = 0;
    while i < dirs.len()
        invariant
            i <= dirs.len(),
            names == string_views(dirs@),
            match found {
                Some(k) => k < i && is_main_dir(names[k as int]) && forall|j: int|
                    0 <= j < i && j != k ==> !is_main_dir(names[j]),
                None => forall|j: int| 0 <= j < i ==> !is_main_dir(names[j]),
            },
        decreases dirs.len() - i,
    {
        proof {
            assert(names[i as int] == dirs@[i as int]@);
        }
        if is_main_dir_name(dirs[i].as_str()) {
            match found {
                Some(k) => {
                    proof {
                        assert(is_main_dir(names[k as int]) && is_main_dir(names[i as int]));
                    }
                    return Err(RunError::SeveralMainDirectories);
                },
                None => {
                    found = Some(i);
                },
            }
        }
        i += 1;
    }
    match found {
        Some(k) => {
            let name = dirs[k].clone();
            proof {
                assert(names[k as int] == name@);
            }
            Ok(name)
        },
        None => Err(RunError::NoMainDirectory),
    }
}

/// One file of the project: where it goes, where it comes from, and whether
/// it is copied byte for byte.
#[derive(Debug)]
pub struct TemplateItem {
    /// The rendered path, written with `/`: the name under which the
    /// content is registered.
    pub name: String,
    /// The rendered path, segment by segment, relative to the output root.
    pub rel: Vec<String>,
    /// The path of the template file, segment by segment, relative to the
    /// template root.
    pub source: Vec<String>,
    pub copy_raw: bool,
}

/// What a [`TemplateItem`] stands for.
pub struct ItemView {
    pub name: Seq<char>,
    pub rel: Seq<Seq<char>>,
    pub source: Seq<Seq<char>>,
    pub copy_raw: bool,
}

impl View for TemplateItem {
    type V = ItemView;

    open spec fn view(&self) -> ItemView {
        ItemView {
            name: self.name@,
            rel: string_views(self.rel@),
            source: string_views(self.source@),
            copy_raw: self.copy_raw,
        }
    }
}

pub open spec fn item_views(items: Seq<TemplateItem>) -> Seq<ItemView> {
    Seq::new(items.len(), |i: int| items[i]@)
}

pub open spec fn path_views(files: Seq<Vec<String>>) -> Seq<Seq<Seq<char>>> {
    Seq::new(files.len(), |i: int| string_views(files[i]@))
}

/// A file is passed over when it does not lie under the project directory:
/// the manifest, what lies under `hooks`, and whatever has `.git` on its
/// path are passed over in any case.
pub open spec fn is_skipped(rel: Seq<Seq<char>>, main_dir: Seq<char>) -> bool {
    ||| rel.len() == 0
    ||| (rel.len() == 1 && rel[0] == "copilot.json"@)
    ||| rel.contains(".git"@)
    ||| rel[0] == "hooks"@
    ||| rel[0] != main_dir
}

/// What is wrong with the segment at `k`, if anything: it cannot be
/// rendered, or what it renders to is no safe name.
pub open spec fn segment_fault(
    file: int,
    rel: Seq<Seq<char>>,
    b: Store,
    platform: Platform,
    k: int,
) -> Option<RunError> {
    match expression_text(true, rel[k], b) {
        None => Some(RunError::SegmentNotRendered { file: file as usize, segment: k as usize }),
        Some(text) => if safe_segment_on(text, platform) {
            None
        } else {
            Some(RunError::UnsafeSegment { file: file as usize, segment: k as usize })
        },
    }
}

/// The fault of the first segment among the first `upto` that has one.
pub open spec fn first_fault(
    file: int,
    rel: Seq<Seq<char>>,
    b: Store,
    platform: Platform,
    upto: int,
) -> Option<RunError>
    decreases upto,
{
    if upto <= 0 {
        None
    } else {
        match first_fault(file, rel, b, platform, upto - 1) {
            Some(e) => Some(e),
            None => segment_fault(file, rel, b, platform, upto - 1),
        }
    }
}

/// Each segment rendered; empty where it cannot be.
pub open spec fn rendered_path(rel: Seq<Seq<char>>, b: Store) -> Seq<Seq<char>> {
    Seq::new(
        rel.len(),
        |k: int|
            match expression_text(true, rel[k], b) {
                Some(text) => text,
                None => Seq::<char>::empty(),
            },
    )
}

/// What becomes of the template file `rel`, the `file`-th of the walk:
/// nothing where it is passed over; otherwise an item whose path is `rel`
/// with each segment rendered against `b`, and which is copied byte for
/// byte when the filter matches `rel` without its first segment; or the
/// fault of its first faulty segment.
pub open spec fn planned_item(
    file: int,
    rel: Seq<Seq<char>>,
    main_dir: Seq<char>,
    b: Store,
    patterns: Seq<Seq<char>>,
    platform: Platform,
) -> Result<Option<ItemView>, RunError> {
    if is_skipped(rel, main_dir) {
        Ok(None)
    } else {
        match first_fault(file, rel, b, platform, rel.len() as int) {
            Some(e) => Err(e),
            None => Ok(
                Some(
                    ItemView {
                        name: join(rendered_path(rel, b), '/'),
                        rel: rendered_path(rel, b),
                        source: rel,
                        copy_raw: any_match(patterns, join(rel.skip(1), '/')),
                    },
                ),
            ),
        }
    }
}

/// What becomes of the template files `files`, taken in order: the items of
/// those that are not passed over, or the fault of the first faulty one.
pub open spec fn planned(
    files: Seq<Seq<Seq<char>>>,
    main_dir: Seq<char>,
    b: Store,
    patterns: Seq<Seq<char>>,
    platform: Platform,
) -> Result<Seq<ItemView>, RunError>
    decreases files.len(),
{
    if files.len() == 0 {
        Ok(Seq::empty())
    } else {
        match planned(files.drop_last(), main_dir, b, patterns, platform) {
            Err(e) => Err(e),
            Ok(items) => match planned_item(
                files.len() - 1,
                files.last(),
                main_dir,
                b,
                patterns,
                platform,
            ) {
                Err(e) => Err(e),
                Ok(None) => Ok(items),
                Ok(Some(item)) => Ok(items.push(item)),
            },
        }
    }
}

proof fn lemma_first_fault_at(
    file: int,
    rel: Seq<Seq<char>>,
    b: Store,
    platform: Platform,
    k: int,
    upto: int,
)
    requires
        0 <= k < upto <= rel.len(),
        first_fault(file, rel, b, platform, k) is None,
        segment_fault(file, rel, b, platform, k) is Some,
    ensures
        first_fault(file, rel, b, platform, upto) == segment_fault(file, rel, b, platform, k),
    decreases upto,
{
    if upto > k + 1 {
        lemma_first_fault_at(file, rel, b, platform, k, upto - 1);
    }
}

fn skipped(rel: &Vec<String>, main_dir: &str) -> (r: bool)
    ensures
        r == is_skipped(string_views(rel@), main_dir@),
{
    let ghost names = string_views(rel@);
    if rel.len() == 0 {
        return true;
    }
    proof {
        assert(names[0] == rel@[0]@);
    }
    let first = rel[0].as_str();
    if rel.len() == 1 && same_text(first, "copilot.json") {
        return true;
    }
    if same_text(first, "hooks") || !same_text(first, main_dir) {
        return true;
    }
    let mut i: usize = 0;
    while i < rel.len()
        invariant
            i <= rel.len(),
            names == string_views(rel@),
            forall|k: int| 0 <= k < i ==> names[k] != ".git"@,
        decreases rel.len() - i,
    {
        proof {
            assert(names[i as int] == rel@[i as int]@);
        }
        if same_text(rel[i].as_str(), ".git") {
            return true;
        }
        i += 1;
    }
    false
}

/// A template engine that holds no template yet, and that takes a name
/// that is not bound for a failure.
pub fn new_engine() -> (out: Engine)
    ensures
        strict(out),
        registered(out) == Map::<Seq<char>, Seq<char>>::empty(),
{
    let mut engine = new_environment();
    make_strict(&mut engine);
    engine
}

/// Plans the template file `rel`, the `file`-th of the walk.
pub fn plan_item(
    engine: &Engine,
    file: usize,
    rel: &Vec<String>,
    main_dir: &str,
    bindings: &Bindings,
    filter: &CopyFilter,
    platform: Platform,
) -> (r: Result<Option<TemplateItem>, RunError>)
    requires
        strict(*engine),
        registered(*engine) == Map::<Seq<char>, Seq<char>>::empty(),
    ensures
        match r {
            Ok(Some(item)) => planned_item(
                file as int,
                string_views(rel@),
                main_dir@,
                bindings@,
                filter@,
                platform,
            ) == Ok::<Option<ItemView>, RunError>(Some(item@)),
            Ok(None) => planned_item(
                file as int,
                string_views(rel@),
                main_dir@,
                bindings@,
                filter@,
                platform,
            ) == Ok::<Option<ItemView>, RunError>(None),
            Err(e) => planned_item(
                file as int,
                string_views(rel@),
                main_dir@,
                bindings@,
                filter@,
                platform,
            ) == Err::<Option<ItemView>, RunError>(e),
        },
{
    let ghost names = string_views(rel@);
    if skipped(rel, main_dir) {
        return Ok(None);
    }
    let mut out: Vec<String> = Vec::new();
    let mut source: Vec<String> = Vec::new();
    let mut inner: Vec<String> = Vec::new();
    let mut k: usize = 0;
    let unique = bindings.distinct();
    while k < rel.len()
        invariant
            unique@ == bindings@,
            unique.is_distinct(),
            k <= rel.len(),
            rel.len() > 0,
            names == string_views(rel@),
            strict(*engine),
            registered(*engine) == Map::<Seq<char>, Seq<char>>::empty(),
            !is_skipped(names, main_dir@),
            first_fault(file as int, names, bindings@, platform, k as int) is None,
            string_views(out@) == rendered_path(names, bindings@).take(k as int),
            string_views(source@) == names.take(k as int),
            string_views(inner@) == if k == 0 {
                Seq::<Seq<char>>::empty()
            } else {
                names.subrange(1, k as int)
            },
        decreases rel.len() - k,
    {
        proof {
            assert(names[k as int] == rel@[k as int]@);
        }
        let ghost fault = segment_fault(file as int, names, bindings@, platform, k as int);
        proof {
            if fault is Some {
                lemma_first_fault_at(
                    file as int,
                    names,
                    bindings@,
                    platform,
                    k as int,
                    names.len() as int,
                );
            }
        }
        let text = match render_str(engine, rel[k].as_str(), &unique) {
            Some(text) => text,
            None => {
                return Err(RunError::SegmentNotRendered { file, segment: k });
            },
        };
        let chars = to_chars(text.as_str());
        if !safe_segment_chars_on(&chars, platform) {
            return Err(RunError::UnsafeSegment { file, segment: k });
        }
        let ghost before_out = string_views(out@);
        let ghost before_source = string_views(source@);
        let ghost before_inner = string_views(inner@);
        out.push(text);
        source.push(rel[k].clone());
        if k > 0 {
            inner.push(rel[k].clone());
        }
        proof {
            assert(string_views(out@) =~= before_out.push(text@));
            assert(string_views(out@) =~= rendered_path(names, bindings@).take(k + 1));
            assert(string_views(source@) =~= before_source.push(names[k as int]));
            assert(string_views(source@) =~= names.take(k + 1));
            if k > 0 {
                assert(string_views(inner@) =~= before_inner.push(names[k as int]));
            }
            assert(string_views(inner@) =~= names.subrange(1, k + 1));
        }
        k += 1;
    }
    proof {
        assert(rendered_path(names, bindings@).take(rel.len() as int) =~= rendered_path(
            names,
            bindings@,
        ));
        assert(names.take(rel.len() as int) =~= names);
        assert(names.subrange(1, rel.len() as int) =~= names.skip(1));
    }
    let name = to_string(&join_strings(&out, '/'));
    let inner_path = to_string(&join_strings(&inner, '/'));
    let copy_raw = filter.is_match(inner_path.as_str());
    Ok(Some(TemplateItem { name, rel: out, source, copy_raw }))
}

/// Plans the template files `files`, in the order of the walk.
pub fn plan(
    engine: &Engine,
    files: &Vec<Vec<String>>,
    main_dir: &str,
    bindings: &Bindings,
    filter: &CopyFilter,
    platform: Platform,
) -> (r: Result<Vec<TemplateItem>, RunError>)
    requires
        strict(*engine),
        registered(*engine) == Map::<Seq<char>, Seq<char>>::empty(),
    ensures
        match r {
            Ok(items) => planned(path_views(files@), main_dir@, bindings@, filter@, platform)
                == Ok::<Seq<ItemView>, RunError>(item_views(items@)),
            Err(e) => planned(path_views(files@), main_dir@, bindings@, filter@, platform)
                == Err::<Seq<ItemView>, RunError>(e),
        },
{
    let ghost paths = path_views(files@);
    let mut items: Vec<TemplateItem> = Vec::new();
    let mut i: usize = 0;
    proof {
        assert(paths.take(0) =~= Seq::<Seq<Seq<char>>>::empty());
        assert(item_views(items@) =~= Seq::<ItemView>::empty());
    }
    while i < files.len()
        invariant
            i <= files.len(),
            paths == path_views(files@),
            strict(*engine),
            registered(*engine) == Map::<Seq<char>, Seq<char>>::empty(),
            planned(paths.take(i as int), main_dir@, bindings@, filter@, platform) == Ok::<
                Seq<ItemView>,
                RunError,
            >(item_views(items@)),
        decreases files.len() - i,
    {
        proof {
            assert(paths.take(i + 1).drop_last() =~= paths.take(i as int));
            assert(paths.take(i + 1).last() == string_views(files@[i as int]@));
            assert(paths.take(i + 1).len() - 1 == i);
        }
        let ghost before = item_views(items@);
        match plan_item(engine, i, &files[i], main_dir, bindings, filter, platform) {
            Err(e) => {
                proof {
                    lemma_planned_fails(paths, main_dir@, bindings@, filter@, platform, i + 1, e);
                }
                return Err(e);
            },
            Ok(None) => {},
            Ok(Some(item)) => {
                items.push(item);
                proof {
                    assert(item_views(items@) =~= before.push(item@));
                }
            },
        }
        i += 1;
    }
    proof {
        assert(paths.take(files.len() as int) =~= paths);
    }
    Ok(items)
}

proof fn lemma_planned_fails(
    files: Seq<Seq<Seq<char>>>,
    main_dir: Seq<char>,
    b: Store,
    patterns: Seq<Seq<char>>,
    platform: Platform,
    upto: int,
    e: RunError,
)
    requires
        0 <= upto <= files.len(),
        planned(files.take(upto), main_dir, b, patterns, platform) == Err::<
            Seq<ItemView>,
            RunError,
        >(e),
    ensures
        planned(files, main_dir, b, patterns, platform) == Err::<Seq<ItemView>, RunError>(e),
    decreases files.len() - upto,
{
    if upto < files.len() {
        assert(files.take(upto + 1).drop_last() =~= files.take(upto));
        lemma_planned_fails(files, main_dir, b, patterns, platform, upto + 1, e);
    } else {
        assert(files.take(upto) =~= files);
    }
}

proof fn lemma_no_fault(
    file: int,
    rel: Seq<Seq<char>>,
    b: Store,
    platform: Platform,
    upto: int,
    k: int,
)
    requires
        0 <= k < upto <= rel.len(),
        first_fault(file, rel, b, platform, upto) is None,
    ensures
        segment_fault(file, rel, b, platform, k) is None,
    decreases upto,
{
    if k < upto - 1 {
        lemma_no_fault(file, rel, b, platform, upto - 1, k);
    }
}

/// The slug that templates are rendered against is normal: to normalize it
/// once more changes nothing.
pub proof fn lemma_context_slug_is_normal(b: Store)
    ensures
        slug(project_slug(b)) == project_slug(b),
{
    lemma_slug_idempotent(slug_source(b));
}

/// All that is planned goes into one directory at the top of the output:
/// every item comes from under the project directory of the template, has
/// as many segments as its template file, and begins with what the engine
/// makes of the name of that directory against the bindings, which is a
/// safe name.
pub proof fn lemma_one_project_directory(
    files: Seq<Seq<Seq<char>>>,
    main_dir: Seq<char>,
    b: Store,
    patterns: Seq<Seq<char>>,
    platform: Platform,
    i: int,
)
    requires
        planned(files, main_dir, b, patterns, platform) is Ok,
        0 <= i < planned(files, main_dir, b, patterns, platform)->Ok_0.len(),
    ensures
        ({
            let item = planned(files, main_dir, b, patterns, platform)->Ok_0[i];
            &&& item.source.len() >= 1
            &&& item.source[0] == main_dir
            &&& item.rel.len() == item.source.len()
            &&& expression_text(true, main_dir, b) == Some(item.rel[0])
            &&& safe_segment_on(item.rel[0], platform)
        }),
    decreases files.len(),
{
    let before = planned(files.drop_last(), main_dir, b, patterns, platform)->Ok_0;
    if i < before.len() {
        lemma_one_project_directory(files.drop_last(), main_dir, b, patterns, platform, i);
    } else {
        let rel = files.last();
        lemma_no_fault(files.len() - 1, rel, b, platform, rel.len() as int, 0);
    }
}

/// The content of a template file that is to be registered.
#[derive(Debug)]
pub struct PendingTemplate {
    pub name: String,
    pub content: String,
    /// Whether the content holds an inheritance directive.
    pub has_extends: bool,
}

/// Whether `content` holds an inheritance directive.
pub open spec fn extends_another(content: Seq<char>) -> bool {
    contains_seq(content, "{% extends"@)
}

/// The content `content` of the template registered as `name`.
pub fn pending_template(name: String, content: String) -> (out: PendingTemplate)
    ensures
        out.name == name,
        out.content == content,
        out.has_extends == extends_another(content@),
{
    let chars = to_chars(content.as_str());
    let marker = to_chars("{% extends");
    let has_extends = contains_chars(&chars, &marker);
    PendingTemplate { name, content, has_extends }
}

/// Those of `pending` whose flag is `flag`, in their order.
pub open spec fn picked(pending: Seq<PendingTemplate>, flag: bool) -> Seq<PendingTemplate>
    decreases pending.len(),
{
    if pending.len() == 0 {
        pending
    } else if pending.last().has_extends == flag {
        picked(pending.drop_last(), flag).push(pending.last())
    } else {
        picked(pending.drop_last(), flag)
    }
}

/// The order of registration: the templates without an inheritance
/// directive first, then those with one, each group in the order in which
/// it came.
pub open spec fn registration_order(pending: Seq<PendingTemplate>) -> Seq<PendingTemplate> {
    picked(pending, false) + picked(pending, true)
}

fn pick(pending: &Vec<PendingTemplate>, flag: bool, out: &mut Vec<PendingTemplate>)
    ensures
        final(out)@ == old(out)@ + picked(pending@, flag),
{
    let ghost start = out@;
    let mut i: usize = 0;
    proof {
        assert(pending@.take(0) =~= Seq::<PendingTemplate>::empty());
        assert(out@ =~= start + picked(pending@.take(0), flag));
    }
    while i < pending.len()
        invariant
            i <= pending.len(),
            out@ == start + picked(pending@.take(i as int), flag),
        decreases pending.len() - i,
    {
        let t = &pending[i];
        proof {
            assert(pending@.take(i + 1).drop_last() =~= pending@.take(i as int));
            assert(pending@.take(i + 1).last() == *t);
        }
        if t.has_extends == flag {
            let copy = PendingTemplate {
                name: t.name.clone(),
                content: t.content.clone(),
                has_extends: t.has_extends,
            };
            assert(copy == *t);
            out.push(copy);
            proof {
                assert(out@ =~= start + picked(pending@.take(i + 1), flag));
            }
        }
        i += 1;
    }
    proof {
        assert(pending@.take(pending.len() as int) =~= pending@);
    }
}

/// Puts `pending` into the order of registration.
pub fn order_for_registration(pending: &Vec<PendingTemplate>) -> (out: Vec<PendingTemplate>)
    ensures
        out@ == registration_order(pending@),
{
    let mut out: Vec<PendingTemplate> = Vec::new();
    pick(pending, false, &mut out);
    pick(pending, true, &mut out);
    out
}

/// The place of the first of the first `upto` templates that the engine
/// refuses.
pub open spec fn first_refused(order: Seq<PendingTemplate>, upto: int) -> Option<int>
    decreases upto,
{
    if upto <= 0 {
        None
    } else {
        match first_refused(order, upto - 1) {
            Some(k) => Some(k),
            None => if template_accepted(order[upto - 1].name@, order[upto - 1].content@) {
                None
            } else {
                Some(upto - 1)
            },
        }
    }
}

/// `templates` with the first `upto` of `order` registered on top, a later
/// one over an earlier one of the same name.
pub open spec fn registered_with(
    templates: Map<Seq<char>, Seq<char>>,
    order: Seq<PendingTemplate>,
    upto: int,
) -> Map<Seq<char>, Seq<char>>
    decreases upto,
{
    if upto <= 0 {
        templates
    } else {
        registered_with(templates, order, upto - 1).insert(
            order[upto - 1].name@,
            order[upto - 1].content@,
        )
    }
}

proof fn lemma_first_refused_at(order: Seq<PendingTemplate>, k: int, upto: int)
    requires
        0 <= k < upto <= order.len(),
        first_refused(order, k) is None,
        !template_accepted(order[k].name@, order[k].content@),
    ensures
        first_refused(order, upto) == Some(k),
    decreases upto,
{
    if upto > k + 1 {
        lemma_first_refused_at(order, k, upto - 1);
    }
}

/// Registers the templates of `order` with the engine, one after the other,
/// and stops at the first that the engine refuses.
pub fn register_all(engine: &mut Engine, order: &Vec<PendingTemplate>) -> (r: Result<
    (),
    RunError,
>)
    ensures
        strict(*final(engine)) == strict(*old(engine)),
        match r {
            Ok(()) => first_refused(order@, order@.len() as int) is None && registered(
                *final(engine),
            ) == registered_with(registered(*old(engine)), order@, order@.len() as int),
            Err(e) => exists|k: int|
                {
                    &&& first_refused(order@, order@.len() as int) == Some(k)
                    &&& e == RunError::TemplateRefused { index: k as usize }
                    &&& #[trigger] registered_with(registered(*old(engine)), order@, k)
                        == registered(*final(engine))
                },
        },
{
    let ghost start = registered(*engine);
    let ghost was_strict = strict(*engine);
    let mut i: usize = 0;
    while i < order.len()
        invariant
            i <= order.len(),
            strict(*engine) == was_strict,
            was_strict == strict(*old(engine)),
            start == registered(*old(engine)),
            first_refused(order@, i as int) is None,
            registered(*engine) == registered_with(start, order@, i as int),
        decreases order.len() - i,
    {
        let t = &order[i];
        let ok = add_template(engine, t.name.clone(), t.content.clone());
        if !ok {
            proof {
                lemma_first_refused_at(order@, i as int, order@.len() as int);
                assert(registered_with(start, order@, i as int) == registered(*engine));
            }
            return Err(RunError::TemplateRefused { index: i });
        }
        i += 1;
    }
    Ok(())
}

} // verus!
