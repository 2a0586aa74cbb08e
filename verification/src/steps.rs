//! The steps of the materializer: what each piece of news does to the
//! machine, and what the machine asks for in return.

use crate::error::RunError;
use crate::filter::compiles_to;
use crate::guard::{lies_under, resolved, safe_resolve_under_canon, PathFacts};
use crate::manifest::{prefill, prefilled, Manifest};
use crate::paths::Platform;
use crate::materializer::{
    find_rendered, find_unsafe, first_unsafe, hook_jobs, item_job, jobs_of_hook,
    jobs_of_staging, next_rendered, promote_jobs, render_jobs, stage_of, Action, Area,
    HookResult, HookStage, Job, Materializer, Payload, Phase, Section, Stage, StagedEntry,
};
use crate::registry::{
    extends_another, find_main_dir, first_refused, hook_directory, hook_project_dir,
    is_main_dir, item_views, order_for_registration, path_views, pending_template, plan,
    planned, project_slug, register_all, registered_with, registration_order, render_bindings,
    PendingTemplate, TemplateItem,
};
use crate::render::{make_strict, new_environment, registered, render_template, strict};
use crate::resolver::{resolve_defaults, resolved_bindings, text_of, Store};
use crate::text::string_views;
use crate::values::{merge_bindings, Bindings, ScalarView};
use vstd::prelude::*;
use vstd::string::StrSliceExecFns;
use vstd::utf8::encode_utf8;

verus! {

/// A piece of news for the machine.
pub enum Event {
    /// The run is to begin.
    Begin,
    /// A hook has run, well or not.
    HookDone(Option<HookResult>),
    /// The user has settled the bindings.
    Collected(Bindings),
    /// The area exists, and this is its canonical root; or it could not be
    /// made.
    Opened(Option<Vec<String>>),
    /// The directories at the root of the template, and the files of the
    /// whole template, each by its path relative to the template root.
    Listed { dirs: Vec<String>, files: Vec<Vec<String>> },
    /// The text of a template file, or that it could not be read as text.
    TextRead(Option<String>),
    /// What lies on the way to a target.
    Probed(PathFacts),
    /// The bytes of a template file, or that they could not be read.
    BytesRead(Option<Vec<u8>>),
    /// A job was carried out, or could not be.
    Done(bool),
    /// The directories and files of the staging area.
    Surveyed(Vec<StagedEntry>),
}

/// The run is given up because of `e`: nothing else changes, and the caller
/// is told to finish.
pub open spec fn gives_up(pre: Materializer, post: Materializer, action: Action, e: RunError) -> bool {
    &&& post == (Materializer { phase: Phase::Finished, error: Some(e), ..pre })
    &&& action == (Action::Finish { error: Some(e) })
}

/// The run is over already: nothing changes, and the caller is told again
/// to finish.
pub open spec fn stays(pre: Materializer, post: Materializer, action: Action) -> bool {
    &&& post == pre
    &&& action == (Action::Finish { error: pre.error })
}

/// The machine turns to the job at the cursor, or, when no job is left, to
/// what follows its section: the listing of the template after the files of
/// the first hook, the second hook after the files of the template, the
/// opening of the destination after the files of the second hook, and the
/// end of the run after the promotion.
pub open spec fn goes_on(mid: Materializer, post: Materializer, action: Action) -> bool {
    if mid.cursor < mid.jobs@.len() {
        &&& post == (Materializer { phase: Phase::Probing, ..mid })
        &&& action == (Action::Probe { job: mid.cursor })
    } else {
        match mid.section {
            Section::PreGen => {
                &&& post == (Materializer { phase: Phase::Listing, ..mid })
                &&& action == Action::ListTemplate
            },
            Section::Render => {
                &&& post == (Materializer { phase: Phase::Hook(HookStage::PostGen), ..mid })
                &&& action == (Action::RunHook { stage: HookStage::PostGen })
            },
            Section::PostGen => {
                &&& post == (Materializer {
                    phase: Phase::Opening,
                    section: Section::Promote,
                    area: Area::Destination,
                    ..mid
                })
                &&& action == (Action::Open { area: Area::Destination })
            },
            Section::Promote => {
                &&& post == (Materializer { phase: Phase::Finished, error: None, ..mid })
                &&& action == (Action::Finish { error: None })
            },
        }
    }
}

/// The jobs are those of the items, one for one.
pub open spec fn jobs_of_items(jobs: Seq<Job>, items: Seq<TemplateItem>) -> bool {
    &&& jobs.len() == items.len()
    &&& forall|i: int| 0 <= i < items.len() ==> (#[trigger] jobs[i])@ == item_job(items[i]@)
}

/// The machine asks for the text of the item at the cursor, or, when no
/// item is left to read, registers what was read, in the order of
/// registration, with an engine that holds `templates` so far, and turns to
/// the staging area; the first template that the engine refuses ends the
/// run.
pub open spec fn reads_on(
    mid: Materializer,
    templates: Map<Seq<char>, Seq<char>>,
    strictness: bool,
    post: Materializer,
    action: Action,
) -> bool {
    &&& strict(post.engine) == strictness
    &&& if mid.cursor < mid.items@.len() {
        &&& post == (Materializer { phase: Phase::Reading, engine: post.engine, ..mid })
        &&& registered(post.engine) == templates
        &&& action == (Action::ReadText { item: mid.cursor })
    } else {
        let order = registration_order(mid.pending@);
        match first_refused(order, order.len() as int) {
            Some(k) => {
                let e = RunError::TemplateRefused { index: k as usize };
                &&& post == (Materializer {
                    phase: Phase::Finished,
                    error: Some(e),
                    engine: post.engine,
                    ..mid
                })
                &&& registered(post.engine) == registered_with(templates, order, k)
                &&& action == (Action::Finish { error: Some(e) })
            },
            None => {
                &&& post == (Materializer {
                    phase: Phase::Opening,
                    section: Section::Render,
                    area: Area::Staging,
                    jobs: post.jobs,
                    cursor: 0,
                    engine: post.engine,
                    ..mid
                })
                &&& registered(post.engine) == registered_with(
                    templates,
                    order,
                    order.len() as int,
                )
                &&& jobs_of_items(post.jobs@, mid.items@)
                &&& action == (Action::Open { area: Area::Staging })
            },
        }
    }
}

/// What beginning does: every default is bound as it is written, and the
/// first hook is asked for.
pub open spec fn begin_spec(pre: Materializer, post: Materializer, action: Action) -> bool {
    match pre.phase {
        Phase::Finished => stays(pre, post, action),
        Phase::Init => {
            &&& post == (Materializer {
                phase: Phase::Hook(HookStage::PrePrompt),
                bindings: post.bindings,
                ..pre
            })
            &&& post.bindings@ == prefilled(pre.variables@)
            &&& action == (Action::RunHook { stage: HookStage::PrePrompt })
        },
        _ => gives_up(pre, post, action, RunError::OutOfTurn),
    }
}

/// The bindings with the updates of a hook put on top.
pub open spec fn updated(b: Store, updates: Option<Bindings>) -> Store {
    match updates {
        Some(u) => b.union_prefer_right(u@),
        None => b,
    }
}

/// What the result of a hook does. A failed hook ends the run. The first
/// hook may update the bindings; the defaults are then resolved on top, and
/// the user is asked. The other two hooks may ask for files: each must be
/// named by a safe relative path, and becomes a job under the project
/// directory.
pub open spec fn hook_done_spec(
    pre: Materializer,
    result: Option<HookResult>,
    post: Materializer,
    action: Action,
) -> bool {
    match pre.phase {
        Phase::Finished => stays(pre, post, action),
        Phase::Hook(stage) => match result {
            None => gives_up(pre, post, action, RunError::HookFailed),
            Some(res) => match stage {
                HookStage::PrePrompt => {
                    &&& post == (Materializer {
                        phase: Phase::Input,
                        bindings: post.bindings,
                        ..pre
                    })
                    &&& post.bindings@ == resolved_bindings(
                        pre.variables@,
                        updated(pre.bindings@, res.updated_vars),
                    )
                    &&& action == Action::Collect
                },
                _ => match first_unsafe(
                    res.created_files@,
                    pre.platform,
                    res.created_files@.len() as int,
                ) {
                    Some(k) => gives_up(
                        pre,
                        post,
                        action,
                        RunError::UnsafeHookPath { file: k as usize },
                    ),
                    None => {
                        &&& post == (Materializer {
                            phase: Phase::Opening,
                            section: if stage == HookStage::PreGen {
                                Section::PreGen
                            } else {
                                Section::PostGen
                            },
                            area: Area::Project,
                            directory: post.directory,
                            jobs: post.jobs,
                            cursor: 0,
                            ..pre
                        })
                        &&& post.directory@ == hook_directory(pre.bindings@)
                        &&& post.jobs@ == hook_jobs(res.created_files@)
                        &&& action == (Action::Open { area: Area::Project })
                    },
                },
            },
        },
        _ => gives_up(pre, post, action, RunError::OutOfTurn),
    }
}

/// What the user's bindings do: they take the place of the machine's, and
/// the hook before generation is asked for.
pub open spec fn collected_spec(
    pre: Materializer,
    bindings: Bindings,
    post: Materializer,
    action: Action,
) -> bool {
    match pre.phase {
        Phase::Finished => stays(pre, post, action),
        Phase::Input => {
            &&& post == (Materializer {
                phase: Phase::Hook(HookStage::PreGen),
                bindings: bindings,
                ..pre
            })
            &&& action == (Action::RunHook { stage: HookStage::PreGen })
        },
        _ => gives_up(pre, post, action, RunError::OutOfTurn),
    }
}

/// What the opening of an area does: its canonical root becomes the root
/// that the guard holds targets against. The destination is then surveyed
/// for; in the other areas the machine turns to its jobs.
pub open spec fn opened_spec(
    pre: Materializer,
    root: Option<Vec<String>>,
    post: Materializer,
    action: Action,
) -> bool {
    match pre.phase {
        Phase::Finished => stays(pre, post, action),
        Phase::Opening => match root {
            None => gives_up(pre, post, action, RunError::Failed),
            Some(r) => if pre.section == Section::Promote {
                &&& post == (Materializer { phase: Phase::Surveying, root: r, ..pre })
                &&& action == Action::ListStaging
            } else {
                goes_on(Materializer { root: r, ..pre }, post, action)
            },
        },
        _ => gives_up(pre, post, action, RunError::OutOfTurn),
    }
}

/// `main` is the one name among `names` that stands for the project.
pub open spec fn sole_main_dir(names: Seq<Seq<char>>, main: Seq<char>) -> bool {
    exists|i: int|
        {
            &&& 0 <= i < names.len()
            &&& #[trigger] names[i] == main
            &&& is_main_dir(names[i])
            &&& forall|j: int| 0 <= j < names.len() && j != i ==> !is_main_dir(names[j])
        }
}

/// What the listing does once the project directory is known to be `main`:
/// the files are planned against the bindings with the normalized slug, and
/// the machine starts to read the items that are rendered, with a fresh and
/// strict engine.
pub open spec fn listed_with(
    pre: Materializer,
    main: Seq<char>,
    files: Seq<Vec<String>>,
    post: Materializer,
    action: Action,
) -> bool {
    let context = pre.bindings@.insert("project_slug"@, ScalarView::Str(project_slug(pre.bindings@)));
    match planned(path_views(files), main, context, pre.filter@, pre.platform) {
        Err(e) => gives_up(pre, post, action, e),
        Ok(items) => {
            &&& post.context@ == context
            &&& item_views(post.items@) == items
            &&& post.pending@.len() == 0
            &&& reads_on(
                Materializer {
                    context: post.context,
                    items: post.items,
                    pending: post.pending,
                    cursor: next_rendered(post.items@, 0) as usize,
                    ..pre
                },
                Map::empty(),
                true,
                post,
                action,
            )
        },
    }
}

/// What the listing of the template does. The project slug must not be
/// empty, and exactly one directory at the root must stand for the project.
pub open spec fn listed_spec(
    pre: Materializer,
    dirs: Vec<String>,
    files: Vec<Vec<String>>,
    post: Materializer,
    action: Action,
) -> bool {
    let names = string_views(dirs@);
    match pre.phase {
        Phase::Finished => stays(pre, post, action),
        Phase::Listing => if project_slug(pre.bindings@).len() == 0 {
            gives_up(pre, post, action, RunError::EmptySlug)
        } else if forall|j: int| 0 <= j < names.len() ==> !is_main_dir(names[j]) {
            gives_up(pre, post, action, RunError::NoMainDirectory)
        } else if exists|i: int, j: int|
            0 <= i < j < names.len() && is_main_dir(#[trigger] names[i]) && is_main_dir(
                #[trigger] names[j],
            ) {
            gives_up(pre, post, action, RunError::SeveralMainDirectories)
        } else {
            exists|main: Seq<char>|
                sole_main_dir(names, main) && #[trigger] listed_with(
                    pre,
                    main,
                    files@,
                    post,
                    action,
                )
        },
        _ => gives_up(pre, post, action, RunError::OutOfTurn),
    }
}

/// What the text of an item does: it is kept for registration under the
/// name of the item, and the machine reads on.
pub open spec fn text_read_spec(
    pre: Materializer,
    text: Option<String>,
    post: Materializer,
    action: Action,
) -> bool {
    match pre.phase {
        Phase::Finished => stays(pre, post, action),
        Phase::Reading => if pre.cursor >= pre.items@.len() {
            gives_up(pre, post, action, RunError::OutOfTurn)
        } else {
            match text {
                None => gives_up(
                    pre,
                    post,
                    action,
                    RunError::TemplateUnreadable { item: pre.cursor },
                ),
                Some(content) => {
                    &&& post.pending@ == pre.pending@.push(
                        PendingTemplate {
                            name: pre.items@[pre.cursor as int].name,
                            content: content,
                            has_extends: extends_another(content@),
                        },
                    )
                    &&& reads_on(
                        Materializer {
                            pending: post.pending,
                            cursor: next_rendered(pre.items@, pre.cursor + 1) as usize,
                            ..pre
                        },
                        registered(pre.engine),
                        strict(pre.engine),
                        post,
                        action,
                    )
                },
            }
        },
        _ => gives_up(pre, post, action, RunError::OutOfTurn),
    }
}

/// What rendering gave for the job `job`: the bytes of the text, or the
/// failure of that job.
pub open spec fn render_outcome_of(job: usize, text: Option<Seq<char>>) -> Result<
    Seq<u8>,
    RunError,
> {
    match text {
        Some(t) => Ok(encode_utf8(t)),
        None => Err(RunError::RenderFailed { job }),
    }
}

/// What is to be written for the job `job`, given what the engine made of
/// its template: the text in UTF-8, or the failure of the job where the
/// engine gave none.
pub fn render_outcome(job: usize, text: Option<String>) -> (r: Result<Vec<u8>, RunError>)
    ensures
        match r {
            Ok(bytes) => render_outcome_of(job, text_of(text)) == Ok::<Seq<u8>, RunError>(bytes@),
            Err(e) => render_outcome_of(job, text_of(text)) == Err::<Seq<u8>, RunError>(e),
        },
{
    match text {
        Some(t) => Ok(t.as_str().as_bytes_vec()),
        None => Err(RunError::RenderFailed { job }),
    }
}

/// What the findings on the way to a target do. The guard decides: a
/// refusal ends the run. Otherwise the target is fixed, and the job is
/// carried out: a text is written, the bytes of a template file are asked
/// for, a staged file is copied, or a directory is made. A template is
/// rendered, and what the engine makes of it decides, as [`render_outcome`]
/// says: its text is written, or the run ends with the failure of the job.
pub open spec fn probed_spec(
    pre: Materializer,
    facts: PathFacts,
    post: Materializer,
    action: Action,
) -> bool {
    match pre.phase {
        Phase::Finished => stays(pre, post, action),
        Phase::Probing => if pre.cursor >= pre.jobs@.len() {
            gives_up(pre, post, action, RunError::OutOfTurn)
        } else {
            let job = pre.jobs@[pre.cursor as int];
            match resolved(string_views(pre.root@), job.rel@, facts, pre.platform) {
                Err(e) => gives_up(
                    pre,
                    post,
                    action,
                    RunError::Unsafe { job: pre.cursor, reason: e },
                ),
                Ok(path) => match job.payload {
                    Payload::Text(text) => {
                        &&& post == (Materializer {
                            phase: Phase::Writing,
                            target: post.target,
                            output: post.output,
                            ..pre
                        })
                        &&& string_views(post.target@) == path
                        &&& post.output@ == encode_utf8(text@)
                        &&& action == Action::Write
                    },
                    Payload::Render(_) => {
                        let e = RunError::RenderFailed { job: pre.cursor };
                        &&& string_views(post.target@) == path
                        &&& {
                            ||| {
                                &&& post == (Materializer {
                                    phase: Phase::Finished,
                                    error: Some(e),
                                    target: post.target,
                                    ..pre
                                })
                                &&& action == (Action::Finish { error: Some(e) })
                            }
                            ||| {
                                &&& post == (Materializer {
                                    phase: Phase::Writing,
                                    target: post.target,
                                    output: post.output,
                                    ..pre
                                })
                                &&& action == Action::Write
                            }
                        }
                    },
                    Payload::CopyTemplate(_) => {
                        &&& post == (Materializer {
                            phase: Phase::Fetching,
                            target: post.target,
                            ..pre
                        })
                        &&& string_views(post.target@) == path
                        &&& action == (Action::ReadBytes { job: pre.cursor })
                    },
                    Payload::CopyStaged => {
                        &&& post == (Materializer {
                            phase: Phase::Writing,
                            target: post.target,
                            ..pre
                        })
                        &&& string_views(post.target@) == path
                        &&& action == (Action::CopyStaged { job: pre.cursor })
                    },
                    Payload::Directory => {
                        &&& post == (Materializer {
                            phase: Phase::Writing,
                            target: post.target,
                            ..pre
                        })
                        &&& string_views(post.target@) == path
                        &&& action == Action::MakeDirectory
                    },
                },
            }
        },
        _ => gives_up(pre, post, action, RunError::OutOfTurn),
    }
}

/// What the bytes of a template file do: they are what is written, as they
/// are.
pub open spec fn bytes_read_spec(
    pre: Materializer,
    bytes: Option<Vec<u8>>,
    post: Materializer,
    action: Action,
) -> bool {
    match pre.phase {
        Phase::Finished => stays(pre, post, action),
        Phase::Fetching => match bytes {
            None => gives_up(pre, post, action, RunError::Failed),
            Some(b) => {
                &&& post == (Materializer { phase: Phase::Writing, output: b, ..pre })
                &&& action == Action::Write
            },
        },
        _ => gives_up(pre, post, action, RunError::OutOfTurn),
    }
}

/// What the end of a job does: a failure ends the run; otherwise the cursor
/// moves on.
pub open spec fn done_spec(pre: Materializer, ok: bool, post: Materializer, action: Action) -> bool {
    match pre.phase {
        Phase::Finished => stays(pre, post, action),
        Phase::Writing => if pre.cursor >= pre.jobs@.len() {
            gives_up(pre, post, action, RunError::OutOfTurn)
        } else if !ok {
            gives_up(pre, post, action, RunError::Failed)
        } else {
            goes_on(Materializer { cursor: (pre.cursor + 1) as usize, ..pre }, post, action)
        },
        _ => gives_up(pre, post, action, RunError::OutOfTurn),
    }
}

/// What the survey of the staging area does: each entry becomes a job for
/// the destination.
pub open spec fn surveyed_spec(
    pre: Materializer,
    entries: Vec<StagedEntry>,
    post: Materializer,
    action: Action,
) -> bool {
    match pre.phase {
        Phase::Finished => stays(pre, post, action),
        Phase::Surveying => {
            &&& post.jobs@ == promote_jobs(entries@)
            &&& goes_on(Materializer { jobs: post.jobs, cursor: 0, ..pre }, post, action)
        },
        _ => gives_up(pre, post, action, RunError::OutOfTurn),
    }
}

/// What a piece of news does.
pub open spec fn step_spec(pre: Materializer, event: Event, post: Materializer, action: Action) -> bool {
    match event {
        Event::Begin => begin_spec(pre, post, action),
        Event::HookDone(result) => hook_done_spec(pre, result, post, action),
        Event::Collected(bindings) => collected_spec(pre, bindings, post, action),
        Event::Opened(root) => opened_spec(pre, root, post, action),
        Event::Listed { dirs, files } => listed_spec(pre, dirs, files, post, action),
        Event::TextRead(text) => text_read_spec(pre, text, post, action),
        Event::Probed(facts) => probed_spec(pre, facts, post, action),
        Event::BytesRead(bytes) => bytes_read_spec(pre, bytes, post, action),
        Event::Done(ok) => done_spec(pre, ok, post, action),
        Event::Surveyed(entries) => surveyed_spec(pre, entries, post, action),
    }
}

impl Materializer {
    /// The stage that the run is in.
    pub open spec fn stage(&self) -> Stage {
        stage_of(self.phase, self.section, self.error)
    }

    /// What holds of every machine that was made by [`Materializer::new`]
    /// and moved by its steps alone: the destination is the area of the
    /// promotion only, and while a job is carried out its target is what
    /// the guard accepted.
    pub open spec fn well_formed(&self) -> bool {
        &&& self.phase == Phase::Surveying ==> self.section == Section::Promote
        &&& self.area == Area::Destination ==> self.section == Section::Promote
        &&& (self.phase == Phase::Fetching || self.phase == Phase::Writing) ==> {
            &&& self.cursor < self.jobs@.len()
            &&& lies_under(
                string_views(self.root@),
                self.jobs@[self.cursor as int].rel@,
                string_views(self.target@),
                self.platform,
            )
        }
    }

    /// A machine for one run of the template that `manifest` describes. A
    /// copy pattern that is refused is reported here, before anything is
    /// done.
    pub fn new(manifest: Manifest, platform: Platform) -> (r: Result<Materializer, RunError>)
        ensures
            match r {
                Ok(m) => {
                    &&& compiles_to(manifest.copy_without_render@, Ok(m.filter))
                    &&& m.phase == Phase::Init
                    &&& m.error is None
                    &&& m.platform == platform
                    &&& m.variables == manifest.variables
                    &&& m.section == Section::PreGen
                    &&& m.area == Area::Project
                    &&& m.well_formed()
                },
                Err(e) => match e {
                    RunError::Pattern(p) => compiles_to(manifest.copy_without_render@, Err(p)),
                    _ => false,
                },
            },
    {
        let filter = match manifest.compile_copy_filter() {
            Ok(f) => f,
            Err(p) => {
                return Err(RunError::Pattern(p));
            },
        };
        let mut engine = new_environment();
        make_strict(&mut engine);
        Ok(
            Materializer {
                phase: Phase::Init,
                section: Section::PreGen,
                area: Area::Project,
                error: None,
                platform,
                variables: manifest.variables,
                filter,
                bindings: Bindings::new(),
                context: Bindings::new(),
                engine,
                directory: String::new(),
                root: Vec::new(),
                jobs: Vec::new(),
                cursor: 0,
                items: Vec::new(),
                pending: Vec::new(),
                target: Vec::new(),
                output: Vec::new(),
            },
        )
    }

    fn give_up(&mut self, e: RunError) -> (action: Action)
        ensures
            gives_up(*old(self), *final(self), action, e),
    {
        self.phase = Phase::Finished;
        self.error = Some(e);
        Action::Finish { error: Some(e) }
    }

    fn go_on(&mut self) -> (action: Action)
        ensures
            goes_on(*old(self), *final(self), action),
    {
        if self.cursor < self.jobs.len() {
            self.phase = Phase::Probing;
            Action::Probe { job: self.cursor }
        } else {
            match self.section {
                Section::PreGen => {
                    self.phase = Phase::Listing;
                    Action::ListTemplate
                },
                Section::Render => {
                    self.phase = Phase::Hook(HookStage::PostGen);
                    Action::RunHook { stage: HookStage::PostGen }
                },
                Section::PostGen => {
                    self.phase = Phase::Opening;
                    self.section = Section::Promote;
                    self.area = Area::Destination;
                    Action::Open { area: Area::Destination }
                },
                Section::Promote => {
                    self.phase = Phase::Finished;
                    self.error = None;
                    Action::Finish { error: None }
                },
            }
        }
    }

    fn read_on(&mut self) -> (action: Action)
        ensures
            reads_on(
                *old(self),
                registered(old(self).engine),
                strict(old(self).engine),
                *final(self),
                action,
            ),
    {
        if self.cursor < self.items.len() {
            self.phase = Phase::Reading;
            return Action::ReadText { item: self.cursor };
        }
        let order = order_for_registration(&self.pending);
        match register_all(&mut self.engine, &order) {
            Err(e) => {
                self.phase = Phase::Finished;
                self.error = Some(e);
                Action::Finish { error: Some(e) }
            },
            Ok(()) => {
                self.jobs = render_jobs(&self.items);
                self.cursor = 0;
                self.section = Section::Render;
                self.area = Area::Staging;
                self.phase = Phase::Opening;
                Action::Open { area: Area::Staging }
            },
        }
    }

    /// Begins the run.
    pub fn begin(&mut self) -> (action: Action)
        ensures
            begin_spec(*old(self), *final(self), action),
    {
        match self.phase {
            Phase::Finished => Action::Finish { error: self.error },
            Phase::Init => {
                self.bindings = prefill(&self.variables);
                self.phase = Phase::Hook(HookStage::PrePrompt);
                Action::RunHook { stage: HookStage::PrePrompt }
            },
            _ => self.give_up(RunError::OutOfTurn),
        }
    }

    /// Takes the result of the hook that was asked for; `None` says that the
    /// hook failed.
    pub fn hook_done(&mut self, result: Option<HookResult>) -> (action: Action)
        ensures
            hook_done_spec(*old(self), result, *final(self), action),
    {
        let stage = match self.phase {
            Phase::Finished => {
                return Action::Finish { error: self.error };
            },
            Phase::Hook(stage) => stage,
            _ => {
                return self.give_up(RunError::OutOfTurn);
            },
        };
        let res = match result {
            None => {
                return self.give_up(RunError::HookFailed);
            },
            Some(res) => res,
        };
        match stage {
            HookStage::PrePrompt => {
                match &res.updated_vars {
                    Some(u) => {
                        merge_bindings(&mut self.bindings, u);
                    },
                    None => {},
                }
                self.bindings = resolve_defaults(&self.variables, &self.bindings);
                self.phase = Phase::Input;
                Action::Collect
            },
            _ => {
                match find_unsafe(&res.created_files, self.platform) {
                    Some(k) => {
                        return self.give_up(RunError::UnsafeHookPath { file: k });
                    },
                    None => {},
                }
                self.directory = hook_project_dir(&self.bindings);
                self.jobs = jobs_of_hook(res.created_files);
                self.cursor = 0;
                self.section = match stage {
                    HookStage::PreGen => Section::PreGen,
                    _ => Section::PostGen,
                };
                self.area = Area::Project;
                self.phase = Phase::Opening;
                Action::Open { area: Area::Project }
            },
        }
    }

    /// Takes the bindings that the user settled on.
    pub fn collected(&mut self, bindings: Bindings) -> (action: Action)
        ensures
            collected_spec(*old(self), bindings, *final(self), action),
    {
        match self.phase {
            Phase::Finished => Action::Finish { error: self.error },
            Phase::Input => {
                self.bindings = bindings;
                self.phase = Phase::Hook(HookStage::PreGen);
                Action::RunHook { stage: HookStage::PreGen }
            },
            _ => self.give_up(RunError::OutOfTurn),
        }
    }

    /// Takes the canonical root of the area that was to be opened; `None`
    /// says that the area could not be made.
    pub fn opened(&mut self, root: Option<Vec<String>>) -> (action: Action)
        ensures
            opened_spec(*old(self), root, *final(self), action),
    {
        match self.phase {
            Phase::Finished => {
                return Action::Finish { error: self.error };
            },
            Phase::Opening => {},
            _ => {
                return self.give_up(RunError::OutOfTurn);
            },
        }
        match root {
            None => self.give_up(RunError::Failed),
            Some(r) => {
                self.root = r;
                match self.section {
                    Section::Promote => {
                        self.phase = Phase::Surveying;
                        Action::ListStaging
                    },
                    _ => self.go_on(),
                }
            },
        }
    }

    /// Takes the directories at the root of the template and the files of
    /// the whole template.
    pub fn listed(&mut self, dirs: Vec<String>, files: Vec<Vec<String>>) -> (action: Action)
        ensures
            listed_spec(*old(self), dirs, files, *final(self), action),
    {
        match self.phase {
            Phase::Finished => {
                return Action::Finish { error: self.error };
            },
            Phase::Listing => {},
            _ => {
                return self.give_up(RunError::OutOfTurn);
            },
        }
        let ghost names = string_views(dirs@);
        let context = match render_bindings(&self.bindings) {
            Ok(c) => c,
            Err(e) => {
                return self.give_up(e);
            },
        };
        let main = match find_main_dir(&dirs) {
            Ok(m) => m,
            Err(e) => {
                return self.give_up(e);
            },
        };
        proof {
            assert(sole_main_dir(names, main@));
        }
        let mut engine = new_environment();
        make_strict(&mut engine);
        let items = match plan(
            &engine,
            &files,
            main.as_str(),
            &context,
            &self.filter,
            self.platform,
        ) {
            Ok(items) => items,
            Err(e) => {
                let action = self.give_up(e);
                proof {
                    assert(listed_with(*old(self), main@, files@, *self, action));
                }
                return action;
            },
        };
        self.context = context;
        self.engine = engine;
        self.items = items;
        self.pending = Vec::new();
        self.cursor = find_rendered(&self.items, 0);
        let ghost mid = *self;
        let action = self.read_on();
        proof {
            assert(listed_with(*old(self), main@, files@, *self, action));
        }
        action
    }

    /// Takes the text of the item that was to be read; `None` says that it
    /// could not be read as text.
    pub fn text_read(&mut self, text: Option<String>) -> (action: Action)
        ensures
            text_read_spec(*old(self), text, *final(self), action),
    {
        match self.phase {
            Phase::Finished => {
                return Action::Finish { error: self.error };
            },
            Phase::Reading => {},
            _ => {
                return self.give_up(RunError::OutOfTurn);
            },
        }
        if self.cursor >= self.items.len() {
            return self.give_up(RunError::OutOfTurn);
        }
        let content = match text {
            None => {
                return self.give_up(RunError::TemplateUnreadable { item: self.cursor });
            },
            Some(content) => content,
        };
        let name = self.items[self.cursor].name.clone();
        self.pending.push(pending_template(name, content));
        self.cursor = find_rendered(&self.items, self.cursor + 1);
        self.read_on()
    }

    /// Takes what was found on the way to the target of the job at the
    /// cursor.
    pub fn probed(&mut self, facts: PathFacts) -> (action: Action)
        ensures
            probed_spec(*old(self), facts, *final(self), action),
    {
        match self.phase {
            Phase::Finished => {
                return Action::Finish { error: self.error };
            },
            Phase::Probing => {},
            _ => {
                return self.give_up(RunError::OutOfTurn);
            },
        }
        if self.cursor >= self.jobs.len() {
            return self.give_up(RunError::OutOfTurn);
        }
        let job = &self.jobs[self.cursor];
        let path = match safe_resolve_under_canon(&self.root, &job.rel, &facts, self.platform) {
            Ok(path) => path,
            Err(e) => {
                return self.give_up(RunError::Unsafe { job: self.cursor, reason: e });
            },
        };
        match &job.payload {
            Payload::Text(text) => {
                let bytes = text.as_str().as_bytes_vec();
                self.target = path;
                self.output = bytes;
                self.phase = Phase::Writing;
                Action::Write
            },
            Payload::Render(name) => {
                let context = self.context.distinct();
                let text = render_template(&self.engine, name.as_str(), &context);
                match render_outcome(self.cursor, text) {
                    Err(e) => {
                        self.target = path;
                        self.phase = Phase::Finished;
                        self.error = Some(e);
                        Action::Finish { error: Some(e) }
                    },
                    Ok(bytes) => {
                        self.target = path;
                        self.output = bytes;
                        self.phase = Phase::Writing;
                        Action::Write
                    },
                }
            },
            Payload::CopyTemplate(_) => {
                self.target = path;
                self.phase = Phase::Fetching;
                Action::ReadBytes { job: self.cursor }
            },
            Payload::CopyStaged => {
                self.target = path;
                self.phase = Phase::Writing;
                Action::CopyStaged { job: self.cursor }
            },
            Payload::Directory => {
                self.target = path;
                self.phase = Phase::Writing;
                Action::MakeDirectory
            },
        }
    }

    /// Takes the bytes of the template file that was to be read; `None`
    /// says that they could not be read.
    pub fn bytes_read(&mut self, bytes: Option<Vec<u8>>) -> (action: Action)
        ensures
            bytes_read_spec(*old(self), bytes, *final(self), action),
    {
        match self.phase {
            Phase::Finished => {
                return Action::Finish { error: self.error };
            },
            Phase::Fetching => {},
            _ => {
                return self.give_up(RunError::OutOfTurn);
            },
        }
        match bytes {
            None => self.give_up(RunError::Failed),
            Some(b) => {
                self.output = b;
                self.phase = Phase::Writing;
                Action::Write
            },
        }
    }

    /// Takes word that the job at the cursor was carried out, or could not
    /// be.
    pub fn done(&mut self, ok: bool) -> (action: Action)
        ensures
            done_spec(*old(self), ok, *final(self), action),
    {
        match self.phase {
            Phase::Finished => {
                return Action::Finish { error: self.error };
            },
            Phase::Writing => {},
            _ => {
                return self.give_up(RunError::OutOfTurn);
            },
        }
        if self.cursor >= self.jobs.len() {
            return self.give_up(RunError::OutOfTurn);
        }
        if !ok {
            return self.give_up(RunError::Failed);
        }
        self.cursor = self.cursor + 1;
        self.go_on()
    }

    /// Takes the directories and files of the staging area.
    pub fn surveyed(&mut self, entries: Vec<StagedEntry>) -> (action: Action)
        ensures
            surveyed_spec(*old(self), entries, *final(self), action),
    {
        match self.phase {
            Phase::Finished => {
                return Action::Finish { error: self.error };
            },
            Phase::Surveying => {},
            _ => {
                return self.give_up(RunError::OutOfTurn);
            },
        }
        self.jobs = jobs_of_staging(entries);
        self.cursor = 0;
        self.go_on()
    }

    /// Takes a piece of news and says what is to be done next.
    pub fn step(&mut self, event: Event) -> (action: Action)
        ensures
            step_spec(*old(self), event, *final(self), action),
    {
        match event {
            Event::Begin => self.begin(),
            Event::HookDone(result) => self.hook_done(result),
            Event::Collected(bindings) => self.collected(bindings),
            Event::Opened(root) => self.opened(root),
            Event::Listed { dirs, files } => self.listed(dirs, files),
            Event::TextRead(text) => self.text_read(text),
            Event::Probed(facts) => self.probed(facts),
            Event::BytesRead(bytes) => self.bytes_read(bytes),
            Event::Done(ok) => self.done(ok),
            Event::Surveyed(entries) => self.surveyed(entries),
        }
    }
}

} // verus!
