//! The materializer: one run from a template to a project, as a machine
//! that is told what happened and answers what to do next.
//!
//! The machine touches nothing outside itself. Its caller runs hooks, asks
//! the user, reads and writes files, and reports back; the machine decides.
//! An action names what is to be done, and the fields of the machine hold
//! what it is to be done with.

use crate::error::RunError;
use crate::filter::CopyFilter;
use crate::guard::{names, Component};
use crate::manifest::VarDef;
use crate::paths::{is_safe_rel_path_on, safe_rel_path_on, Platform};
use crate::registry::{ItemView, PendingTemplate, TemplateItem};
use crate::render::{registered, Engine};
use crate::text::string_views;
use crate::values::Bindings;
use vstd::prelude::*;

verus! {

/// Where a run stands.
#[derive(Clone, Copy, Debug, PartialEq, Eq, Structural)]
pub enum Stage {
    Init,
    ResolveVariables,
    RegisterTemplates,
    StageRender,
    Promote,
    Done,
    Aborted,
}

/// The three moments at which a hook runs.
#[derive(Clone, Copy, Debug, PartialEq, Eq, Structural)]
pub enum HookStage {
    PrePrompt,
    PreGen,
    PostGen,
}

/// The directory trees that a run writes into.
#[derive(Clone, Copy, Debug, PartialEq, Eq, Structural)]
pub enum Area {
    /// The project directory inside the staging area.
    Project,
    /// The staging area.
    Staging,
    /// The real destination.
    Destination,
}

/// The part of a run that a list of jobs belongs to.
#[derive(Clone, Copy, Debug, PartialEq, Eq, Structural)]
pub enum Section {
    /// The files that the hook before generation asked for.
    PreGen,
    /// The files of the template.
    Render,
    /// The files that the hook after generation asked for.
    PostGen,
    /// The staged files, on their way to the destination.
    Promote,
}

/// What the machine waits for.
#[derive(Clone, Copy, Debug, PartialEq, Eq, Structural)]
pub enum Phase {
    /// To be begun.
    Init,
    /// The result of a hook.
    Hook(HookStage),
    /// The bindings that the user settled on.
    Input,
    /// The canonical root of the area that was to be opened.
    Opening,
    /// The directories and files of the template.
    Listing,
    /// The text of the item at the cursor.
    Reading,
    /// What lies on the way to the target of the job at the cursor.
    Probing,
    /// The bytes of the template file of the job at the cursor.
    Fetching,
    /// Word that the job at the cursor is done.
    Writing,
    /// The directories and files of the staging area.
    Surveying,
    /// Nothing: the run is over.
    Finished,
}

/// What the caller is to do next.
#[derive(Clone, Copy, Debug, PartialEq, Eq)]
pub enum Action {
    /// Run the hook of `stage` with the machine's bindings, and answer with
    /// its result.
    RunHook { stage: HookStage },
    /// Let the user settle the machine's bindings, and answer with them.
    Collect,
    /// Make sure that the area exists, and answer with its canonical root.
    /// The project directory is named by the machine's `directory`.
    Open { area: Area },
    /// Answer with the directories at the root of the template and with the
    /// files of the whole template.
    ListTemplate,
    /// Answer with the text of the template file of `items[item]`.
    ReadText { item: usize },
    /// Look at each location on the way from the root of the machine's area
    /// along `jobs[job].rel`, and answer with what was found.
    Probe { job: usize },
    /// Answer with the bytes of the template file of `jobs[job]`.
    ReadBytes { job: usize },
    /// Write the machine's `output` to the machine's `target`.
    Write,
    /// Copy the staged file of `jobs[job]` to the machine's `target`.
    CopyStaged { job: usize },
    /// Make the directory at the machine's `target`.
    MakeDirectory,
    /// Answer with the directories and files of the staging area.
    ListStaging,
    /// Discard the staging area. The run is over, well or with `error`.
    Finish { error: Option<RunError> },
}

/// What a job puts at its target.
pub enum Payload {
    /// This text.
    Text(String),
    /// What the template registered under this name renders to.
    Render(String),
    /// The bytes of this template file.
    CopyTemplate(Vec<String>),
    /// The bytes of the staged file at the same relative path.
    CopyStaged,
    /// A directory.
    Directory,
}

/// One file or directory to be made under the root of an area.
pub struct Job {
    pub rel: Vec<Component>,
    pub payload: Payload,
}

/// A file that a hook asks for.
pub struct HookFile {
    /// The path as the hook wrote it.
    pub path: String,
    /// The same path, as the platform's path parser reads it.
    pub components: Vec<Component>,
    pub content: String,
}

/// What a hook answered.
pub struct HookResult {
    pub updated_vars: Option<Bindings>,
    pub created_files: Vec<HookFile>,
}

/// A directory or file found in the staging area, by its path relative to
/// the staging root.
pub struct StagedEntry {
    pub rel: Vec<Component>,
    pub is_dir: bool,
}

/// The state of one run.
pub struct Materializer {
    pub phase: Phase,
    pub section: Section,
    pub area: Area,
    /// Why the run was given up, once it was.
    pub error: Option<RunError>,
    pub platform: Platform,
    pub variables: Vec<VarDef>,
    pub filter: CopyFilter,
    /// The variables as they stand.
    pub bindings: Bindings,
    /// The variables that templates are rendered against.
    pub context: Bindings,
    pub engine: Engine,
    /// The name of the project directory that hooks write into.
    pub directory: String,
    /// The canonical root of the area that is being written into.
    pub root: Vec<String>,
    pub jobs: Vec<Job>,
    pub cursor: usize,
    pub items: Vec<TemplateItem>,
    pub pending: Vec<PendingTemplate>,
    /// The guarded location of the job at the cursor.
    pub target: Vec<String>,
    /// The bytes to be written there.
    pub output: Vec<u8>,
}

/// The stage that a machine in `phase` and `section` is in.
pub open spec fn stage_of(phase: Phase, section: Section, error: Option<RunError>) -> Stage {
    match phase {
        Phase::Init => Stage::Init,
        Phase::Hook(HookStage::PrePrompt) => Stage::ResolveVariables,
        Phase::Input => Stage::ResolveVariables,
        Phase::Hook(HookStage::PreGen) => Stage::RegisterTemplates,
        Phase::Listing => Stage::RegisterTemplates,
        Phase::Reading => Stage::RegisterTemplates,
        Phase::Hook(HookStage::PostGen) => Stage::StageRender,
        Phase::Surveying => Stage::Promote,
        Phase::Finished => if error is Some {
            Stage::Aborted
        } else {
            Stage::Done
        },
        _ => match section {
            Section::PreGen => Stage::RegisterTemplates,
            Section::Render => Stage::StageRender,
            Section::PostGen => Stage::StageRender,
            Section::Promote => Stage::Promote,
        },
    }
}

/// The place of a stage in the order of a run.
pub open spec fn stage_rank(stage: Stage) -> int {
    match stage {
        Stage::Init => 0,
        Stage::ResolveVariables => 1,
        Stage::RegisterTemplates => 2,
        Stage::StageRender => 3,
        Stage::Promote => 4,
        Stage::Done => 5,
        Stage::Aborted => 5,
    }
}

/// The jobs that the files of a hook make: each file as it stands, with its
/// content as text.
pub open spec fn hook_jobs(files: Seq<HookFile>) -> Seq<Job> {
    Seq::new(
        files.len(),
        |i: int| Job { rel: files[i].components, payload: Payload::Text(files[i].content) },
    )
}

/// The place of the first file of a hook whose path is no safe relative
/// path.
pub open spec fn first_unsafe(files: Seq<HookFile>, platform: Platform, upto: int) -> Option<int>
    decreases upto,
{
    if upto <= 0 {
        None
    } else {
        match first_unsafe(files, platform, upto - 1) {
            Some(k) => Some(k),
            None => if safe_rel_path_on(files[upto - 1].path@, platform) {
                None
            } else {
                Some(upto - 1)
            },
        }
    }
}

/// The jobs that the entries of the staging area make: a directory for a
/// directory, a copy for a file.
pub open spec fn promote_jobs(entries: Seq<StagedEntry>) -> Seq<Job> {
    Seq::new(
        entries.len(),
        |i: int|
            Job {
                rel: entries[i].rel,
                payload: if entries[i].is_dir {
                    Payload::Directory
                } else {
                    Payload::CopyStaged
                },
            },
    )
}

/// What a job is in terms of plain values.
pub enum JobView {
    Text { rel: Seq<Seq<char>>, text: Seq<char> },
    Render { rel: Seq<Seq<char>>, name: Seq<char> },
    CopyTemplate { rel: Seq<Seq<char>>, source: Seq<Seq<char>> },
    Other,
}

/// The job of an item: its rendered path as plain names, and its content
/// either copied from the template file or rendered from the registered
/// template.
pub open spec fn item_job(item: ItemView) -> JobView {
    if item.copy_raw {
        JobView::CopyTemplate { rel: item.rel, source: item.source }
    } else {
        JobView::Render { rel: item.rel, name: item.name }
    }
}

pub open spec fn all_normal(rel: Seq<Component>) -> bool {
    forall|i: int| 0 <= i < rel.len() ==> (#[trigger] rel[i]) is Normal
}

impl View for Job {
    type V = JobView;

    open spec fn view(&self) -> JobView {
        if !all_normal(self.rel@) {
            JobView::Other
        } else {
            match self.payload {
                Payload::Text(text) => JobView::Text { rel: names(self.rel@), text: text@ },
                Payload::Render(name) => JobView::Render { rel: names(self.rel@), name: name@ },
                Payload::CopyTemplate(source) => JobView::CopyTemplate {
                    rel: names(self.rel@),
                    source: string_views(source@),
                },
                _ => JobView::Other,
            }
        }
    }
}

/// The first place at or after `from` of an item that is rendered.
pub open spec fn next_rendered(items: Seq<TemplateItem>, from: int) -> int
    decreases items.len() - from,
{
    if from < 0 || from >= items.len() {
        items.len() as int
    } else if !items[from].copy_raw {
        from
    } else {
        next_rendered(items, from + 1)
    }
}

pub(crate) fn find_rendered(items: &Vec<TemplateItem>, from: usize) -> (at: usize)
    ensures
        at == next_rendered(items@, from as int),
        at <= items.len(),
{
    let mut at: usize = from;
    while at < items.len() && items[at].copy_raw
        invariant
            next_rendered(items@, from as int) == next_rendered(items@, at as int),
        decreases items.len() - at,
    {
        at += 1;
    }
    if at > items.len() {
        items.len()
    } else {
        at
    }
}

fn copy_strings(v: &Vec<String>) -> (out: Vec<String>)
    ensures
        out@ == v@,
{
    let mut out: Vec<String> = Vec::new();
    let mut i: usize = 0;
    while i < v.len()
        invariant
            i <= v.len(),
            out@ == v@.take(i as int),
        decreases v.len() - i,
    {
        out.push(v[i].clone());
        proof {
            assert(out@ =~= v@.take(i + 1));
        }
        i += 1;
    }
    proof {
        assert(v@.take(v.len() as int) =~= v@);
    }
    out
}

pub(crate) fn render_jobs(items: &Vec<TemplateItem>) -> (jobs: Vec<Job>)
    ensures
        jobs@.len() == items@.len(),
        forall|i: int| 0 <= i < items@.len() ==> (#[trigger] jobs@[i])@ == item_job(items@[i]@),
{
    let mut jobs: Vec<Job> = Vec::new();
    let mut i: usize = 0;
    while i < items.len()
        invariant
            i <= items.len(),
            jobs@.len() == i,
            forall|k: int| 0 <= k < i ==> (#[trigger] jobs@[k])@ == item_job(items@[k]@),
        decreases items.len() - i,
    {
        let item = &items[i];
        let mut rel: Vec<Component> = Vec::new();
        let mut k: usize = 0;
        while k < item.rel.len()
            invariant
                k <= item.rel.len(),
                rel@.len() == k,
                all_normal(rel@),
                names(rel@) == string_views(item.rel@).take(k as int),
            decreases item.rel.len() - k,
        {
            let ghost before = names(rel@);
            rel.push(Component::Normal(item.rel[k].clone()));
            proof {
                assert(names(rel@) =~= before.push(item.rel@[k as int]@));
                assert(names(rel@) =~= string_views(item.rel@).take(k + 1));
            }
            k += 1;
        }
        proof {
            assert(string_views(item.rel@).take(item.rel.len() as int) =~= string_views(
                item.rel@,
            ));
        }
        let payload = if item.copy_raw {
            Payload::CopyTemplate(copy_strings(&item.source))
        } else {
            Payload::Render(item.name.clone())
        };
        jobs.push(Job { rel, payload });
        i += 1;
    }
    jobs
}

pub(crate) fn jobs_of_hook(files: Vec<HookFile>) -> (jobs: Vec<Job>)
    ensures
        jobs@ == hook_jobs(files@),
{
    let mut jobs: Vec<Job> = Vec::new();
    let ghost all = files@;
    for f in it: files
        invariant
            it.seq() == all,
            jobs@ == hook_jobs(all.take(it.index())),
    {
        let HookFile { path: _, components, content } = f;
        jobs.push(Job { rel: components, payload: Payload::Text(content) });
        proof {
            assert(jobs@ =~= hook_jobs(all.take(it.index() + 1)));
        }
    }
    proof {
        assert(all.take(all.len() as int) =~= all);
    }
    jobs
}

pub(crate) fn jobs_of_staging(entries: Vec<StagedEntry>) -> (jobs: Vec<Job>)
    ensures
        jobs@ == promote_jobs(entries@),
{
    let mut jobs: Vec<Job> = Vec::new();
    let ghost all = entries@;
    for e in it: entries
        invariant
            it.seq() == all,
            jobs@ == promote_jobs(all.take(it.index())),
    {
        let StagedEntry { rel, is_dir } = e;
        let payload = if is_dir {
            Payload::Directory
        } else {
            Payload::CopyStaged
        };
        jobs.push(Job { rel, payload });
        proof {
            assert(jobs@ =~= promote_jobs(all.take(it.index() + 1)));
        }
    }
    proof {
        assert(all.take(all.len() as int) =~= all);
    }
    jobs
}

pub(crate) fn find_unsafe(files: &Vec<HookFile>, platform: Platform) -> (r: Option<usize>)
    ensures
        match r {
            Some(k) => first_unsafe(files@, platform, files@.len() as int) == Some(k as int),
            None => first_unsafe(files@, platform, files@.len() as int) is None,
        },
{
    let mut i: usize = 0;
    while i < files.len()
        invariant
            i <= files.len(),
            first_unsafe(files@, platform, i as int) is None,
        decreases files.len() - i,
    {
        if !is_safe_rel_path_on(files[i].path.as_str(), platform) {
            proof {
                lemma_first_unsafe_at(files@, platform, i as int, files@.len() as int);
            }
            return Some(i);
        }
        i += 1;
    }
    None
}

proof fn lemma_first_unsafe_at(files: Seq<HookFile>, platform: Platform, k: int, upto: int)
    requires
        0 <= k < upto <= files.len(),
        first_unsafe(files, platform, k) is None,
        !safe_rel_path_on(files[k].path@, platform),
    ensures
        first_unsafe(files, platform, upto) == Some(k),
    decreases upto,
{
    if upto > k + 1 {
        lemma_first_unsafe_at(files, platform, k, upto - 1);
    }
}

} // verus!
