//! What holds of every run, whatever news the machine is given.

use crate::filter::any_match;
use crate::guard::{lemma_accepted_lies_under, lies_under, resolved, PathFacts};
use crate::materializer::{
    item_job, stage_of, stage_rank, Action, Area, Materializer, Phase, Section, Stage,
};
use crate::paths::Platform;
use crate::registry::planned_item;
use crate::resolver::Store;
use crate::steps::{bytes_read_spec, goes_on, listed_with, probed_spec, reads_on, step_spec, Event};
use crate::text::{join, string_views};
use vstd::prelude::*;

verus! {

/// The action puts something on the file system.
pub open spec fn is_write(action: Action) -> bool {
    action is Write || action is CopyStaged || action is MakeDirectory
}

proof fn lemma_goes_on(mid: Materializer, post: Materializer, action: Action)
    requires
        goes_on(mid, post, action),
        mid.area == Area::Destination ==> mid.section == Section::Promote,
    ensures
        post.well_formed(),
        !is_write(action),
        mid.phase != Phase::Finished && mid.phase != Phase::Surveying ==> stage_rank(
            post.stage(),
        ) >= stage_rank(stage_of(Phase::Probing, mid.section, mid.error)),
        mid.section == Section::Promote ==> stage_rank(post.stage()) >= 4,
{
}

proof fn lemma_reads_on(
    mid: Materializer,
    templates: Map<Seq<char>, Seq<char>>,
    strictness: bool,
    post: Materializer,
    action: Action,
)
    requires
        reads_on(mid, templates, strictness, post, action),
        mid.area == Area::Destination ==> mid.section == Section::Promote,
        mid.phase == Phase::Listing || mid.phase == Phase::Reading,
    ensures
        post.well_formed(),
        !is_write(action),
        stage_rank(post.stage()) >= 2,
{
}

/// A step leaves a well-formed machine well formed.
pub proof fn lemma_step_keeps_well_formed(
    pre: Materializer,
    event: Event,
    post: Materializer,
    action: Action,
)
    requires
        pre.well_formed(),
        step_spec(pre, event, post, action),
    ensures
        post.well_formed(),
{
    lemma_step(pre, event, post, action);
}

/// A run never goes back to an earlier stage.
pub proof fn lemma_stage_never_goes_back(
    pre: Materializer,
    event: Event,
    post: Materializer,
    action: Action,
)
    requires
        pre.well_formed(),
        step_spec(pre, event, post, action),
    ensures
        stage_rank(post.stage()) >= stage_rank(pre.stage()),
{
    lemma_step(pre, event, post, action);
}

/// Nothing is put on the file system but at a target that the guard
/// accepted: the root of the area followed by safe plain names. And nothing
/// is put into the destination before the promotion.
pub proof fn lemma_writes_are_guarded(
    pre: Materializer,
    event: Event,
    post: Materializer,
    action: Action,
)
    requires
        pre.well_formed(),
        step_spec(pre, event, post, action),
        is_write(action),
    ensures
        post.cursor < post.jobs@.len(),
        lies_under(
            string_views(post.root@),
            post.jobs@[post.cursor as int].rel@,
            string_views(post.target@),
            post.platform,
        ),
        post.area == Area::Destination ==> post.stage() == Stage::Promote,
{
    lemma_step(pre, event, post, action);
}

proof fn lemma_step(pre: Materializer, event: Event, post: Materializer, action: Action)
    requires
        pre.well_formed(),
        step_spec(pre, event, post, action),
    ensures
        post.well_formed(),
        stage_rank(post.stage()) >= stage_rank(pre.stage()),
        is_write(action) ==> post.phase == Phase::Writing,
{
    if pre.phase == Phase::Finished {
        return ;
    }
    match event {
        Event::Begin => {},
        Event::HookDone(result) => {},
        Event::Collected(bindings) => {},
        Event::Opened(root) => {
            if pre.phase == Phase::Opening {
                if let Some(r) = root {
                    if pre.section != Section::Promote {
                        lemma_goes_on(Materializer { root: r, ..pre }, post, action);
                    }
                }
            }
        },
        Event::Listed { dirs, files } => {
            if pre.phase == Phase::Listing {
                let names = string_views(dirs@);
                if exists|main: Seq<char>| #[trigger] listed_with(pre, main, files@, post, action) {
                    let main = choose|main: Seq<char>| #[trigger]
                        listed_with(pre, main, files@, post, action);
                    lemma_listed_with(pre, main, files@, post, action);
                }
            }
        },
        Event::TextRead(text) => {
            if pre.phase == Phase::Reading && pre.cursor < pre.items@.len() {
                if let Some(content) = text {
                    lemma_reads_on(
                        Materializer {
                            pending: post.pending,
                            cursor: crate::materializer::next_rendered(pre.items@, pre.cursor + 1) as usize,
                            ..pre
                        },
                        crate::render::registered(pre.engine),
                        crate::render::strict(pre.engine),
                        post,
                        action,
                    );
                }
            }
        },
        Event::Probed(facts) => {
            if pre.phase == Phase::Probing && pre.cursor < pre.jobs@.len() {
                let job = pre.jobs@[pre.cursor as int];
                if resolved(string_views(pre.root@), job.rel@, facts, pre.platform) is Ok {
                    lemma_accepted_lies_under(
                        string_views(pre.root@),
                        job.rel@,
                        facts,
                        pre.platform,
                    );
                }
            }
        },
        Event::BytesRead(bytes) => {},
        Event::Done(ok) => {
            if pre.phase == Phase::Writing && pre.cursor < pre.jobs@.len() && ok {
                lemma_goes_on(
                    Materializer { cursor: (pre.cursor + 1) as usize, ..pre },
                    post,
                    action,
                );
            }
        },
        Event::Surveyed(entries) => {
            if pre.phase == Phase::Surveying {
                lemma_goes_on(Materializer { jobs: post.jobs, cursor: 0, ..pre }, post, action);
            }
        },
    }
}

proof fn lemma_listed_with(
    pre: Materializer,
    main: Seq<char>,
    files: Seq<Vec<String>>,
    post: Materializer,
    action: Action,
)
    requires
        pre.well_formed(),
        pre.phase == Phase::Listing,
        listed_with(pre, main, files, post, action),
    ensures
        post.well_formed(),
        !is_write(action),
        stage_rank(post.stage()) >= 2,
{
    let context = pre.bindings@.insert(
        "project_slug"@,
        crate::values::ScalarView::Str(crate::registry::project_slug(pre.bindings@)),
    );
    if crate::registry::planned(
        crate::registry::path_views(files),
        main,
        context,
        pre.filter@,
        pre.platform,
    ) is Ok {
        lemma_reads_on(
            Materializer {
                context: post.context,
                items: post.items,
                pending: post.pending,
                cursor: crate::materializer::next_rendered(post.items@, 0) as usize,
                ..pre
            },
            Map::empty(),
            true,
            post,
            action,
        );
    }
}

/// A file that the copy filter matches becomes an item that is copied, and
/// its job is to copy the bytes of the template file.
pub proof fn lemma_matched_file_is_copied(
    file: int,
    rel: Seq<Seq<char>>,
    main_dir: Seq<char>,
    b: Store,
    patterns: Seq<Seq<char>>,
    platform: Platform,
)
    requires
        any_match(patterns, join(rel.skip(1), '/')),
        planned_item(file, rel, main_dir, b, patterns, platform) matches Ok(Some(_)),
    ensures
        planned_item(file, rel, main_dir, b, patterns, platform)->Ok_0->Some_0.copy_raw,
        item_job(
            planned_item(file, rel, main_dir, b, patterns, platform)->Ok_0->Some_0,
        ) is CopyTemplate,
        item_job(
            planned_item(file, rel, main_dir, b, patterns, platform)->Ok_0->Some_0,
        )->CopyTemplate_source == rel,
{
}

/// The bytes written for a job that copies a template file are the bytes
/// that were read from it, whatever they hold: once the guard has accepted
/// the target, the machine asks for the bytes, and what it is given is what
/// it has written.
pub proof fn lemma_copy_is_exact(
    pre: Materializer,
    facts: PathFacts,
    mid: Materializer,
    first: Action,
    bytes: Vec<u8>,
    post: Materializer,
    second: Action,
)
    requires
        pre.phase == Phase::Probing,
        pre.cursor < pre.jobs@.len(),
        pre.jobs@[pre.cursor as int].payload is CopyTemplate,
        probed_spec(pre, facts, mid, first),
        mid.phase != Phase::Finished,
        bytes_read_spec(mid, Some(bytes), post, second),
    ensures
        first == (Action::ReadBytes { job: pre.cursor }),
        second == Action::Write,
        post.output == bytes,
        post.target == mid.target,
        resolved(
            string_views(pre.root@),
            pre.jobs@[pre.cursor as int].rel@,
            facts,
            pre.platform,
        ) == Ok::<Seq<Seq<char>>, crate::guard::SafetyError>(string_views(post.target@)),
{
}

} // verus!
