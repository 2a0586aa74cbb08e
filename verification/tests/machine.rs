use scaffolder::error::RunError;
use scaffolder::filter::PatternError;
use scaffolder::guard::{Component, Entry, PathFacts, SafetyError, Target};
use scaffolder::manifest::{Manifest, VarDef, VarKind};
use scaffolder::materializer::{
    Action, Area, HookFile, HookResult, HookStage, Materializer, Payload, Phase, Section,
    StagedEntry,
};
use scaffolder::paths::Platform;
use scaffolder::steps::{render_outcome, Event};
use scaffolder::values::{Binding, Bindings, Scalar};
use std::collections::{BTreeMap, BTreeSet};

type Path = Vec<String>;

fn p(parts: &[&str]) -> Path {
    parts.iter().map(|s| s.to_string()).collect()
}

fn bindings(pairs: &[(&str, &str)]) -> Bindings {
    let mut b = Bindings::new();
    for (k, v) in pairs {
        b.insert(k, Scalar::Str(v.to_string()));
    }
    b
}

fn text_var(name: &str, default: &str) -> VarDef {
    VarDef {
        name: name.to_string(),
        kind: VarKind::String,
        default: Some(Scalar::Str(default.to_string())),
        choice_labels: None,
    }
}

/// A file system held in memory, and the answers of a caller that works
/// on it.
struct World {
    template: Vec<(Path, Vec<u8>)>,
    files: BTreeMap<Path, Vec<u8>>,
    dirs: BTreeSet<Path>,
    links: BTreeSet<Path>,
    answers: Option<Bindings>,
    pre_gen: Vec<(String, String)>,
    post_gen: Vec<(String, String)>,
    log: Vec<Action>,
}

impl World {
    fn new(template: &[(&[&str], &str)]) -> World {
        World {
            template: template
                .iter()
                .map(|(path, text)| (p(path), text.as_bytes().to_vec()))
                .collect(),
            files: BTreeMap::new(),
            dirs: BTreeSet::new(),
            links: BTreeSet::new(),
            answers: None,
            pre_gen: Vec::new(),
            post_gen: Vec::new(),
            log: Vec::new(),
        }
    }

    fn staging() -> Path {
        p(&["/", "tmp", "stage"])
    }

    fn destination() -> Path {
        p(&["/", "out"])
    }

    fn make_dirs(&mut self, path: &Path) {
        for k in 1..=path.len() {
            self.dirs.insert(path[..k].to_vec());
        }
    }

    fn present(&self, path: &Path) -> bool {
        self.files.contains_key(path) || self.dirs.contains(path) || self.links.contains(path)
    }

    fn names(rel: &[Component]) -> Path {
        rel.iter()
            .map(|c| match c {
                Component::Normal(n) => n.clone(),
                _ => "?".to_string(),
            })
            .collect()
    }

    fn hook_files(files: &[(String, String)]) -> Vec<HookFile> {
        files
            .iter()
            .map(|(path, content)| HookFile {
                path: path.clone(),
                components: path
                    .split('/')
                    .map(|part| match part {
                        ".." => Component::ParentDir,
                        "." => Component::CurDir,
                        "" => Component::RootDir,
                        name => Component::Normal(name.to_string()),
                    })
                    .collect(),
                content: content.clone(),
            })
            .collect()
    }

    fn answer(&mut self, m: &Materializer, action: Action) -> Option<Event> {
        self.log.push(action);
        match action {
            Action::RunHook { stage } => {
                let files = match stage {
                    HookStage::PrePrompt => Vec::new(),
                    HookStage::PreGen => World::hook_files(&self.pre_gen),
                    HookStage::PostGen => World::hook_files(&self.post_gen),
                };
                Some(Event::HookDone(Some(HookResult { updated_vars: None, created_files: files })))
            }
            Action::Collect => {
                let b = match self.answers.take() {
                    Some(b) => b,
                    None => m.bindings.copy(),
                };
                Some(Event::Collected(b))
            }
            Action::Open { area } => {
                let root = match area {
                    Area::Staging => World::staging(),
                    Area::Destination => World::destination(),
                    Area::Project => {
                        let mut r = World::staging();
                        r.push(m.directory.clone());
                        r
                    }
                };
                self.make_dirs(&root);
                Some(Event::Opened(Some(root)))
            }
            Action::ListTemplate => {
                let mut dirs: Vec<String> = Vec::new();
                for (path, _) in &self.template {
                    if path.len() > 1 && !dirs.contains(&path[0]) {
                        dirs.push(path[0].clone());
                    }
                }
                let files = self.template.iter().map(|(path, _)| path.clone()).collect();
                Some(Event::Listed { dirs, files })
            }
            Action::ReadText { item } => {
                let source = &m.items[item].source;
                let bytes = self.template.iter().find(|(path, _)| path == source).map(|(_, b)| b);
                Some(Event::TextRead(bytes.and_then(|b| String::from_utf8(b.clone()).ok())))
            }
            Action::Probe { job } => {
                let names = World::names(&m.jobs[job].rel);
                let mut at = m.root.clone();
                let mut entries = Vec::new();
                for name in &names {
                    at.push(name.clone());
                    entries.push(if self.links.contains(&at) {
                        Entry::Symlink
                    } else if self.present(&at) {
                        Entry::Plain
                    } else {
                        Entry::Absent
                    });
                }
                let target = if self.present(&at) {
                    Target::Canonical(at.clone())
                } else {
                    Target::Absent
                };
                Some(Event::Probed(PathFacts { entries, target }))
            }
            Action::ReadBytes { job } => {
                let bytes = match &m.jobs[job].payload {
                    Payload::CopyTemplate(source) => self
                        .template
                        .iter()
                        .find(|(path, _)| path == source)
                        .map(|(_, b)| b.clone()),
                    _ => None,
                };
                Some(Event::BytesRead(bytes))
            }
            Action::Write => {
                let parent = m.target[..m.target.len() - 1].to_vec();
                self.make_dirs(&parent);
                self.files.insert(m.target.clone(), m.output.clone());
                Some(Event::Done(true))
            }
            Action::CopyStaged { job } => {
                let mut from = World::staging();
                from.extend(World::names(&m.jobs[job].rel));
                let bytes = self.files.get(&from).cloned();
                match bytes {
                    Some(b) => {
                        let parent = m.target[..m.target.len() - 1].to_vec();
                        self.make_dirs(&parent);
                        self.files.insert(m.target.clone(), b);
                        Some(Event::Done(true))
                    }
                    None => Some(Event::Done(false)),
                }
            }
            Action::MakeDirectory => {
                let target = m.target.clone();
                self.make_dirs(&target);
                Some(Event::Done(true))
            }
            Action::ListStaging => {
                let root = World::staging();
                let mut entries = vec![StagedEntry { rel: Vec::new(), is_dir: true }];
                let mut all: Vec<(Path, bool)> = Vec::new();
                for d in &self.dirs {
                    if d.len() > root.len() && d[..root.len()] == root[..] {
                        all.push((d[root.len()..].to_vec(), true));
                    }
                }
                for f in self.files.keys() {
                    if f.len() > root.len() && f[..root.len()] == root[..] {
                        all.push((f[root.len()..].to_vec(), false));
                    }
                }
                all.sort();
                for (rel, is_dir) in all {
                    entries.push(StagedEntry {
                        rel: rel.into_iter().map(Component::Normal).collect(),
                        is_dir,
                    });
                }
                Some(Event::Surveyed(entries))
            }
            Action::Finish { .. } => None,
        }
    }

    /// Runs the machine to its end and gives the error that it ended with.
    fn run(&mut self, m: &mut Materializer) -> Option<RunError> {
        let mut action = m.step(Event::Begin);
        let mut steps = 0;
        loop {
            steps += 1;
            assert!(steps < 10_000, "the run does not end");
            match self.answer(m, action) {
                Some(event) => action = m.step(event),
                None => break,
            }
        }
        match action {
            Action::Finish { error } => error,
            _ => unreachable!(),
        }
    }

    fn under(&self, root: &Path) -> Vec<(Path, String)> {
        self.files
            .iter()
            .filter(|(path, _)| path.len() > root.len() && path[..root.len()] == root[..])
            .map(|(path, bytes)| {
                (path[root.len()..].to_vec(), String::from_utf8_lossy(bytes).to_string())
            })
            .collect()
    }
}

fn manifest(vars: Vec<VarDef>, patterns: &[&str]) -> Manifest {
    Manifest {
        variables: vars,
        copy_without_render: patterns.iter().map(|s| s.to_string()).collect(),
    }
}

fn machine(vars: Vec<VarDef>, patterns: &[&str]) -> Materializer {
    Materializer::new(manifest(vars, patterns), Platform::Unix).ok().unwrap()
}

#[test]
fn end_to_end_one_project_directory() {
    let mut world = World::new(&[(
        &["{{ project_slug }}", "README.md"],
        "# {{ project_slug }}\n{{ greeting }}, world\n",
    )]);
    world.answers = Some(bindings(&[("project_slug", "demo-app"), ("greeting", "hi")]));
    let mut m = machine(vec![], &[]);
    assert_eq!(world.run(&mut m), None);
    let out = world.under(&World::destination());
    assert_eq!(out, vec![(p(&["demo_app", "README.md"]), "# demo_app\nhi, world".to_string())]);
    let tops: BTreeSet<String> = world
        .dirs
        .iter()
        .filter(|d| d.len() == 3 && d[..2] == World::destination()[..])
        .map(|d| d[2].clone())
        .collect();
    assert_eq!(tops.into_iter().collect::<Vec<_>>(), vec!["demo_app".to_string()]);
    for (_, text) in out {
        assert!(!text.contains("{{") && !text.contains("}}") && !text.contains("{%"));
    }
}

#[test]
fn copy_excluded_file_keeps_its_bytes() {
    let raw = "{{ not_a_variable }} {% if %} \u{0}\u{1}";
    let mut world = World::new(&[
        (&["{{ project_slug }}", "main.py"], "print('{{ greeting }}')"),
        (&["{{ project_slug }}", "tests", "unit", "test_a.py"], raw),
        (&["{{ project_slug }}", "Cargo.lock"], "{{ also raw"),
        (&["{{ project_slug }}", "dir", "Cargo.lock"], "{{ greeting }}"),
    ]);
    world.answers = Some(bindings(&[("project_slug", "demo"), ("greeting", "hi")]));
    let mut m = machine(vec![], &["tests/**", "*.lock"]);
    assert_eq!(world.run(&mut m), None);
    let out: BTreeMap<Path, String> = world.under(&World::destination()).into_iter().collect();
    assert_eq!(out[&p(&["demo", "main.py"])], "print('hi')");
    assert_eq!(out[&p(&["demo", "tests", "unit", "test_a.py"])], raw);
    assert_eq!(out[&p(&["demo", "Cargo.lock"])], "{{ also raw");
    assert_eq!(out[&p(&["demo", "dir", "Cargo.lock"])], "hi");
    assert_eq!(out.len(), 4);
}

#[test]
fn stages_follow_one_another() {
    let mut world = World::new(&[(&["{{ project_slug }}", "a.txt"], "{{ project_slug }}")]);
    world.answers = Some(bindings(&[("project_slug", "x")]));
    let mut m = machine(vec![], &[]);
    assert_eq!(world.run(&mut m), None);
    let kinds: Vec<String> = world
        .log
        .iter()
        .map(|a| match a {
            Action::RunHook { stage } => format!("hook {:?}", stage),
            Action::Open { area } => format!("open {:?}", area),
            Action::Probe { .. } => "probe".to_string(),
            Action::ReadText { .. } => "text".to_string(),
            other => format!("{:?}", other),
        })
        .collect();
    assert_eq!(
        kinds,
        vec![
            "hook PrePrompt",
            "Collect",
            "hook PreGen",
            "open Project",
            "ListTemplate",
            "text",
            "open Staging",
            "probe",
            "Write",
            "hook PostGen",
            "open Project",
            "open Destination",
            "ListStaging",
            "probe",
            "MakeDirectory",
            "probe",
            "MakeDirectory",
            "probe",
            "CopyStaged { job: 2 }",
            "Finish { error: None }",
        ]
    );
    assert_eq!(m.phase, Phase::Finished);
    assert_eq!(m.error, None);
}

#[test]
fn nothing_reaches_the_destination_before_the_promotion() {
    let mut world = World::new(&[
        (&["{{ project_slug }}", "a.txt"], "a"),
        (&["{{ project_slug }}", "b.txt"], "{{ undefined_thing }}"),
    ]);
    world.answers = Some(bindings(&[("project_slug", "x")]));
    let mut m = machine(vec![], &[]);
    assert_eq!(world.run(&mut m), Some(RunError::RenderFailed { job: 1 }));
    assert!(world.under(&World::destination()).is_empty());
    assert!(!world.dirs.contains(&World::destination()));
    assert_eq!(world.under(&World::staging()).len(), 1);
}

#[test]
fn bad_pattern_is_reported_before_any_work() {
    let r = Materializer::new(manifest(vec![], &["ok", "x[0]"]), Platform::Unix);
    assert_eq!(r.err(), Some(RunError::Pattern(PatternError::Bracket { index: 1 })));
    let r = Materializer::new(manifest(vec![], &[" "]), Platform::Unix);
    assert_eq!(r.err(), Some(RunError::Pattern(PatternError::Empty { index: 0 })));
}

#[test]
fn defaults_are_prefilled_and_resolved_before_the_user_is_asked() {
    let vars = vec![
        text_var("project_name", "My App"),
        text_var("service", "{{ project_name }}-service"),
    ];
    let mut m = machine(vars, &[]);
    assert_eq!(m.step(Event::Begin), Action::RunHook { stage: HookStage::PrePrompt });
    assert_eq!(m.bindings.get("service").unwrap().as_str(), Some("{{ project_name }}-service"));
    let mut update = Bindings::new();
    update.insert("project_name", Scalar::Str("Other".to_string()));
    update.insert("extra", Scalar::Int(3));
    let hook = HookResult { updated_vars: Some(update), created_files: vec![] };
    assert_eq!(m.step(Event::HookDone(Some(hook))), Action::Collect);
    assert_eq!(m.phase, Phase::Input);
    assert_eq!(m.bindings.get("project_name").unwrap().as_str(), Some("My App"));
    assert_eq!(m.bindings.get("service").unwrap().as_str(), Some("My App-service"));
    assert!(matches!(m.bindings.get("extra"), Some(Scalar::Int(3))));
}

#[test]
fn hook_files_are_written_under_the_project_directory() {
    let mut world = World::new(&[(&["{{ project_slug }}", "a.txt"], "a")]);
    world.answers = Some(bindings(&[("project_slug", "My Tool")]));
    world.pre_gen = vec![("notes/pre.txt".to_string(), "before {{ raw }}".to_string())];
    world.post_gen = vec![("post.txt".to_string(), "after".to_string())];
    let mut m = machine(vec![], &[]);
    assert_eq!(world.run(&mut m), None);
    assert_eq!(m.directory, "my_tool");
    let out: BTreeMap<Path, String> = world.under(&World::destination()).into_iter().collect();
    assert_eq!(out[&p(&["my_tool", "notes", "pre.txt"])], "before {{ raw }}");
    assert_eq!(out[&p(&["my_tool", "post.txt"])], "after");
    assert_eq!(out[&p(&["my_tool", "a.txt"])], "a");
}

#[test]
fn hook_file_with_unsafe_path_ends_the_run() {
    for bad in ["../escape.txt", "/etc/passwd", "a//b", ""] {
        let mut world = World::new(&[(&["{{ project_slug }}", "a.txt"], "a")]);
        world.answers = Some(bindings(&[("project_slug", "x")]));
        world.pre_gen =
            vec![("fine.txt".to_string(), "1".to_string()), (bad.to_string(), "2".to_string())];
        let mut m = machine(vec![], &[]);
        assert_eq!(world.run(&mut m), Some(RunError::UnsafeHookPath { file: 1 }), "{:?}", bad);
        assert!(world.files.is_empty());
    }
}

#[test]
fn symlink_on_the_way_ends_the_run() {
    let mut world = World::new(&[(&["{{ project_slug }}", "sub", "a.txt"], "a")]);
    world.answers = Some(bindings(&[("project_slug", "x")]));
    let mut link = World::staging();
    link.push("x".to_string());
    link.push("sub".to_string());
    world.links.insert(link);
    let mut m = machine(vec![], &[]);
    assert_eq!(
        world.run(&mut m),
        Some(RunError::Unsafe { job: 0, reason: SafetyError::SymlinkComponent { index: 1 } })
    );
    assert!(world.files.is_empty());
}

#[test]
fn rendered_names_must_be_safe_segments() {
    let mut world = World::new(&[(&["{{ project_slug }}", "{{ name }}.txt"], "a")]);
    world.answers = Some(bindings(&[("project_slug", "x"), ("name", "../up")]));
    let mut m = machine(vec![], &[]);
    assert_eq!(world.run(&mut m), Some(RunError::UnsafeSegment { file: 0, segment: 1 }));
    assert!(world.files.is_empty());
}

#[test]
fn segment_that_does_not_render_ends_the_run() {
    let mut world = World::new(&[(&["{{ project_slug }}", "{{ missing }}.txt"], "a")]);
    world.answers = Some(bindings(&[("project_slug", "x")]));
    let mut m = machine(vec![], &[]);
    assert_eq!(world.run(&mut m), Some(RunError::SegmentNotRendered { file: 0, segment: 1 }));
}

#[test]
fn project_directory_must_be_the_only_one() {
    let mut world = World::new(&[(&["plain", "a.txt"], "a")]);
    world.answers = Some(bindings(&[("project_slug", "x")]));
    let mut m = machine(vec![], &[]);
    assert_eq!(world.run(&mut m), Some(RunError::NoMainDirectory));

    let mut world = World::new(&[
        (&["{{ project_slug }}", "a.txt"], "a"),
        (&["{{project_slug}}-docs", "b.txt"], "b"),
    ]);
    world.answers = Some(bindings(&[("project_slug", "x")]));
    let mut m = machine(vec![], &[]);
    assert_eq!(world.run(&mut m), Some(RunError::SeveralMainDirectories));
}

#[test]
fn empty_slug_ends_the_run() {
    let mut world = World::new(&[(&["{{ project_slug }}", "a.txt"], "a")]);
    world.answers = Some(bindings(&[("project_slug", "---")]));
    let mut m = machine(vec![], &[]);
    assert_eq!(world.run(&mut m), Some(RunError::EmptySlug));
}

#[test]
fn slug_falls_back_to_title_then_name() {
    let mut world = World::new(&[(&["{{ project_slug }}", "a.txt"], "{{ project_slug }}")]);
    world.answers = Some(bindings(&[("project_title", "Big Thing"), ("project_name", "other")]));
    let mut m = machine(vec![], &[]);
    assert_eq!(world.run(&mut m), None);
    assert_eq!(
        world.under(&World::destination()),
        vec![(p(&["big_thing", "a.txt"]), "big_thing".to_string())]
    );
}

#[test]
fn files_outside_the_project_directory_are_passed_over() {
    let mut world = World::new(&[
        (&["copilot.json"], "{}"),
        (&["hooks", "pre_gen_project.lua"], "return {}"),
        (&["{{ project_slug }}", ".git", "config"], "x"),
        (&["{{ project_slug }}", "keep.txt"], "kept"),
        (&["other", "skip.txt"], "{{ broken"),
    ]);
    world.answers = Some(bindings(&[("project_slug", "x")]));
    let mut m = machine(vec![], &[]);
    assert_eq!(world.run(&mut m), None);
    assert_eq!(
        world.under(&World::destination()),
        vec![(p(&["x", "keep.txt"]), "kept".to_string())]
    );
}

#[test]
fn templates_with_inheritance_are_registered_after_their_bases() {
    let mut world = World::new(&[
        (&["{{ project_slug }}", "child.txt"], "{% extends \"x/base.txt\" %}{% block b %}child{% endblock %}"),
        (&["{{ project_slug }}", "base.txt"], "[{% block b %}base{% endblock %}]"),
    ]);
    world.answers = Some(bindings(&[("project_slug", "x")]));
    let mut m = machine(vec![], &[]);
    assert_eq!(world.run(&mut m), None);
    let out: BTreeMap<Path, String> = world.under(&World::destination()).into_iter().collect();
    assert_eq!(out[&p(&["x", "child.txt"])], "[child]");
    assert_eq!(out[&p(&["x", "base.txt"])], "[base]");
    let order: Vec<&str> = m.pending.iter().map(|t| t.name.as_str()).collect();
    assert_eq!(order, vec!["x/child.txt", "x/base.txt"]);
}

#[test]
fn template_with_broken_syntax_is_refused() {
    let mut world = World::new(&[
        (&["{{ project_slug }}", "ok.txt"], "fine"),
        (&["{{ project_slug }}", "bad.txt"], "{% if %}"),
    ]);
    world.answers = Some(bindings(&[("project_slug", "x")]));
    let mut m = machine(vec![], &[]);
    assert_eq!(world.run(&mut m), Some(RunError::TemplateRefused { index: 1 }));
    assert!(world.files.is_empty());
}

#[test]
fn news_out_of_turn_ends_the_run() {
    let mut m = machine(vec![], &[]);
    assert_eq!(m.step(Event::Done(true)), Action::Finish { error: Some(RunError::OutOfTurn) });
    assert_eq!(m.phase, Phase::Finished);
    assert_eq!(m.step(Event::Begin), Action::Finish { error: Some(RunError::OutOfTurn) });
    assert_eq!(m.step(Event::Collected(Bindings::new())), Action::Finish {
        error: Some(RunError::OutOfTurn)
    });
}

#[test]
fn failures_of_the_caller_end_the_run() {
    let mut m = machine(vec![], &[]);
    m.step(Event::Begin);
    assert_eq!(m.step(Event::HookDone(None)), Action::Finish { error: Some(RunError::HookFailed) });

    let mut m = machine(vec![], &[]);
    m.step(Event::Begin);
    m.step(Event::HookDone(Some(HookResult { updated_vars: None, created_files: vec![] })));
    m.step(Event::Collected(bindings(&[("project_slug", "x")])));
    assert_eq!(
        m.step(Event::HookDone(Some(HookResult { updated_vars: None, created_files: vec![] }))),
        Action::Open { area: Area::Project }
    );
    assert_eq!(m.section, Section::PreGen);
    assert_eq!(m.step(Event::Opened(None)), Action::Finish { error: Some(RunError::Failed) });
}

#[test]
fn unreadable_template_ends_the_run() {
    let mut world = World::new(&[(&["{{ project_slug }}", "a.bin"], "")]);
    world.template[0].1 = vec![0xff, 0xfe, 0x00];
    world.answers = Some(bindings(&[("project_slug", "x")]));
    let mut m = machine(vec![], &[]);
    assert_eq!(world.run(&mut m), Some(RunError::TemplateUnreadable { item: 0 }));
}

#[test]
fn binary_file_is_copied_when_excluded() {
    let mut world = World::new(&[(&["{{ project_slug }}", "a.bin"], "")]);
    world.template[0].1 = vec![0xff, 0xfe, 0x00, 0x7b, 0x7b];
    world.answers = Some(bindings(&[("project_slug", "x")]));
    let mut m = machine(vec![], &["*.bin"]);
    assert_eq!(world.run(&mut m), None);
    let mut at = World::destination();
    at.extend(p(&["x", "a.bin"]));
    assert_eq!(world.files[&at], vec![0xff, 0xfe, 0x00, 0x7b, 0x7b]);
}

#[test]
fn bindings_keep_the_first_entry_of_a_name() {
    let b = Bindings {
        entries: vec![
            Binding { name: "a".to_string(), value: Scalar::Str("first".to_string()) },
            Binding { name: "a".to_string(), value: Scalar::Str("second".to_string()) },
        ],
    };
    assert_eq!(b.get("a").unwrap().as_str(), Some("first"));
    let mut world = World::new(&[(&["{{ project_slug }}", "a.txt"], "{{ a }}")]);
    let mut all = b;
    all.insert("project_slug", Scalar::Str("x".to_string()));
    world.answers = Some(all);
    let mut m = machine(vec![], &[]);
    assert_eq!(world.run(&mut m), None);
    assert_eq!(world.under(&World::destination()), vec![(p(&["x", "a.txt"]), "first".to_string())]);
}

#[test]
fn what_the_engine_gave_is_what_is_written() {
    assert_eq!(render_outcome(3, None), Err(RunError::RenderFailed { job: 3 }));
    assert_eq!(render_outcome(0, Some(String::new())), Ok(Vec::new()));
    assert_eq!(render_outcome(1, Some("hé\n".to_string())), Ok(vec![b'h', 0xC3, 0xA9, b'\n']));
}
