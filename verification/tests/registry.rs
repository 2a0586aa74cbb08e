use scaffolder::error::RunError;
use scaffolder::filter::CopyFilter;
use scaffolder::paths::Platform;
use scaffolder::registry::{
    bound_text, find_main_dir, hook_project_dir, new_engine, order_for_registration,
    pending_template, plan, plan_item, register_all, render_bindings, PendingTemplate,
};
use scaffolder::values::{Bindings, Scalar};

fn strings(parts: &[&str]) -> Vec<String> {
    parts.iter().map(|s| s.to_string()).collect()
}

fn texts(pairs: &[(&str, &str)]) -> Bindings {
    let mut b = Bindings::new();
    for (k, v) in pairs {
        b.insert(k, Scalar::Str(v.to_string()));
    }
    b
}

fn filter_of(patterns: &[&str]) -> CopyFilter {
    CopyFilter::compile(&strings(patterns)).unwrap()
}

const MAIN: &str = "{{ project_slug }}";

#[test]
fn slug_is_normalized_for_rendering() {
    let out = render_bindings(&texts(&[("project_slug", "demo-app"), ("greeting", "hi")])).unwrap();
    assert_eq!(bound_text(&out, "project_slug"), Some("demo_app"));
    assert_eq!(bound_text(&out, "greeting"), Some("hi"));
}

#[test]
fn slug_comes_from_the_title_before_the_name() {
    let out = render_bindings(&texts(&[("project_title", "My App"), ("project_name", "other")]))
        .unwrap();
    assert_eq!(bound_text(&out, "project_slug"), Some("my_app"));
    let out = render_bindings(&texts(&[("project_name", "Other One")])).unwrap();
    assert_eq!(bound_text(&out, "project_slug"), Some("other_one"));
    let out = render_bindings(&Bindings::new()).unwrap();
    assert_eq!(bound_text(&out, "project_slug"), Some("project"));
}

#[test]
fn slug_that_is_no_text_is_passed_over() {
    let mut b = Bindings::new();
    b.insert("project_slug", Scalar::Int(4));
    b.insert("project_name", Scalar::Str("Named".to_string()));
    let out = render_bindings(&b).unwrap();
    assert_eq!(bound_text(&out, "project_slug"), Some("named"));
    assert_eq!(bound_text(&b, "project_slug"), None);
}

#[test]
fn slug_of_nothing_but_separators_is_refused() {
    assert_eq!(render_bindings(&texts(&[("project_slug", "---")])).err(), Some(RunError::EmptySlug));
    assert_eq!(render_bindings(&texts(&[("project_slug", "")])).err(), Some(RunError::EmptySlug));
}

#[test]
fn hooks_write_under_the_slug_or_under_project() {
    assert_eq!(hook_project_dir(&texts(&[("project_slug", "Demo App")])), "demo_app");
    assert_eq!(hook_project_dir(&texts(&[("project_title", "Other")])), "project");
}

#[test]
fn the_project_directory_is_the_one_that_names_the_slug() {
    let dirs = strings(&["hooks", MAIN, "docs"]);
    assert_eq!(find_main_dir(&dirs), Ok(MAIN.to_string()));
    let dirs = strings(&["{{project_slug}}-x"]);
    assert_eq!(find_main_dir(&dirs), Ok("{{project_slug}}-x".to_string()));
}

#[test]
fn no_project_directory_is_an_error() {
    assert_eq!(find_main_dir(&strings(&["hooks", "docs"])), Err(RunError::NoMainDirectory));
    assert_eq!(find_main_dir(&Vec::new()), Err(RunError::NoMainDirectory));
    assert_eq!(find_main_dir(&strings(&["{{ project_name }}"])), Err(RunError::NoMainDirectory));
    assert_eq!(find_main_dir(&strings(&["project_slug"])), Err(RunError::NoMainDirectory));
}

#[test]
fn two_project_directories_are_an_error() {
    let dirs = strings(&[MAIN, "{{ project_slug }}_b"]);
    assert_eq!(find_main_dir(&dirs), Err(RunError::SeveralMainDirectories));
}

#[test]
fn item_has_each_segment_rendered() {
    let engine = new_engine();
    let b = texts(&[("project_slug", "demo_app"), ("module", "core")]);
    let rel = strings(&[MAIN, "src", "{{ module }}.py"]);
    let item =
        plan_item(&engine, 0, &rel, MAIN, &b, &filter_of(&[]), Platform::Unix).unwrap().unwrap();
    assert_eq!(item.rel, strings(&["demo_app", "src", "core.py"]));
    assert_eq!(item.name, "demo_app/src/core.py");
    assert_eq!(item.source, rel);
    assert!(!item.copy_raw);
}

#[test]
fn item_is_matched_without_its_first_segment() {
    let engine = new_engine();
    let b = texts(&[("project_slug", "demo_app")]);
    let filter = filter_of(&["*.lock", "assets/**"]);
    let lock = strings(&[MAIN, "Cargo.lock"]);
    let nested = strings(&[MAIN, "sub", "Cargo.lock"]);
    let asset = strings(&[MAIN, "assets", "img", "logo.png"]);
    let get = |rel: &Vec<String>| {
        plan_item(&engine, 0, rel, MAIN, &b, &filter, Platform::Unix).unwrap().unwrap().copy_raw
    };
    assert!(get(&lock));
    assert!(!get(&nested));
    assert!(get(&asset));
}

#[test]
fn files_that_do_not_belong_to_the_project_are_passed_over() {
    let engine = new_engine();
    let b = texts(&[("project_slug", "demo_app")]);
    let f = filter_of(&[]);
    let none = |rel: &[&str]| {
        plan_item(&engine, 0, &strings(rel), MAIN, &b, &f, Platform::Unix).unwrap().is_none()
    };
    assert!(none(&["copilot.json"]));
    assert!(none(&["hooks", "pre_prompt.lua"]));
    assert!(none(&[MAIN, ".git", "config"]));
    assert!(none(&["README.md"]));
    assert!(none(&["other", "file.txt"]));
    assert!(none(&[]));
    assert!(!none(&[MAIN, "copilot.json"]));
}

#[test]
fn segment_faults_name_the_file_and_the_segment() {
    let engine = new_engine();
    let b = texts(&[("project_slug", "demo_app"), ("up", ".."), ("sep", "a/b")]);
    let f = filter_of(&[]);
    let fault = |rel: &[&str]| {
        plan_item(&engine, 7, &strings(rel), MAIN, &b, &f, Platform::Unix).err().unwrap()
    };
    assert_eq!(fault(&[MAIN, "{{ up }}", "x"]), RunError::UnsafeSegment { file: 7, segment: 1 });
    assert_eq!(fault(&[MAIN, "ok", "{{ sep }}"]), RunError::UnsafeSegment { file: 7, segment: 2 });
    assert_eq!(
        fault(&[MAIN, "{{ missing }}"]),
        RunError::SegmentNotRendered { file: 7, segment: 1 }
    );
    assert_eq!(fault(&[MAIN, "{{ broken"]), RunError::SegmentNotRendered { file: 7, segment: 1 });
    // The first faulty segment counts.
    assert_eq!(
        fault(&[MAIN, "{{ missing }}", "{{ up }}"]),
        RunError::SegmentNotRendered { file: 7, segment: 1 }
    );
}

#[test]
fn reserved_names_are_faults_on_windows_only() {
    let engine = new_engine();
    let b = texts(&[("project_slug", "demo_app"), ("dev", "CON.txt")]);
    let f = filter_of(&[]);
    let rel = strings(&[MAIN, "{{ dev }}"]);
    assert!(plan_item(&engine, 0, &rel, MAIN, &b, &f, Platform::Unix).is_ok());
    assert_eq!(
        plan_item(&engine, 0, &rel, MAIN, &b, &f, Platform::Windows).err(),
        Some(RunError::UnsafeSegment { file: 0, segment: 1 })
    );
}

#[test]
fn plan_keeps_the_order_of_the_walk() {
    let engine = new_engine();
    let b = texts(&[("project_slug", "demo_app")]);
    let files = vec![
        strings(&["copilot.json"]),
        strings(&[MAIN, "b.txt"]),
        strings(&["hooks", "post_gen_project.lua"]),
        strings(&[MAIN, "a.txt"]),
    ];
    let items = plan(&engine, &files, MAIN, &b, &filter_of(&["a.*"]), Platform::Unix).unwrap();
    let names: Vec<&str> = items.iter().map(|i| i.name.as_str()).collect();
    assert_eq!(names, vec!["demo_app/b.txt", "demo_app/a.txt"]);
    assert!(!items[0].copy_raw);
    assert!(items[1].copy_raw);
}

#[test]
fn plan_stops_at_the_first_faulty_file() {
    let engine = new_engine();
    let b = texts(&[("project_slug", "demo_app"), ("up", "..")]);
    let files = vec![
        strings(&[MAIN, "a.txt"]),
        strings(&[MAIN, "{{ up }}"]),
        strings(&[MAIN, "{{ missing }}"]),
    ];
    assert_eq!(
        plan(&engine, &files, MAIN, &b, &filter_of(&[]), Platform::Unix).err(),
        Some(RunError::UnsafeSegment { file: 1, segment: 1 })
    );
}

fn pending(name: &str, content: &str) -> PendingTemplate {
    pending_template(name.to_string(), content.to_string())
}

#[test]
fn inheritance_directive_is_found_in_the_content() {
    assert!(pending("a", "{% extends \"base\" %}body").has_extends);
    assert!(pending("a", "text {% extends 'b' %}").has_extends);
    assert!(!pending("a", "{%extends 'b' %}").has_extends);
    assert!(!pending("a", "{% include 'b' %}").has_extends);
    let t = pending("name", "content");
    assert_eq!(t.name, "name");
    assert_eq!(t.content, "content");
}

#[test]
fn bases_are_registered_before_what_extends_them() {
    let list = vec![
        pending("child1", "{% extends \"base\" %}"),
        pending("base", "x"),
        pending("child2", "{% extends \"base\" %}"),
        pending("plain", "y"),
    ];
    let order = order_for_registration(&list);
    let names: Vec<&str> = order.iter().map(|t| t.name.as_str()).collect();
    assert_eq!(names, vec!["base", "plain", "child1", "child2"]);
    assert_eq!(order[2].content, "{% extends \"base\" %}");
}

#[test]
fn registration_stops_at_the_first_template_that_is_refused() {
    let mut engine = new_engine();
    let order = vec![pending("a", "fine"), pending("b", "{% if %}"), pending("c", "{{")];
    assert_eq!(register_all(&mut engine, &order), Err(RunError::TemplateRefused { index: 1 }));
    let mut engine = new_engine();
    assert_eq!(register_all(&mut engine, &vec![pending("a", "fine")]), Ok(()));
    assert_eq!(register_all(&mut engine, &Vec::new()), Ok(()));
}
