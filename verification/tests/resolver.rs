use scaffolder::manifest::{prefill, Manifest, VarDef, VarKind};
use scaffolder::resolver::{apply_default, resolve_defaults};
use scaffolder::values::{merge_bindings, Binding, Bindings, Scalar};

fn var(name: &str, kind: VarKind, default: Option<Scalar>) -> VarDef {
    VarDef { name: name.to_string(), kind, default, choice_labels: None }
}

fn text(name: &str, default: &str) -> VarDef {
    var(name, VarKind::String, Some(Scalar::Str(default.to_string())))
}

fn held(b: &Bindings, name: &str) -> Option<String> {
    b.get(name).and_then(|v| v.as_str()).map(|s| s.to_string())
}

fn names(b: &Bindings) -> Vec<String> {
    let mut out: Vec<String> = Vec::new();
    for e in &b.entries {
        if !out.contains(&e.name) {
            out.push(e.name.clone());
        }
    }
    out.sort();
    out
}

fn same_bindings(a: &Bindings, b: &Bindings) -> bool {
    let na = names(a);
    na == names(b) && na.iter().all(|n| a.get(n).unwrap().same(b.get(n).unwrap()))
}

#[test]
fn default_is_rendered_against_the_other_variables() {
    let defs = vec![text("project_name", "Demo"), text("service", "{{ project_name }}-service")];
    let out = resolve_defaults(&defs, &Bindings::new());
    assert_eq!(held(&out, "project_name").as_deref(), Some("Demo"));
    assert_eq!(held(&out, "service").as_deref(), Some("Demo-service"));
    assert_eq!(names(&out), vec!["project_name".to_string(), "service".to_string()]);
}

#[test]
fn the_order_of_the_variables_does_not_matter() {
    let forward = vec![
        text("a", "x"),
        text("b", "{{ a }}y"),
        text("c", "{{ b }}z{{ a }}"),
        var("flag", VarKind::Bool, Some(Scalar::Bool(true))),
    ];
    let backward = vec![
        text("c", "{{ b }}z{{ a }}"),
        var("flag", VarKind::Bool, Some(Scalar::Bool(true))),
        text("b", "{{ a }}y"),
        text("a", "x"),
    ];
    let one = resolve_defaults(&forward, &Bindings::new());
    let other = resolve_defaults(&backward, &Bindings::new());
    assert!(same_bindings(&one, &other));
    assert_eq!(held(&one, "a").as_deref(), Some("x"));
    assert_eq!(held(&one, "b").as_deref(), Some("xy"));
    assert_eq!(held(&one, "c").as_deref(), Some("xyzx"));
    assert!(other.get("flag").unwrap().same(&Scalar::Bool(true)));
}

#[test]
fn undefined_reference_keeps_the_literal_default() {
    let defs = vec![text("greeting", "{{ missing }}"), text("name", "demo")];
    let out = resolve_defaults(&defs, &Bindings::new());
    assert_eq!(held(&out, "greeting").as_deref(), Some("{{ missing }}"));
    assert_eq!(held(&out, "name").as_deref(), Some("demo"));
}

#[test]
fn broken_expression_keeps_the_literal_default() {
    let defs = vec![text("greeting", "{{ name"), text("name", "demo")];
    let out = resolve_defaults(&defs, &Bindings::new());
    assert_eq!(held(&out, "greeting").as_deref(), Some("{{ name"));
}

#[test]
fn chain_as_deep_as_the_variables_resolves_within_the_budget() {
    let defs = vec![
        text("d", "{{ c }}4"),
        text("c", "{{ b }}3"),
        text("b", "{{ a }}2"),
        text("a", "1"),
    ];
    let out = resolve_defaults(&defs, &Bindings::new());
    assert_eq!(held(&out, "a").as_deref(), Some("1"));
    assert_eq!(held(&out, "b").as_deref(), Some("12"));
    assert_eq!(held(&out, "c").as_deref(), Some("123"));
    assert_eq!(held(&out, "d").as_deref(), Some("1234"));
}

#[test]
fn circle_freezes_when_the_budget_is_used_up() {
    let defs = vec![text("a", "{{ b }}x"), text("b", "{{ a }}y")];
    let out = resolve_defaults(&defs, &Bindings::new());
    // Four passes for two variables, each adding one letter to each.
    assert_eq!(held(&out, "a").as_deref(), Some("{{ b }}xyxyxyx"));
    assert_eq!(held(&out, "b").as_deref(), Some("{{ b }}xyxyxyxy"));
}

#[test]
fn no_variable_at_all_leaves_the_bindings() {
    let mut initial = Bindings::new();
    initial.insert("kept", Scalar::Int(3));
    let out = resolve_defaults(&Vec::new(), &initial);
    assert!(same_bindings(&out, &initial));
}

#[test]
fn literal_default_is_bound_where_nothing_is() {
    let defs = vec![
        var("use_ci", VarKind::Bool, Some(Scalar::Bool(true))),
        var("port", VarKind::Number, Some(Scalar::Int(8080))),
    ];
    let out = resolve_defaults(&defs, &Bindings::new());
    assert!(out.get("use_ci").unwrap().same(&Scalar::Bool(true)));
    assert!(out.get("port").unwrap().same(&Scalar::Int(8080)));
}

#[test]
fn literal_default_leaves_what_is_bound() {
    let defs = vec![
        var("use_ci", VarKind::Bool, Some(Scalar::Bool(true))),
        var("port", VarKind::Number, Some(Scalar::Int(8080))),
    ];
    let mut initial = Bindings::new();
    initial.insert("use_ci", Scalar::Bool(false));
    let out = resolve_defaults(&defs, &initial);
    assert!(out.get("use_ci").unwrap().same(&Scalar::Bool(false)));
    assert!(out.get("port").unwrap().same(&Scalar::Int(8080)));
}

#[test]
fn text_default_replaces_what_is_bound() {
    let defs = vec![text("name", "demo"), text("title", "{{ name }}!")];
    let mut initial = Bindings::new();
    initial.insert("title", Scalar::Str("old".to_string()));
    initial.insert("extra", Scalar::Str("stays".to_string()));
    let out = resolve_defaults(&defs, &initial);
    assert_eq!(held(&out, "title").as_deref(), Some("demo!"));
    assert_eq!(held(&out, "extra").as_deref(), Some("stays"));
}

#[test]
fn variable_without_default_is_left_unbound() {
    let defs = vec![var("free", VarKind::String, None), text("name", "demo")];
    let out = resolve_defaults(&defs, &Bindings::new());
    assert!(!out.contains("free"));
    assert!(out.contains("name"));
}

#[test]
fn numbers_and_truth_values_can_be_read_by_expressions() {
    let defs = vec![
        var("port", VarKind::Number, Some(Scalar::Int(-7))),
        var("on", VarKind::Bool, Some(Scalar::Bool(true))),
        text("line", "{{ port }}{% if on %} on{% endif %}"),
    ];
    let out = resolve_defaults(&defs, &Bindings::new());
    assert_eq!(held(&out, "line").as_deref(), Some("-7 on"));
}

#[test]
fn evaluate_defaults_is_resolution_of_the_manifest() {
    let manifest = Manifest {
        variables: vec![text("a", "1"), text("b", "{{ a }}{{ a }}")],
        copy_without_render: Vec::new(),
    };
    let out = manifest.evaluate_defaults(&manifest.prefill());
    assert_eq!(held(&out, "b").as_deref(), Some("11"));
}

#[test]
fn prefill_binds_every_default_as_written() {
    let defs = vec![
        text("a", "{{ b }}"),
        var("n", VarKind::Number, Some(Scalar::Int(1))),
        var("none", VarKind::String, None),
        text("a", "second"),
    ];
    let out = prefill(&defs);
    assert_eq!(held(&out, "a").as_deref(), Some("second"));
    assert!(out.get("n").unwrap().same(&Scalar::Int(1)));
    assert!(!out.contains("none"));
}

#[test]
fn apply_default_binds_the_rendered_text() {
    let def = text("a", "{{ b }}");
    let mut b = Bindings::new();
    assert!(apply_default(&mut b, &def, Some("done".to_string())));
    assert_eq!(held(&b, "a").as_deref(), Some("done"));
    assert!(!apply_default(&mut b, &def, Some("done".to_string())));
    assert_eq!(held(&b, "a").as_deref(), Some("done"));
}

#[test]
fn apply_default_falls_back_to_the_text_as_written() {
    let def = text("a", "{{ b }}");
    let mut b = Bindings::new();
    assert!(apply_default(&mut b, &def, None));
    assert_eq!(held(&b, "a").as_deref(), Some("{{ b }}"));
    assert!(!apply_default(&mut b, &def, None));
}

#[test]
fn apply_default_binds_a_literal_once() {
    let def = var("n", VarKind::Number, Some(Scalar::Int(5)));
    let mut b = Bindings::new();
    assert!(apply_default(&mut b, &def, None));
    assert!(b.get("n").unwrap().same(&Scalar::Int(5)));
    b.insert("n", Scalar::Int(6));
    assert!(!apply_default(&mut b, &def, None));
    assert!(b.get("n").unwrap().same(&Scalar::Int(6)));
}

#[test]
fn apply_default_without_default_does_nothing() {
    let def = var("n", VarKind::Number, None);
    let mut b = Bindings::new();
    assert!(!apply_default(&mut b, &def, Some("x".to_string())));
    assert!(!b.contains("n"));
}

#[test]
fn values_are_the_same_only_within_one_kind() {
    assert!(Scalar::Str("1".to_string()).same(&Scalar::Str("1".to_string())));
    assert!(!Scalar::Str("1".to_string()).same(&Scalar::Int(1)));
    assert!(!Scalar::Bool(true).same(&Scalar::Int(1)));
    assert!(!Scalar::Int(1).same(&Scalar::Int(2)));
    assert_eq!(Scalar::Str("t".to_string()).as_str(), Some("t"));
    assert_eq!(Scalar::Int(1).as_str(), None);
    assert!(Scalar::Bool(false).copy().same(&Scalar::Bool(false)));
}

#[test]
fn insert_replaces_and_get_finds() {
    let mut b = Bindings::new();
    assert!(b.get("a").is_none());
    b.insert("a", Scalar::Int(1));
    b.insert("b", Scalar::Int(2));
    b.insert("a", Scalar::Int(3));
    assert!(b.get("a").unwrap().same(&Scalar::Int(3)));
    assert!(b.get("b").unwrap().same(&Scalar::Int(2)));
    assert_eq!(names(&b), vec!["a".to_string(), "b".to_string()]);
    assert!(same_bindings(&b.copy(), &b));
}

#[test]
fn merge_prefers_the_bindings_that_are_merged_in() {
    let mut into = Bindings::new();
    into.insert("a", Scalar::Int(1));
    into.insert("b", Scalar::Int(2));
    let mut from = Bindings::new();
    from.insert("b", Scalar::Str("two".to_string()));
    from.insert("c", Scalar::Bool(true));
    merge_bindings(&mut into, &from);
    assert!(into.get("a").unwrap().same(&Scalar::Int(1)));
    assert!(into.get("b").unwrap().same(&Scalar::Str("two".to_string())));
    assert!(into.get("c").unwrap().same(&Scalar::Bool(true)));
    assert_eq!(names(&into).len(), 3);
}

#[test]
fn distinct_keeps_the_first_entry_of_each_name() {
    let b = Bindings {
        entries: vec![
            Binding { name: "a".to_string(), value: Scalar::Int(1) },
            Binding { name: "b".to_string(), value: Scalar::Int(2) },
            Binding { name: "a".to_string(), value: Scalar::Int(3) },
        ],
    };
    let d = b.distinct();
    assert_eq!(d.entries.len(), 2);
    assert!(d.get("a").unwrap().same(&Scalar::Int(1)));
    assert!(d.get("b").unwrap().same(&Scalar::Int(2)));
    assert!(same_bindings(&d, &b));
    // The first entry of a name is what an expression sees.
    let defs = vec![text("line", "{{ a }}")];
    let out = resolve_defaults(&defs, &b);
    assert_eq!(held(&out, "line").as_deref(), Some("1"));
}
