use scaffolder::slug::sanitize_slug_python;

#[test]
fn slug_of_plain_names() {
    assert_eq!(sanitize_slug_python("demo-app"), "demo_app");
    assert_eq!(sanitize_slug_python("My Project"), "my_project");
    assert_eq!(sanitize_slug_python("already_fine"), "already_fine");
    assert_eq!(sanitize_slug_python("ABC"), "abc");
    assert_eq!(sanitize_slug_python("a1b2"), "a1b2");
}

#[test]
fn slug_collapses_runs_of_underscores() {
    assert_eq!(sanitize_slug_python("a -- b"), "a_b");
    assert_eq!(sanitize_slug_python("a___b"), "a_b");
    assert_eq!(sanitize_slug_python("a_-_b"), "a_b");
}

#[test]
fn slug_drops_underscores_at_both_ends() {
    assert_eq!(sanitize_slug_python("  hello  "), "hello");
    assert_eq!(sanitize_slug_python("__x__"), "x");
    assert_eq!(sanitize_slug_python("-x-"), "x");
}

#[test]
fn slug_guards_a_leading_digit() {
    assert_eq!(sanitize_slug_python("1abc"), "_1abc");
    assert_eq!(sanitize_slug_python("2024 plan"), "_2024_plan");
    assert_eq!(sanitize_slug_python("_9"), "_9");
    assert_eq!(sanitize_slug_python("--7--"), "_7");
}

#[test]
fn slug_of_nothing_usable_is_empty() {
    assert_eq!(sanitize_slug_python(""), "");
    assert_eq!(sanitize_slug_python("___"), "");
    assert_eq!(sanitize_slug_python("!?"), "");
    assert_eq!(sanitize_slug_python("   "), "");
}

#[test]
fn slug_turns_letters_outside_ascii_into_underscores() {
    assert_eq!(sanitize_slug_python("caf\u{e9}"), "caf");
    assert_eq!(sanitize_slug_python("\u{c9}t\u{e9}"), "t");
    assert_eq!(sanitize_slug_python("na\u{ef}ve app"), "na_ve_app");
    assert_eq!(sanitize_slug_python("\u{4f60}\u{597d}"), "");
}

#[test]
fn slug_lowers_every_ascii_capital() {
    assert_eq!(
        sanitize_slug_python("ABCDEFGHIJKLMNOPQRSTUVWXYZ"),
        "abcdefghijklmnopqrstuvwxyz"
    );
    assert_eq!(sanitize_slug_python("@[`{"), "");
    assert_eq!(sanitize_slug_python("a@Z[b"), "a_z_b");
}

#[test]
fn slug_is_idempotent() {
    let inputs = [
        "demo-app",
        "My Project",
        "1abc",
        "__x__",
        "a -- b",
        "",
        "9",
        "_9_",
        "Hello, World! 42",
        "caf\u{e9} au lait",
        "--7--up",
    ];
    for input in inputs {
        let once = sanitize_slug_python(input);
        let twice = sanitize_slug_python(&once);
        assert_eq!(once, twice);
    }
}
