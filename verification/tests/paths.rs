use scaffolder::guard::{
    is_prefix_exec, safe_resolve_under, safe_resolve_under_canon, Component, Entry, PathFacts,
    SafetyError, Target,
};
use scaffolder::paths::{
    is_safe_path_segment, is_safe_path_segment_on, is_safe_rel_path, is_safe_rel_path_on,
    is_windows_reserved_basename, Platform,
};
use scaffolder::text::{is_space_char, split_chars, to_chars, to_string, trim_space};

fn strings(items: &[&str]) -> Vec<String> {
    items.iter().map(|s| s.to_string()).collect()
}

fn normal(items: &[&str]) -> Vec<Component> {
    items.iter().map(|s| Component::Normal(s.to_string())).collect()
}

fn facts(entries: &[Entry], target: Target) -> PathFacts {
    PathFacts { entries: entries.to_vec(), target }
}

#[test]
fn segment_rule_shared_by_all_platforms() {
    assert!(is_safe_path_segment("src"));
    assert!(is_safe_path_segment("a.b"));
    assert!(is_safe_path_segment("..."));
    assert!(is_safe_path_segment(".hidden"));
    assert!(!is_safe_path_segment(""));
    assert!(!is_safe_path_segment("."));
    assert!(!is_safe_path_segment(".."));
    assert!(!is_safe_path_segment("a/b"));
    assert!(!is_safe_path_segment("a\\b"));
    assert!(!is_safe_path_segment("/"));
}

#[test]
fn segment_rule_leaves_windows_names_alone_elsewhere() {
    assert!(is_safe_path_segment("CON"));
    assert!(is_safe_path_segment("a:b"));
    assert!(is_safe_path_segment("name."));
    assert!(is_safe_path_segment("name "));
    assert!(is_safe_path_segment_on("CON", Platform::Unix));
    assert!(is_safe_path_segment_on("a:b", Platform::Unix));
}

#[test]
fn segment_rule_on_windows() {
    assert!(is_safe_path_segment_on("src", Platform::Windows));
    assert!(is_safe_path_segment_on("console", Platform::Windows));
    assert!(is_safe_path_segment_on("a.con", Platform::Windows));
    assert!(!is_safe_path_segment_on("a:b", Platform::Windows));
    assert!(!is_safe_path_segment_on("name.", Platform::Windows));
    assert!(!is_safe_path_segment_on("name ", Platform::Windows));
    assert!(!is_safe_path_segment_on("CON", Platform::Windows));
    assert!(!is_safe_path_segment_on("con", Platform::Windows));
    assert!(!is_safe_path_segment_on("nul.txt", Platform::Windows));
    assert!(!is_safe_path_segment_on("Com1.tar.gz", Platform::Windows));
    assert!(!is_safe_path_segment_on("..", Platform::Windows));
    assert!(!is_safe_path_segment_on("", Platform::Windows));
}

#[test]
fn reserved_device_names() {
    for name in ["CON", "PRN", "AUX", "NUL", "con", "Prn", "aUx", "nul"] {
        assert!(is_windows_reserved_basename(name), "{}", name);
    }
    for digit in 1..=9 {
        assert!(is_windows_reserved_basename(&format!("COM{}", digit)));
        assert!(is_windows_reserved_basename(&format!("lpt{}", digit)));
    }
    for name in ["COM0", "LPT0", "COM10", "COM", "LPT", "CONX", "CO", "", "COMA", "LPT:", "NULL"] {
        assert!(!is_windows_reserved_basename(name), "{}", name);
    }
}

#[test]
fn relative_paths() {
    assert!(is_safe_rel_path("a"));
    assert!(is_safe_rel_path("a/b/c.txt"));
    assert!(is_safe_rel_path("a\\b"));
    assert!(!is_safe_rel_path(""));
    assert!(!is_safe_rel_path("/etc/passwd"));
    assert!(!is_safe_rel_path("\\share"));
    assert!(!is_safe_rel_path("a/../b"));
    assert!(!is_safe_rel_path("../b"));
    assert!(!is_safe_rel_path("a/./b"));
    assert!(!is_safe_rel_path("a//b"));
    assert!(!is_safe_rel_path("a/"));
    assert!(!is_safe_rel_path("a\\..\\b"));
}

#[test]
fn relative_paths_on_windows() {
    assert!(is_safe_rel_path_on("a/b", Platform::Windows));
    assert!(!is_safe_rel_path_on("C:/x", Platform::Windows));
    assert!(!is_safe_rel_path_on("a/nul/b", Platform::Windows));
    assert!(!is_safe_rel_path_on("a/b.", Platform::Windows));
    assert!(is_safe_rel_path_on("C:/x", Platform::Unix));
}

#[test]
fn white_space_is_what_the_standard_library_says() {
    let mut n: u32 = 0;
    while n <= 0x10FFFF {
        if let Some(c) = char::from_u32(n) {
            assert_eq!(is_space_char(c), c.is_whitespace(), "U+{:04X}", n);
        }
        n += 1;
    }
}

#[test]
fn trimming_is_what_the_standard_library_does() {
    for s in ["", " ", "  a  ", "\ta b\n", "a", " \u{a0}x\u{3000} ", "\u{200b}x", " x y "] {
        let got = to_string(&trim_space(&to_chars(s)));
        assert_eq!(got, s.trim(), "{:?}", s);
    }
}

#[test]
fn splitting_is_what_the_standard_library_does() {
    for s in ["", "a", "/", "a/b", "/a", "a/", "a//b", "//", "a/b/c/"] {
        let got: Vec<String> = split_chars(&to_chars(s), '/').iter().map(to_string).collect();
        let want: Vec<String> = s.split('/').map(|p| p.to_string()).collect();
        assert_eq!(got, want, "{:?}", s);
    }
}

#[test]
fn text_round_trip() {
    for s in ["", "abc", "h\u{e9}llo", "\u{1f600} ok"] {
        assert_eq!(to_string(&to_chars(s)), s);
    }
}

#[test]
fn prefix_of_component_lists() {
    assert!(is_prefix_exec(&strings(&["/", "out"]), &strings(&["/", "out", "a"])));
    assert!(is_prefix_exec(&strings(&["/", "out"]), &strings(&["/", "out"])));
    assert!(is_prefix_exec(&strings(&[]), &strings(&["x"])));
    assert!(!is_prefix_exec(&strings(&["/", "out"]), &strings(&["/", "other", "a"])));
    assert!(!is_prefix_exec(&strings(&["/", "out", "a"]), &strings(&["/", "out"])));
    assert!(!is_prefix_exec(&strings(&["/", "out"]), &strings(&["/", "outside"])));
}

#[test]
fn guard_accepts_a_new_path_under_the_root() {
    let root = strings(&["/", "out"]);
    let rel = normal(&["pkg", "mod.rs"]);
    let f = facts(&[Entry::Plain, Entry::Absent], Target::Absent);
    assert_eq!(
        safe_resolve_under_canon(&root, &rel, &f, Platform::Unix),
        Ok(strings(&["/", "out", "pkg", "mod.rs"]))
    );
}

#[test]
fn guard_accepts_an_existing_path_under_the_root() {
    let root = strings(&["/", "out"]);
    let rel = normal(&["pkg"]);
    let f = facts(&[Entry::Plain], Target::Canonical(strings(&["/", "out", "pkg"])));
    assert_eq!(
        safe_resolve_under_canon(&root, &rel, &f, Platform::Unix),
        Ok(strings(&["/", "out", "pkg"]))
    );
}

#[test]
fn guard_accepts_the_root_itself() {
    let root = strings(&["/", "out"]);
    let f = facts(&[], Target::Canonical(strings(&["/", "out"])));
    assert_eq!(safe_resolve_under_canon(&root, &vec![], &f, Platform::Unix), Ok(root.clone()));
}

#[test]
fn guard_refuses_parent_and_anchors() {
    let root = strings(&["/", "out"]);
    let all_plain = facts(&[Entry::Plain, Entry::Plain, Entry::Plain], Target::Absent);
    let rel = vec![Component::Normal("a".to_string()), Component::ParentDir];
    assert_eq!(
        safe_resolve_under_canon(&root, &rel, &all_plain, Platform::Unix),
        Err(SafetyError::UnsupportedComponent { index: 1 })
    );
    let rel = vec![Component::RootDir, Component::Normal("etc".to_string())];
    assert_eq!(
        safe_resolve_under_canon(&root, &rel, &all_plain, Platform::Unix),
        Err(SafetyError::UnsupportedComponent { index: 0 })
    );
    let rel = vec![Component::Prefix, Component::Normal("x".to_string())];
    assert_eq!(
        safe_resolve_under_canon(&root, &rel, &all_plain, Platform::Unix),
        Err(SafetyError::UnsupportedComponent { index: 0 })
    );
    let rel = vec![Component::CurDir, Component::Normal("x".to_string())];
    assert_eq!(
        safe_resolve_under_canon(&root, &rel, &all_plain, Platform::Unix),
        Err(SafetyError::UnsupportedComponent { index: 0 })
    );
}

#[test]
fn guard_refuses_a_symlink_at_any_depth() {
    let root = strings(&["/", "out"]);
    let rel = normal(&["a", "b", "c"]);
    for depth in 0..3 {
        let mut entries = vec![Entry::Plain, Entry::Plain, Entry::Plain];
        entries[depth] = Entry::Symlink;
        let f = PathFacts { entries, target: Target::Absent };
        assert_eq!(
            safe_resolve_under_canon(&root, &rel, &f, Platform::Unix),
            Err(SafetyError::SymlinkComponent { index: depth })
        );
    }
}

#[test]
fn guard_refuses_an_unsafe_name() {
    let root = strings(&["/", "out"]);
    let f = facts(&[Entry::Absent], Target::Absent);
    assert_eq!(
        safe_resolve_under_canon(&root, &normal(&["a\\b"]), &f, Platform::Unix),
        Err(SafetyError::UnsafeSegment { index: 0 })
    );
    assert_eq!(
        safe_resolve_under_canon(&root, &normal(&["NUL"]), &f, Platform::Windows),
        Err(SafetyError::UnsafeSegment { index: 0 })
    );
    assert_eq!(
        safe_resolve_under_canon(&root, &normal(&["NUL"]), &f, Platform::Unix),
        Ok(strings(&["/", "out", "NUL"]))
    );
}

#[test]
fn guard_reports_the_first_problem() {
    let root = strings(&["/", "out"]);
    let rel = vec![
        Component::Normal("a".to_string()),
        Component::Normal("..x/".to_string()),
        Component::ParentDir,
    ];
    let f = facts(&[Entry::Symlink, Entry::Plain, Entry::Plain], Target::Unresolved);
    assert_eq!(
        safe_resolve_under_canon(&root, &rel, &f, Platform::Unix),
        Err(SafetyError::SymlinkComponent { index: 0 })
    );
    let f = facts(&[Entry::Plain, Entry::Symlink, Entry::Plain], Target::Unresolved);
    assert_eq!(
        safe_resolve_under_canon(&root, &rel, &f, Platform::Unix),
        Err(SafetyError::UnsafeSegment { index: 1 })
    );
}

#[test]
fn guard_refuses_what_cannot_be_read() {
    let root = strings(&["/", "out"]);
    let rel = normal(&["a", "b"]);
    let f = facts(&[Entry::Plain, Entry::Unreadable], Target::Absent);
    assert_eq!(
        safe_resolve_under_canon(&root, &rel, &f, Platform::Unix),
        Err(SafetyError::Unreadable { index: 1 })
    );
    let f = facts(&[Entry::Plain], Target::Absent);
    assert_eq!(
        safe_resolve_under_canon(&root, &rel, &f, Platform::Unix),
        Err(SafetyError::Unreadable { index: 1 })
    );
    let f = facts(&[Entry::Plain, Entry::Plain], Target::Unresolved);
    assert_eq!(
        safe_resolve_under_canon(&root, &rel, &f, Platform::Unix),
        Err(SafetyError::Unresolved)
    );
}

#[test]
fn guard_refuses_an_escape_from_the_root() {
    let root = strings(&["/", "out"]);
    let rel = normal(&["a"]);
    let f = facts(&[Entry::Plain], Target::Canonical(strings(&["/", "elsewhere", "a"])));
    assert_eq!(
        safe_resolve_under_canon(&root, &rel, &f, Platform::Unix),
        Err(SafetyError::EscapesRoot)
    );
    let f = facts(&[Entry::Plain], Target::Canonical(strings(&["/", "outside"])));
    assert_eq!(
        safe_resolve_under_canon(&root, &rel, &f, Platform::Unix),
        Err(SafetyError::EscapesRoot)
    );
}

#[test]
fn guard_needs_a_root() {
    let rel = normal(&["a"]);
    let f = facts(&[Entry::Absent], Target::Absent);
    assert_eq!(
        safe_resolve_under(&None, &rel, &f, Platform::Unix),
        Err(SafetyError::RootUnavailable)
    );
    assert_eq!(
        safe_resolve_under(&Some(strings(&["/", "r"])), &rel, &f, Platform::Unix),
        Ok(strings(&["/", "r", "a"]))
    );
}

#[test]
fn guard_refuses_a_link_that_points_nowhere() {
    // A link is a link whether or not there is anything where it points.
    let root = strings(&["/", "out"]);
    let f = facts(&[Entry::Symlink], Target::Unresolved);
    assert_eq!(
        safe_resolve_under_canon(&root, &normal(&["c"]), &f, Platform::Unix),
        Err(SafetyError::SymlinkComponent { index: 0 })
    );
    let f = facts(&[Entry::Symlink], Target::Absent);
    assert_eq!(
        safe_resolve_under_canon(&root, &normal(&["c"]), &f, Platform::Unix),
        Err(SafetyError::SymlinkComponent { index: 0 })
    );
    let f = facts(&[Entry::Plain, Entry::Symlink], Target::Absent);
    assert_eq!(
        safe_resolve_under_canon(&root, &normal(&["d", "c"]), &f, Platform::Unix),
        Err(SafetyError::SymlinkComponent { index: 1 })
    );
}
