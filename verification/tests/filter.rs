use scaffolder::filter::{glob_matches, pattern_matches, segment_matches, CopyFilter, PatternError};
use scaffolder::manifest::Manifest;

fn chars(s: &str) -> Vec<char> {
    s.chars().collect()
}

fn segments(s: &str) -> Vec<Vec<char>> {
    s.split('/').map(chars).collect()
}

fn filter_of(patterns: &[&str]) -> CopyFilter {
    let raw: Vec<String> = patterns.iter().map(|p| p.to_string()).collect();
    CopyFilter::compile(&raw).unwrap()
}

#[test]
fn double_star_matches_nested_and_direct_children() {
    let f = filter_of(&["tests/**"]);
    assert!(f.is_match("tests/unit/test_a.py"));
    assert!(f.is_match("tests/x"));
}

#[test]
fn double_star_matches_no_segment_at_all() {
    let f = filter_of(&["tests/**"]);
    assert!(f.is_match("tests"));
    assert!(!f.is_match("test"));
    assert!(!f.is_match("src/tests/x"));
}

#[test]
fn star_stays_within_one_segment() {
    let f = filter_of(&["*.lock"]);
    assert!(f.is_match("Cargo.lock"));
    assert!(!f.is_match("dir/Cargo.lock"));
}

#[test]
fn bracket_fails_at_compile_time() {
    let raw = vec!["ok/**".to_string(), "src/[ab].rs".to_string()];
    assert_eq!(CopyFilter::compile(&raw).err(), Some(PatternError::Bracket { index: 1 }));
    let raw = vec!["a]".to_string()];
    assert_eq!(CopyFilter::compile(&raw).err(), Some(PatternError::Bracket { index: 0 }));
}

#[test]
fn empty_pattern_fails_at_compile_time() {
    let raw = vec!["  \t ".to_string()];
    assert_eq!(CopyFilter::compile(&raw).err(), Some(PatternError::Empty { index: 0 }));
    let raw = vec!["a".to_string(), "".to_string(), "[".to_string()];
    assert_eq!(CopyFilter::compile(&raw).err(), Some(PatternError::Empty { index: 1 }));
}

#[test]
fn first_wrong_pattern_is_reported() {
    let raw = vec!["[".to_string(), "".to_string()];
    assert_eq!(CopyFilter::compile(&raw).err(), Some(PatternError::Bracket { index: 0 }));
}

#[test]
fn patterns_are_trimmed_and_backslashes_read_as_slashes() {
    let f = filter_of(&["  docs\\*.md  "]);
    assert_eq!(f.len(), 1);
    assert!(f.is_match("docs/readme.md"));
    assert!(f.is_match("docs\\readme.md"));
    assert!(!f.is_match("docs/readme.txt"));
}

#[test]
fn any_pattern_is_enough() {
    let f = filter_of(&["*.png", "assets/**", "LICENSE"]);
    assert!(f.is_match("logo.png"));
    assert!(f.is_match("assets/fonts/a.ttf"));
    assert!(f.is_match("LICENSE"));
    assert!(!f.is_match("src/main.rs"));
}

#[test]
fn empty_filter_matches_nothing() {
    let f = filter_of(&[]);
    assert_eq!(f.len(), 0);
    assert!(!f.is_match("a"));
    assert!(!f.is_match(""));
}

#[test]
fn matching_is_case_sensitive() {
    let f = filter_of(&["*.LOCK"]);
    assert!(!f.is_match("Cargo.lock"));
    assert!(f.is_match("Cargo.LOCK"));
}

#[test]
fn segment_without_star_must_be_equal() {
    assert!(segment_matches(&chars("abc"), &chars("abc")));
    assert!(!segment_matches(&chars("abc"), &chars("abcd")));
    assert!(!segment_matches(&chars("abc"), &chars("ab")));
    assert!(segment_matches(&chars(""), &chars("")));
}

#[test]
fn segment_star_forms() {
    assert!(segment_matches(&chars("*"), &chars("")));
    assert!(segment_matches(&chars("*"), &chars("anything")));
    assert!(segment_matches(&chars("a*"), &chars("a")));
    assert!(segment_matches(&chars("a*"), &chars("abc")));
    assert!(!segment_matches(&chars("a*"), &chars("ba")));
    assert!(segment_matches(&chars("*a"), &chars("ba")));
    assert!(!segment_matches(&chars("*a"), &chars("ab")));
    assert!(segment_matches(&chars("a*c"), &chars("abc")));
    assert!(segment_matches(&chars("a*c"), &chars("ac")));
    assert!(!segment_matches(&chars("a*c"), &chars("abd")));
    assert!(segment_matches(&chars("a**c"), &chars("abc")));
    assert!(segment_matches(&chars("*b*"), &chars("abc")));
    assert!(!segment_matches(&chars("*b*"), &chars("acd")));
}

#[test]
fn segment_tokens_are_taken_at_their_first_occurrence() {
    // The last token is searched from the left and must end the segment
    // where it is found first.
    assert!(!segment_matches(&chars("*.lock"), &chars("a.lock.lock")));
    assert!(segment_matches(&chars("*.lock*"), &chars("a.lock.lock")));
    assert!(!segment_matches(&chars("a*b"), &chars("abxb")));
}

#[test]
fn glob_over_segments() {
    assert!(glob_matches(&segments("a/**/d"), &segments("a/b/c/d")));
    assert!(glob_matches(&segments("a/**/d"), &segments("a/d")));
    assert!(!glob_matches(&segments("a/**/d"), &segments("a/b/c")));
    assert!(glob_matches(&segments("**"), &segments("x/y")));
    assert!(glob_matches(&segments("**/*.rs"), &segments("main.rs")));
    assert!(glob_matches(&segments("**/*.rs"), &segments("src/bin/main.rs")));
    assert!(!glob_matches(&segments("**/*.rs"), &segments("src/bin/main.py")));
    assert!(glob_matches(&segments("**/b/**/d"), &segments("a/b/c/b/d")));
    assert!(!glob_matches(&segments("a/b"), &segments("a")));
    assert!(!glob_matches(&segments("a"), &segments("a/b")));
}

#[test]
fn many_double_stars_are_answered_quickly() {
    let pat = segments("**/a/**/a/**/a/**/a/**/a/**/a/**/a/**/a/**/a/**/a/**/b");
    let path: Vec<Vec<char>> = (0..200).map(|_| chars("a")).collect();
    assert!(!glob_matches(&pat, &path));
}

#[test]
fn pattern_and_path_are_split_at_slashes() {
    assert!(pattern_matches(&chars("src/*.rs"), &chars("src/lib.rs")));
    assert!(!pattern_matches(&chars("src/*.rs"), &chars("src/a/lib.rs")));
    assert!(pattern_matches(&chars(""), &chars("")));
    assert!(!pattern_matches(&chars(""), &chars("a")));
    assert!(pattern_matches(&chars("a//b"), &chars("a//b")));
    assert!(!pattern_matches(&chars("a//b"), &chars("a/b")));
}

#[test]
fn manifest_compiles_its_patterns() {
    let mut m = Manifest::default();
    m.copy_without_render = vec!["tests/**".to_string(), " *.lock ".to_string()];
    let f = m.compile_copy_filter().unwrap();
    assert_eq!(f.len(), 2);
    assert!(f.is_match("tests/unit/test_a.py"));
    assert!(f.is_match("Cargo.lock"));
    assert!(!f.is_match("dir/Cargo.lock"));
    m.copy_without_render.push("x[1]".to_string());
    assert_eq!(m.compile_copy_filter().err(), Some(PatternError::Bracket { index: 2 }));
}
