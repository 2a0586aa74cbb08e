//! The copy filter: glob patterns that say which files of a template are
//! copied byte for byte instead of being rendered.
//!
//! A pattern is a list of segments separated by `/`. Inside a segment `*`
//! stands for any run of characters; a segment that is exactly `**` stands
//! for any number of whole segments, none included.

use crate::text::{
    contains_char, find_from, occurs_at, occurs_at_exec, replace_char, replaced, same_chars,
    split, split_chars, to_chars, to_string, trim_space, trimmed_space, views,
};
use vstd::prelude::*;

verus! {

/// The first position at or after `from` where `token` occurs in `s`.
pub open spec fn first_occurrence(s: Seq<char>, from: int, token: Seq<char>) -> Option<int>
    decreases s.len() - from,
{
    if from < 0 || from + token.len() > s.len() {
        None
    } else if occurs_at(s, from, token) {
        Some(from)
    } else if from >= s.len() {
        None
    } else {
        first_occurrence(s, from + 1, token)
    }
}

/// Where the walk over the tokens of a segment pattern ends in `s`, when it
/// starts at token `i` and position `at`; `None` when a token is not found.
/// An empty token takes no room. The first token, when it is not empty, must
/// stand right at `at`. Every later token is taken at its first occurrence
/// at or after the position reached.
pub open spec fn walk(tokens: Seq<Seq<char>>, i: int, s: Seq<char>, at: int) -> Option<int>
    decreases tokens.len() - i,
{
    if i < 0 || i >= tokens.len() {
        Some(at)
    } else if tokens[i].len() == 0 {
        walk(tokens, i + 1, s, at)
    } else if i == 0 {
        if occurs_at(s, at, tokens[0]) {
            walk(tokens, 1, s, at + tokens[0].len())
        } else {
            None
        }
    } else {
        match first_occurrence(s, at, tokens[i]) {
            Some(found) => walk(tokens, i + 1, s, found + tokens[i].len()),
            None => None,
        }
    }
}

/// Whether the segment pattern `pat` matches the segment `s`. Without `*`
/// the two must be equal. With it, the pattern is cut at each `*` into
/// tokens, the tokens are walked from left to right, and unless the pattern
/// ends with `*` the walk must end where `s` ends.
pub open spec fn segment_match(pat: Seq<char>, s: Seq<char>) -> bool {
    if !pat.contains('*') {
        pat == s
    } else {
        match walk(split(pat, '*'), 0, s, 0) {
            Some(end) => pat.last() == '*' || end == s.len(),
            None => false,
        }
    }
}

pub open spec fn double_star() -> Seq<char> {
    seq!['*', '*']
}

/// Whether the pattern segments from `i` on match the path segments from `j`
/// on. `**` as the last pattern segment stands for all that is left.
/// Elsewhere it stands for nothing, so that the rest of the pattern has to
/// match from `j`, or it takes the segment at `j` and stands again at
/// `j + 1`.
pub open spec fn matches_from(p: Seq<Seq<char>>, s: Seq<Seq<char>>, i: int, j: int) -> bool
    decreases p.len() - i, s.len() - j,
{
    if i < 0 || i >= p.len() {
        j >= s.len()
    } else if p[i] == double_star() {
        ||| i == p.len() - 1
        ||| matches_from(p, s, i + 1, j)
        ||| (j < s.len() && matches_from(p, s, i, j + 1))
    } else {
        j < s.len() && segment_match(p[i], s[j]) && matches_from(p, s, i + 1, j + 1)
    }
}

/// Whether the pattern segments `p` match the path segments `s`.
pub open spec fn glob_match(p: Seq<Seq<char>>, s: Seq<Seq<char>>) -> bool {
    matches_from(p, s, 0, 0)
}

/// Whether the pattern `pat` matches the path `path`, both written with `/`.
pub open spec fn pattern_match(pat: Seq<char>, path: Seq<char>) -> bool {
    glob_match(split(pat, '/'), split(path, '/'))
}

/// Whether one of `patterns` matches `path`, once `\` in the path is read as
/// `/`.
pub open spec fn any_match(patterns: Seq<Seq<char>>, path: Seq<char>) -> bool {
    exists|i: int|
        0 <= i < patterns.len() && #[trigger] pattern_match(
            patterns[i],
            replaced(path, '\\', '/'),
        )
}

/// `**` stands for any number of whole path segments, none included: where
/// it is not the last pattern segment, the pattern matches from `j` exactly
/// when the rest of the pattern matches from some position at or after `j`.
pub proof fn lemma_double_star(p: Seq<Seq<char>>, s: Seq<Seq<char>>, i: int, j: int)
    requires
        0 <= i < p.len() - 1,
        0 <= j <= s.len(),
        p[i] == double_star(),
    ensures
        matches_from(p, s, i, j) <==> exists|k: int|
            j <= k && k <= s.len() && #[trigger] matches_from(p, s, i + 1, k),
    decreases s.len() - j,
{
    let later = |from: int|
        exists|k: int| from <= k && k <= s.len() && #[trigger] matches_from(p, s, i + 1, k);
    if j < s.len() {
        lemma_double_star(p, s, i, j + 1);
        assert(matches_from(p, s, i, j + 1) <==> later(j + 1));
        assert(matches_from(p, s, i, j) <==> matches_from(p, s, i + 1, j) || matches_from(
            p,
            s,
            i,
            j + 1,
        ));
        if matches_from(p, s, i + 1, j) {
            assert(later(j));
        }
        if later(j + 1) {
            let k = choose|k: int|
                j + 1 <= k && k <= s.len() && #[trigger] matches_from(p, s, i + 1, k);
            assert(j <= k && k <= s.len() && matches_from(p, s, i + 1, k));
            assert(later(j));
        }
        if later(j) {
            let k = choose|k: int|
                j <= k && k <= s.len() && #[trigger] matches_from(p, s, i + 1, k);
            if k > j {
                assert(j + 1 <= k && k <= s.len() && matches_from(p, s, i + 1, k));
                assert(later(j + 1));
            }
        }
    } else {
        assert(matches_from(p, s, i, j) <==> matches_from(p, s, i + 1, j));
        if matches_from(p, s, i + 1, j) {
            assert(later(j));
        }
        if later(j) {
            let k = choose|k: int|
                j <= k && k <= s.len() && #[trigger] matches_from(p, s, i + 1, k);
            assert(k == j);
        }
    }
}

proof fn lemma_first_occurrence(s: Seq<char>, from: int, token: Seq<char>, at: int)
    requires
        0 <= from <= at,
        occurs_at(s, at, token),
        forall|k: int| from <= k < at ==> !occurs_at(s, k, token),
    ensures
        first_occurrence(s, from, token) == Some(at),
    decreases at - from,
{
    if from < at {
        lemma_first_occurrence(s, from + 1, token, at);
    }
}

proof fn lemma_no_occurrence(s: Seq<char>, from: int, token: Seq<char>)
    requires
        0 <= from,
        forall|k: int| from <= k ==> !occurs_at(s, k, token),
    ensures
        first_occurrence(s, from, token) is None,
    decreases s.len() - from,
{
    if from + token.len() <= s.len() && from < s.len() {
        lemma_no_occurrence(s, from + 1, token);
    }
}

/// Whether the segment pattern `pat` matches the segment `s`.
pub fn segment_matches(pat: &Vec<char>, s: &Vec<char>) -> (r: bool)
    ensures
        r == segment_match(pat@, s@),
{
    if !contains_char(pat, '*') {
        return same_chars(pat, s);
    }
    let tokens = split_chars(pat, '*');
    let mut at: usize = 0;
    let mut i: usize = 0;
    while i < tokens.len()
        invariant
            i <= tokens.len(),
            at <= s.len(),
            pat@.contains('*'),
            views(tokens@) == split(pat@, '*'),
            walk(views(tokens@), 0, s@, 0) == walk(views(tokens@), i as int, s@, at as int),
        decreases tokens.len() - i,
    {
        let token = &tokens[i];
        proof {
            assert(views(tokens@)[i as int] == token@);
        }
        if token.len() == 0 {
        } else if i == 0 {
            if !occurs_at_exec(s, at, token) {
                return false;
            }
            at = at + token.len();
        } else {
            match find_from(s, at, token) {
                Some(found) => {
                    proof {
                        lemma_first_occurrence(s@, at as int, token@, found as int);
                    }
                    at = found + token.len();
                },
                None => {
                    proof {
                        lemma_no_occurrence(s@, at as int, token@);
                    }
                    return false;
                },
            }
        }
        i += 1;
    }
    pat[pat.len() - 1] == '*' || at == s.len()
}

fn is_double_star(seg: &Vec<char>) -> (r: bool)
    ensures
        r == (seg@ == double_star()),
{
    proof {
        assert(double_star().len() == 2 && double_star()[0] == '*' && double_star()[1] == '*');
    }
    let r = seg.len() == 2 && seg[0] == '*' && seg[1] == '*';
    proof {
        if r {
            assert(seg@ =~= double_star());
        }
    }
    r
}

/// Whether the pattern segments `p` match the path segments `s`. The answer
/// is worked out row by row, one row for each pattern segment from the last
/// to the first, so that no pair of positions is looked at twice.
pub fn glob_matches(p: &Vec<Vec<char>>, s: &Vec<Vec<char>>) -> (r: bool)
    ensures
        r == glob_match(views(p@), views(s@)),
{
    let n = s.len();
    let ghost pv = views(p@);
    let ghost sv = views(s@);
    // row[j] says whether the pattern segments from i on match the path
    // segments from j on.
    let mut row: Vec<bool> = Vec::new();
    let mut j: usize = 0;
    while j < n
        invariant
            j <= n,
            n == s.len(),
            row.len() == j,
            forall|k: int| 0 <= k < j ==> row@[k] == false,
        decreases n - j,
    {
        row.push(false);
        j += 1;
    }
    row.push(true);
    let mut i: usize = p.len();
    while i > 0
        invariant
            i <= p.len(),
            n == s.len(),
            pv == views(p@),
            sv == views(s@),
            row.len() == n + 1,
            forall|k: int| 0 <= k <= n ==> row@[k] == matches_from(pv, sv, i as int, k),
        decreases i,
    {
        i -= 1;
        let seg = &p[i];
        proof {
            assert(pv[i as int] == seg@);
        }
        let mut next: Vec<bool> = Vec::new();
        if is_double_star(seg) {
            if i == p.len() - 1 {
                let mut k: usize = 0;
                while k <= n
                    invariant
                        k <= n + 1,
                        n == s.len(),
                        n < usize::MAX,
                        next.len() == k,
                        forall|m: int| 0 <= m < k ==> next@[m] == true,
                    decreases n + 1 - k,
                {
                    next.push(true);
                    k += 1;
                }
            } else {
                // Fill from the end: a match from j is a match of the rest
                // from some k at or after j.
                let mut k: usize = 0;
                while k <= n
                    invariant
                        k <= n + 1,
                        n < usize::MAX,
                        next.len() == k,
                    decreases n + 1 - k,
                {
                    next.push(false);
                    k += 1;
                }
                let mut k: usize = n + 1;
                while k > 0
                    invariant
                        k <= n + 1,
                        n == s.len(),
                        sv.len() == n,
                        next.len() == n + 1,
                        row.len() == n + 1,
                        i + 1 < pv.len(),
                        pv[i as int] == double_star(),
                        forall|m: int|
                            0 <= m <= n ==> row@[m] == matches_from(pv, sv, i + 1, m),
                        forall|m: int|
                            k <= m <= n ==> next@[m] == matches_from(pv, sv, i as int, m),
                    decreases k,
                {
                    k -= 1;
                    let here = row[k] || (k < n && next[k + 1]);
                    next.set(k, here);
                }
            }
        } else {
            let mut k: usize = 0;
            while k < n
                invariant
                    k <= n,
                    n == s.len(),
                    sv == views(s@),
                    next.len() == k,
                    row.len() == n + 1,
                    i < pv.len(),
                    pv[i as int] == seg@,
                    seg@ != double_star(),
                    forall|m: int| 0 <= m <= n ==> row@[m] == matches_from(pv, sv, i + 1, m),
                    forall|m: int| 0 <= m < k ==> next@[m] == matches_from(pv, sv, i as int, m),
                decreases n - k,
            {
                proof {
                    assert(sv[k as int] == s@[k as int]@);
                }
                let here = row[k + 1] && segment_matches(seg, &s[k]);
                next.push(here);
                k += 1;
            }
            next.push(false);
        }
        row = next;
    }
    row[0]
}

/// Whether the pattern `pat` matches the path `path`, both written with `/`.
pub fn pattern_matches(pat: &Vec<char>, path: &Vec<char>) -> (r: bool)
    ensures
        r == pattern_match(pat@, path@),
{
    let p = split_chars(pat, '/');
    let s = split_chars(path, '/');
    glob_matches(&p, &s)
}

/// A compiled set of copy patterns. A path matches the filter when any one
/// pattern matches it; the patterns have no order of precedence.
#[derive(Debug, Clone)]
pub struct CopyFilter {
    patterns: Vec<String>,
}

/// Why a pattern was refused.
#[derive(Clone, Copy, Debug, PartialEq, Eq, Structural)]
pub enum PatternError {
    /// The pattern at `index` is empty once the white space around it is
    /// taken away.
    Empty { index: usize },
    /// The pattern at `index` holds `[` or `]`.
    Bracket { index: usize },
}

/// What is wrong with the pattern `raw`, standing at `index`, if anything.
pub open spec fn pattern_error(raw: Seq<char>, index: int) -> Option<PatternError> {
    let p = trimmed_space(raw);
    if p.len() == 0 {
        Some(PatternError::Empty { index: index as usize })
    } else if p.contains('[') || p.contains(']') {
        Some(PatternError::Bracket { index: index as usize })
    } else {
        None
    }
}

/// The form in which a pattern is kept: without the white space around it
/// and with `/` for every `\`.
pub open spec fn normalized(raw: Seq<char>) -> Seq<char> {
    replaced(trimmed_space(raw), '\\', '/')
}

impl View for CopyFilter {
    type V = Seq<Seq<char>>;

    closed spec fn view(&self) -> Seq<Seq<char>> {
        Seq::new(self.patterns@.len(), |i: int| self.patterns@[i]@)
    }
}

/// What compiling `raw` gives: a filter that holds every pattern in its
/// normalized form, in order, where no pattern is wrong; otherwise the error
/// of the first pattern that is.
pub open spec fn compiles_to(raw: Seq<String>, r: Result<CopyFilter, PatternError>) -> bool {
    match r {
        Ok(filter) => {
            &&& filter@.len() == raw.len()
            &&& forall|i: int|
                0 <= i < raw.len() ==> pattern_error(raw[i]@, i) is None && #[trigger] filter@[i]
                    == normalized(raw[i]@)
        },
        Err(e) => exists|i: int|
            {
                &&& 0 <= i < raw.len()
                &&& #[trigger] pattern_error(raw[i]@, i) == Some(e)
                &&& forall|k: int| 0 <= k < i ==> pattern_error(raw[k]@, k) is None
            },
    }
}

impl CopyFilter {
    /// Compiles `raw` into a filter. The first pattern that is empty or
    /// holds a bracket is refused, and with it the whole list.
    pub fn compile(raw: &Vec<String>) -> (r: Result<CopyFilter, PatternError>)
        ensures
            compiles_to(raw@, r),
    {
        let mut patterns: Vec<String> = Vec::new();
        let mut i: usize = 0;
        while i < raw.len()
            invariant
                i <= raw.len(),
                patterns.len() == i,
                forall|k: int| 0 <= k < i ==> (#[trigger] pattern_error(raw@[k]@, k)) is None,
                forall|k: int| 0 <= k < i ==> (#[trigger] patterns@[k])@ == normalized(raw@[k]@),
            decreases raw.len() - i,
        {
            let chars = to_chars(raw[i].as_str());
            let p = trim_space(&chars);
            if p.len() == 0 {
                assert(pattern_error(raw@[i as int]@, i as int) == Some(
                    PatternError::Empty { index: i },
                ));
                return Err(PatternError::Empty { index: i });
            }
            if contains_char(&p, '[') || contains_char(&p, ']') {
                assert(pattern_error(raw@[i as int]@, i as int) == Some(
                    PatternError::Bracket { index: i },
                ));
                return Err(PatternError::Bracket { index: i });
            }
            let kept = replace_char(&p, '\\', '/');
            patterns.push(to_string(&kept));
            assert(pattern_error(raw@[i as int]@, i as int) is None);
            i += 1;
        }
        let filter = CopyFilter { patterns };
        proof {
            assert forall|k: int| 0 <= k < raw@.len() implies pattern_error(raw@[k]@, k) is None
                && #[trigger] filter@[k] == normalized(raw@[k]@) by {
                assert(filter@[k] == filter.patterns@[k]@);
            }
        }
        Ok(filter)
    }

    /// Whether `rel` is to be copied byte for byte: whether any pattern of
    /// the filter matches it, once `\` in it is read as `/`.
    pub fn is_match(&self, rel: &str) -> (r: bool)
        ensures
            r == any_match(self@, rel@),
    {
        let chars = to_chars(rel);
        let text = replace_char(&chars, '\\', '/');
        let mut i: usize = 0;
        while i < self.patterns.len()
            invariant
                i <= self.patterns.len(),
                text@ == replaced(rel@, '\\', '/'),
                forall|k: int| 0 <= k < i ==> !pattern_match(#[trigger] self@[k], text@),
            decreases self.patterns.len() - i,
        {
            let pat = to_chars(self.patterns[i].as_str());
            proof {
                assert(self@[i as int] == pat@);
            }
            if pattern_matches(&pat, &text) {
                assert(pattern_match(self@[i as int], replaced(rel@, '\\', '/')));
                return true;
            }
            i += 1;
        }
        false
    }

    /// How many patterns the filter holds.
    pub fn len(&self) -> (n: usize)
        ensures
            n == self@.len(),
    {
        self.patterns.len()
    }
}

} // verus!
