//! Rules for single path segments and for relative paths written with `/`.

use crate::text::{contains_char, replace_char, replaced, split, split_chars, to_chars, views};
use vstd::prelude::*;

verus! {

/// The platform whose naming rules apply to the output tree.
#[derive(Clone, Copy, Debug, PartialEq, Eq, Structural)]
pub enum Platform {
    /// Only the rules that every platform shares.
    Unix,
    /// Also no colon, no trailing dot or space, no reserved device name.
    Windows,
}

/// Lower-case ASCII letters raised, every other character kept.
pub open spec fn upper_char(c: char) -> char {
    if 'a' <= c && c <= 'z' {
        ((c as u8) - 32) as char
    } else {
        c
    }
}

pub open spec fn upper(s: Seq<char>) -> Seq<char> {
    Seq::new(s.len(), |i: int| upper_char(s[i]))
}

/// `name` is a reserved device name, whatever its case: `CON`, `PRN`, `AUX`,
/// `NUL`, or `COM` or `LPT` followed by one digit from 1 to 9.
pub open spec fn reserved_device_name(name: Seq<char>) -> bool {
    let u = upper(name);
    ||| u == seq!['C', 'O', 'N']
    ||| u == seq!['P', 'R', 'N']
    ||| u == seq!['A', 'U', 'X']
    ||| u == seq!['N', 'U', 'L']
    ||| (u.len() == 4 && (u.take(3) == seq!['C', 'O', 'M'] || u.take(3) == seq!['L', 'P', 'T'])
        && '1' <= u[3] && u[3] <= '9')
}

/// The rule that every platform shares: a segment is a plain name, not empty,
/// not `.` or `..`, and holds no separator.
pub open spec fn safe_segment(seg: Seq<char>) -> bool {
    &&& seg.len() > 0
    &&& seg != seq!['.']
    &&& seg != seq!['.', '.']
    &&& !seg.contains('/')
    &&& !seg.contains('\\')
}

/// The part of a segment before its first dot.
pub open spec fn base_name(seg: Seq<char>) -> Seq<char> {
    split(seg, '.')[0]
}

/// The rule on Windows: the shared rule, and no colon, no dot or space at the
/// end, and a part before the first dot that is no reserved device name.
pub open spec fn windows_safe_segment(seg: Seq<char>) -> bool {
    &&& safe_segment(seg)
    &&& !seg.contains(':')
    &&& seg.last() != ' '
    &&& seg.last() != '.'
    &&& !reserved_device_name(base_name(seg))
}

pub open spec fn safe_segment_on(seg: Seq<char>, platform: Platform) -> bool {
    match platform {
        Platform::Unix => safe_segment(seg),
        Platform::Windows => windows_safe_segment(seg),
    }
}

/// A relative path is safe when it is not empty and, with `\` read as `/`,
/// does not start with a separator and splits into safe segments only.
pub open spec fn safe_rel_path_on(path: Seq<char>, platform: Platform) -> bool {
    let s = replaced(path, '\\', '/');
    &&& path.len() > 0
    &&& s[0] != '/'
    &&& forall|i: int| 0 <= i < split(s, '/').len() ==> safe_segment_on(#[trigger] split(s, '/')[i], platform)
}

pub open spec fn safe_rel_path(path: Seq<char>) -> bool {
    safe_rel_path_on(path, Platform::Unix)
}

/// The first piece of a split is what stands before the first separator.
pub proof fn lemma_first_piece(s: Seq<char>, sep: char, n: int)
    requires
        0 <= n <= s.len(),
        forall|i: int| 0 <= i < n ==> s[i] != sep,
        n < s.len() ==> s[n] == sep,
    ensures
        split(s, sep).len() >= 1,
        split(s, sep)[0] == s.take(n),
        n == s.len() ==> split(s, sep).len() == 1,
        n < s.len() ==> split(s, sep).len() >= 2,
    decreases s.len(),
{
    if s.len() == 0 {
        assert(s.take(0) =~= Seq::<char>::empty());
    } else {
        let head = s.drop_last();
        let before = split(head, sep);
        if n == s.len() {
            lemma_first_piece(head, sep, n - 1);
            assert(before[0] == head.take(n - 1));
            assert(head.take(n - 1) =~= head);
            assert(s.take(n) =~= head.push(s.last()));
            assert(s[n - 1] != sep);
            assert(before.len() == 1);
            assert(before.last() == head);
            assert(head.push(s.last()) =~= s);
            let now = before.drop_last().push(before.last().push(s.last()));
            assert(now.len() == 1 && now[0] == s);
            assert(split(s, sep) == now);
        } else {
            assert forall|i: int| 0 <= i < n implies head[i] != sep by {
                assert(head[i] == s[i]);
            }
            if n < head.len() {
                assert(head[n] == s[n]);
            }
            lemma_first_piece(head, sep, n);
            assert(head.take(n) =~= s.take(n));
            if n == head.len() {
                assert(s.last() == sep);
            }
        }
    }
}

fn upper_char_exec(c: char) -> (r: char)
    ensures
        r == upper_char(c),
{
    if 'a' <= c && c <= 'z' {
        ((c as u8) - 32) as char
    } else {
        c
    }
}

fn reserved_device_chars(name: &Vec<char>) -> (r: bool)
    ensures
        r == reserved_device_name(name@),
{
    let ghost u = upper(name@);
    proof {
        assert(seq!['C', 'O', 'N'].len() == 3 && seq!['P', 'R', 'N'].len() == 3);
        assert(seq!['A', 'U', 'X'].len() == 3 && seq!['N', 'U', 'L'].len() == 3);
        assert(u.len() == name@.len());
    }
    if name.len() == 3 {
        let a = upper_char_exec(name[0]);
        let b = upper_char_exec(name[1]);
        let c = upper_char_exec(name[2]);
        proof {
            assert(u =~= seq![a, b, c]);
            assert(seq!['C', 'O', 'N'][0] == 'C' && seq!['C', 'O', 'N'][1] == 'O' && seq![
                'C',
                'O',
                'N',
            ][2] == 'N');
            assert(seq!['P', 'R', 'N'][0] == 'P' && seq!['P', 'R', 'N'][1] == 'R' && seq![
                'P',
                'R',
                'N',
            ][2] == 'N');
            assert(seq!['A', 'U', 'X'][0] == 'A' && seq!['A', 'U', 'X'][1] == 'U' && seq![
                'A',
                'U',
                'X',
            ][2] == 'X');
            assert(seq!['N', 'U', 'L'][0] == 'N' && seq!['N', 'U', 'L'][1] == 'U' && seq![
                'N',
                'U',
                'L',
            ][2] == 'L');
        }
        let r = (a == 'C' && b == 'O' && c == 'N') || (a == 'P' && b == 'R' && c == 'N') || (a
            == 'A' && b == 'U' && c == 'X') || (a == 'N' && b == 'U' && c == 'L');
        proof {
            if r {
                if a == 'C' {
                    assert(u =~= seq!['C', 'O', 'N']);
                } else if a == 'P' {
                    assert(u =~= seq!['P', 'R', 'N']);
                } else if a == 'A' {
                    assert(u =~= seq!['A', 'U', 'X']);
                } else {
                    assert(u =~= seq!['N', 'U', 'L']);
                }
            }
        }
        r
    } else if name.len() == 4 {
        let a = upper_char_exec(name[0]);
        let b = upper_char_exec(name[1]);
        let c = upper_char_exec(name[2]);
        let d = upper_char_exec(name[3]);
        proof {
            assert(u.take(3) =~= seq![a, b, c]);
            assert(u[3] == d);
            assert(seq!['C', 'O', 'M'][0] == 'C' && seq!['C', 'O', 'M'][1] == 'O' && seq![
                'C',
                'O',
                'M',
            ][2] == 'M');
            assert(seq!['L', 'P', 'T'][0] == 'L' && seq!['L', 'P', 'T'][1] == 'P' && seq![
                'L',
                'P',
                'T',
            ][2] == 'T');
        }
        let stem = (a == 'C' && b == 'O' && c == 'M') || (a == 'L' && b == 'P' && c == 'T');
        proof {
            if stem {
                if a == 'C' {
                    assert(u.take(3) =~= seq!['C', 'O', 'M']);
                } else {
                    assert(u.take(3) =~= seq!['L', 'P', 'T']);
                }
            }
        }
        stem && '1' <= d && d <= '9'
    } else {
        false
    }
}

/// Whether `name` is a device name that Windows reserves, in any case.
pub fn is_windows_reserved_basename(name: &str) -> (r: bool)
    ensures
        r == reserved_device_name(name@),
{
    let chars = to_chars(name);
    reserved_device_chars(&chars)
}

pub(crate) fn safe_segment_chars(seg: &Vec<char>) -> (r: bool)
    ensures
        r == safe_segment(seg@),
{
    if seg.len() == 0 {
        return false;
    }
    if seg.len() == 1 && seg[0] == '.' {
        assert(seg@ =~= seq!['.']);
        return false;
    }
    if seg.len() == 2 && seg[0] == '.' && seg[1] == '.' {
        assert(seg@ =~= seq!['.', '.']);
        return false;
    }
    proof {
        assert(seq!['.'].len() == 1 && seq!['.'][0] == '.');
        assert(seq!['.', '.'].len() == 2 && seq!['.', '.'][0] == '.' && seq!['.', '.'][1] == '.');
    }
    !contains_char(seg, '/') && !contains_char(seg, '\\')
}

fn base_name_chars(seg: &Vec<char>) -> (out: Vec<char>)
    ensures
        out@ == base_name(seg@),
{
    let mut out: Vec<char> = Vec::new();
    let mut i: usize = 0;
    while i < seg.len() && seg[i] != '.'
        invariant
            i <= seg.len(),
            out@ == seg@.take(i as int),
            forall|k: int| 0 <= k < i ==> seg@[k] != '.',
        decreases seg.len() - i,
    {
        out.push(seg[i]);
        proof {
            assert(out@ =~= seg@.take(i + 1));
        }
        i += 1;
    }
    proof {
        lemma_first_piece(seg@, '.', i as int);
    }
    out
}

pub(crate) fn safe_segment_chars_on(seg: &Vec<char>, platform: Platform) -> (r: bool)
    ensures
        r == safe_segment_on(seg@, platform),
{
    if !safe_segment_chars(seg) {
        return false;
    }
    match platform {
        Platform::Unix => true,
        Platform::Windows => {
            if contains_char(seg, ':') {
                return false;
            }
            let last = seg[seg.len() - 1];
            if last == ' ' || last == '.' {
                return false;
            }
            let base = base_name_chars(seg);
            !reserved_device_chars(&base)
        },
    }
}

/// Whether `seg` may stand as one name in a path on every platform: not
/// empty, not `.` or `..`, and without `/` or `\`.
pub fn is_safe_path_segment(seg: &str) -> (r: bool)
    ensures
        r == safe_segment(seg@),
{
    let chars = to_chars(seg);
    safe_segment_chars(&chars)
}

/// Whether `seg` may stand as one name in a path on `platform`.
pub fn is_safe_path_segment_on(seg: &str, platform: Platform) -> (r: bool)
    ensures
        r == safe_segment_on(seg@, platform),
{
    let chars = to_chars(seg);
    safe_segment_chars_on(&chars, platform)
}

/// Whether `path` is a safe relative path on `platform`.
pub fn is_safe_rel_path_on(path: &str, platform: Platform) -> (r: bool)
    ensures
        r == safe_rel_path_on(path@, platform),
{
    let chars = to_chars(path);
    if chars.len() == 0 {
        return false;
    }
    let s = replace_char(&chars, '\\', '/');
    if s[0] == '/' {
        return false;
    }
    let pieces = split_chars(&s, '/');
    let mut i: usize = 0;
    while i < pieces.len()
        invariant
            i <= pieces.len(),
            path@.len() > 0,
            s@ == replaced(path@, '\\', '/'),
            s@[0] != '/',
            views(pieces@) == split(s@, '/'),
            forall|k: int| 0 <= k < i ==> safe_segment_on(#[trigger] split(s@, '/')[k], platform),
        decreases pieces.len() - i,
    {
        proof {
            assert(views(pieces@)[i as int] == pieces@[i as int]@);
        }
        if !safe_segment_chars_on(&pieces[i], platform) {
            assert(!safe_segment_on(split(s@, '/')[i as int], platform));
            return false;
        }
        i += 1;
    }
    true
}

/// Whether `path` is a safe relative path: not empty, not starting with a
/// separator, and made of safe segments once `\` is read as `/`.
pub fn is_safe_rel_path(path: &str) -> (r: bool)
    ensures
        r == safe_rel_path(path@),
{
    is_safe_rel_path_on(path, Platform::Unix)
}

} // verus!
