//! Character-sequence helpers shared by the rest of the crate.
//!
//! Strings cross the public interface as `&str` and `String`; inside the crate
//! they are handled as `Vec<char>`, whose view is the `Seq<char>` that every
//! contract speaks of.

use vstd::prelude::*;

verus! {

/// `token` occurs in `s` starting at position `at`.
pub open spec fn occurs_at(s: Seq<char>, at: int, token: Seq<char>) -> bool {
    &&& 0 <= at
    &&& at + token.len() <= s.len()
    &&& s.subrange(at, at + token.len()) == token
}

/// `token` occurs somewhere in `s`.
pub open spec fn contains_seq(s: Seq<char>, token: Seq<char>) -> bool {
    exists|at: int| occurs_at(s, at, token)
}

/// `token` is a prefix of `s`.
pub open spec fn starts_with(s: Seq<char>, token: Seq<char>) -> bool {
    occurs_at(s, 0, token)
}

/// `token` is a suffix of `s`.
pub open spec fn ends_with(s: Seq<char>, token: Seq<char>) -> bool {
    occurs_at(s, s.len() - token.len(), token)
}

/// `s` with every `from` replaced by `to`.
pub open spec fn replaced(s: Seq<char>, from: char, to: char) -> Seq<char> {
    Seq::new(s.len(), |i: int| if s[i] == from { to } else { s[i] })
}

/// The pieces of `s` between occurrences of `sep`. There is always at least
/// one piece: the empty sequence splits into one empty piece.
pub open spec fn split(s: Seq<char>, sep: char) -> Seq<Seq<char>>
    decreases s.len(),
{
    if s.len() == 0 {
        seq![Seq::<char>::empty()]
    } else {
        let before = split(s.drop_last(), sep);
        if s.last() == sep {
            before.push(Seq::<char>::empty())
        } else {
            before.drop_last().push(before.last().push(s.last()))
        }
    }
}

/// The pieces joined again, with `sep` between neighbours.
pub open spec fn join(pieces: Seq<Seq<char>>, sep: char) -> Seq<char>
    decreases pieces.len(),
{
    if pieces.len() == 0 {
        Seq::<char>::empty()
    } else if pieces.len() == 1 {
        pieces[0]
    } else {
        join(pieces.drop_last(), sep).push(sep) + pieces.last()
    }
}

/// The view of each element of a vector of character vectors.
pub open spec fn views(v: Seq<Vec<char>>) -> Seq<Seq<char>> {
    Seq::new(v.len(), |i: int| v[i]@)
}

/// The view of each element of a vector of strings.
pub open spec fn string_views(v: Seq<String>) -> Seq<Seq<char>> {
    Seq::new(v.len(), |i: int| v[i]@)
}

pub proof fn lemma_split_nonempty(s: Seq<char>, sep: char)
    ensures
        split(s, sep).len() >= 1,
    decreases s.len(),
{
    if s.len() > 0 {
        lemma_split_nonempty(s.drop_last(), sep);
    }
}

/// No piece of a split holds the separator.
pub proof fn lemma_split_pieces_free(s: Seq<char>, sep: char)
    ensures
        forall|i: int, j: int|
            0 <= i < split(s, sep).len() && 0 <= j < split(s, sep)[i].len() ==> split(
                s,
                sep,
            )[i][j] != sep,
    decreases s.len(),
{
    if s.len() > 0 {
        lemma_split_pieces_free(s.drop_last(), sep);
        lemma_split_nonempty(s.drop_last(), sep);
    }
}

/// Joining the pieces of a split gives the sequence back.
pub proof fn lemma_join_split(s: Seq<char>, sep: char)
    ensures
        join(split(s, sep), sep) == s,
    decreases s.len(),
{
    if s.len() == 0 {
        assert(join(split(s, sep), sep) =~= s);
    } else {
        let head = s.drop_last();
        let before = split(head, sep);
        lemma_join_split(head, sep);
        lemma_split_nonempty(head, sep);
        if s.last() == sep {
            let now = before.push(Seq::<char>::empty());
            assert(now.drop_last() =~= before);
            assert(join(now, sep) =~= s);
        } else {
            let now = before.drop_last().push(before.last().push(s.last()));
            assert(now.drop_last() =~= before.drop_last());
            if before.len() == 1 {
                assert(join(now, sep) =~= s);
            } else {
                assert(now.last() == before.last().push(s.last()));
                assert(join(now, sep) == join(now.drop_last(), sep).push(sep) + now.last());
                assert(join(before, sep) == join(before.drop_last(), sep).push(sep)
                    + before.last());
                assert(join(now, sep) =~= join(before, sep).push(s.last()));
                assert(head.push(s.last()) =~= s);
            }
        }
    }
}

/// The characters of `s`, in order.
pub fn to_chars(s: &str) -> (out: Vec<char>)
    ensures
        out@ == s@,
{
    let mut out: Vec<char> = Vec::new();
    let chars = s.chars();
    for c in it: chars
        invariant
            it.seq() == s@,
            out@ == s@.take(it.index()),
    {
        out.push(c);
    }
    out
}

/// Appends one character to a string.
///
/// Trusted: this is `String::push`, which the standard library documents as
/// appending the given character to the end of the string.
#[verifier::external_body]
fn push_char(s: &mut String, c: char)
    ensures
        final(s)@ == old(s)@.push(c),
{
    s.push(c)
}

/// The string made of `chars`, in order.
pub fn to_string(chars: &Vec<char>) -> (out: String)
    ensures
        out@ == chars@,
{
    let mut out = String::new();
    let mut i: usize = 0;
    while i < chars.len()
        invariant
            i <= chars.len(),
            out@ == chars@.take(i as int),
        decreases chars.len() - i,
    {
        push_char(&mut out, chars[i]);
        i += 1;
    }
    out
}

/// Whether two character vectors hold the same characters.
pub fn same_chars(a: &Vec<char>, b: &Vec<char>) -> (r: bool)
    ensures
        r == (a@ == b@),
{
    if a.len() != b.len() {
        return false;
    }
    let mut i: usize = 0;
    while i < a.len()
        invariant
            a.len() == b.len(),
            i <= a.len(),
            a@.take(i as int) == b@.take(i as int),
        decreases a.len() - i,
    {
        if a[i] != b[i] {
            assert(a@[i as int] != b@[i as int]);
            return false;
        }
        assert(a@.take(i + 1) =~= a@.take(i as int).push(a@[i as int]));
        assert(b@.take(i + 1) =~= b@.take(i as int).push(b@[i as int]));
        i += 1;
    }
    assert(a@ =~= a@.take(a.len() as int));
    assert(b@ =~= b@.take(b.len() as int));
    true
}

/// Whether two strings hold the same characters.
pub fn same_text(a: &str, b: &str) -> (r: bool)
    ensures
        r == (a@ == b@),
{
    let x = to_chars(a);
    let y = to_chars(b);
    same_chars(&x, &y)
}

/// Whether `token` occurs in `s` at position `at`.
pub fn occurs_at_exec(s: &Vec<char>, at: usize, token: &Vec<char>) -> (r: bool)
    ensures
        r == occurs_at(s@, at as int, token@),
{
    if token.len() > s.len() || at > s.len() - token.len() {
        return false;
    }
    let mut i: usize = 0;
    while i < token.len()
        invariant
            i <= token.len(),
            at + token.len() <= s.len(),
            s@.subrange(at as int, at + i) == token@.take(i as int),
        decreases token.len() - i,
    {
        if s[at + i] != token[i] {
            assert(s@.subrange(at as int, at + token.len())[i as int] != token@[i as int]);
            return false;
        }
        assert(s@.subrange(at as int, at + i + 1) =~= s@.subrange(at as int, at + i).push(
            s@[at + i],
        ));
        assert(token@.take(i + 1) =~= token@.take(i as int).push(token@[i as int]));
        i += 1;
    }
    assert(token@ =~= token@.take(token.len() as int));
    true
}

/// The first position at or after `from` where `token` occurs in `s`.
pub fn find_from(s: &Vec<char>, from: usize, token: &Vec<char>) -> (r: Option<usize>)
    ensures
        match r {
            Some(at) => {
                &&& from <= at
                &&& occurs_at(s@, at as int, token@)
                &&& forall|k: int| from <= k < at ==> !occurs_at(s@, k, token@)
            },
            None => forall|k: int| from <= k ==> !occurs_at(s@, k, token@),
        },
{
    if from > s.len() {
        return None;
    }
    let mut at: usize = from;
    while at < s.len()
        invariant
            from <= at <= s.len(),
            forall|k: int| from <= k < at ==> !occurs_at(s@, k, token@),
        decreases s.len() - at,
    {
        if occurs_at_exec(s, at, token) {
            return Some(at);
        }
        at += 1;
    }
    if occurs_at_exec(s, at, token) {
        Some(at)
    } else {
        None
    }
}

/// Whether `token` occurs somewhere in `s`.
pub fn contains_chars(s: &Vec<char>, token: &Vec<char>) -> (r: bool)
    ensures
        r == contains_seq(s@, token@),
{
    find_from(s, 0, token).is_some()
}

/// Whether `c` occurs in `s`.
pub fn contains_char(s: &Vec<char>, c: char) -> (r: bool)
    ensures
        r == s@.contains(c),
{
    let mut i: usize = 0;
    while i < s.len()
        invariant
            i <= s.len(),
            forall|k: int| 0 <= k < i ==> s@[k] != c,
        decreases s.len() - i,
    {
        if s[i] == c {
            return true;
        }
        i += 1;
    }
    false
}

/// `s` with every `from` replaced by `to`.
pub fn replace_char(s: &Vec<char>, from: char, to: char) -> (out: Vec<char>)
    ensures
        out@ == replaced(s@, from, to),
{
    let mut out: Vec<char> = Vec::new();
    let mut i: usize = 0;
    while i < s.len()
        invariant
            i <= s.len(),
            out@ == replaced(s@, from, to).take(i as int),
        decreases s.len() - i,
    {
        let c = s[i];
        out.push(if c == from { to } else { c });
        assert(out@ =~= replaced(s@, from, to).take(i + 1));
        i += 1;
    }
    assert(out@ =~= replaced(s@, from, to));
    out
}

/// The pieces of `s` between occurrences of `sep`.
pub fn split_chars(s: &Vec<char>, sep: char) -> (out: Vec<Vec<char>>)
    ensures
        views(out@) == split(s@, sep),
        out.len() >= 1,
{
    let mut out: Vec<Vec<char>> = Vec::new();
    let mut piece: Vec<char> = Vec::new();
    let mut i: usize = 0;
    proof {
        assert(s@.take(0) =~= Seq::<char>::empty());
        assert(views(out@).push(piece@) =~= split(s@.take(0), sep));
    }
    while i < s.len()
        invariant
            i <= s.len(),
            views(out@).push(piece@) == split(s@.take(i as int), sep),
        decreases s.len() - i,
    {
        let c = s[i];
        proof {
            assert(s@.take(i + 1).drop_last() =~= s@.take(i as int));
            assert(s@.take(i + 1).last() == c);
        }
        let ghost before = views(out@).push(piece@);
        if c == sep {
            out.push(piece);
            piece = Vec::new();
            proof {
                assert(views(out@) =~= before);
                assert(views(out@).push(piece@) =~= before.push(Seq::<char>::empty()));
            }
        } else {
            piece.push(c);
            proof {
                assert(views(out@).push(piece@) =~= before.drop_last().push(
                    before.last().push(c),
                ));
            }
        }
        i += 1;
    }
    proof {
        assert(s@.take(s.len() as int) =~= s@);
    }
    let ghost before = views(out@).push(piece@);
    out.push(piece);
    proof {
        assert(views(out@) =~= before);
    }
    out
}

/// A character with the Unicode property `White_Space`.
pub open spec fn is_space(c: char) -> bool {
    let n = c as u32;
    ||| (0x09 <= n && n <= 0x0D)
    ||| n == 0x20
    ||| n == 0x85
    ||| n == 0xA0
    ||| n == 0x1680
    ||| (0x2000 <= n && n <= 0x200A)
    ||| n == 0x2028
    ||| n == 0x2029
    ||| n == 0x202F
    ||| n == 0x205F
    ||| n == 0x3000
}

/// `s` without the white space at its start and at its end.
pub open spec fn trimmed_space(s: Seq<char>) -> Seq<char>
    decreases s.len(),
{
    if s.len() > 0 && is_space(s[0]) {
        trimmed_space(s.drop_first())
    } else if s.len() > 0 && is_space(s.last()) {
        trimmed_space(s.drop_last())
    } else {
        s
    }
}

/// Trimming leaves the stretch between the first and the last character
/// that is not white space.
pub proof fn lemma_trimmed_space(s: Seq<char>, a: int, b: int)
    requires
        0 <= a <= b <= s.len(),
        forall|i: int| 0 <= i < a ==> is_space(s[i]),
        forall|i: int| b <= i < s.len() ==> is_space(s[i]),
        a < b ==> !is_space(s[a]) && !is_space(s[b - 1]),
    ensures
        trimmed_space(s) == s.subrange(a, b),
    decreases s.len(),
{
    if s.len() > 0 && is_space(s[0]) {
        let t = s.drop_first();
        if a > 0 {
            assert forall|i: int| 0 <= i < a - 1 implies is_space(t[i]) by {
                assert(t[i] == s[i + 1]);
            }
            assert forall|i: int| b - 1 <= i < t.len() implies is_space(t[i]) by {
                assert(t[i] == s[i + 1]);
            }
            if a < b {
                assert(t[a - 1] == s[a] && t[b - 2] == s[b - 1]);
            }
            lemma_trimmed_space(t, a - 1, b - 1);
            assert(t.subrange(a - 1, b - 1) =~= s.subrange(a, b));
        } else {
            assert(a == b);
            assert forall|i: int| 0 <= i < t.len() implies is_space(t[i]) by {
                assert(t[i] == s[i + 1]);
            }
            lemma_trimmed_space(t, 0, 0);
            assert(t.subrange(0, 0) =~= s.subrange(a, b));
        }
    } else if s.len() > 0 && is_space(s.last()) {
        let t = s.drop_last();
        assert(a == 0);
        assert(b < s.len());
        assert forall|i: int| b <= i < t.len() implies is_space(t[i]) by {
            assert(t[i] == s[i]);
        }
        if a < b {
            assert(t[a] == s[a] && t[b - 1] == s[b - 1]);
        }
        lemma_trimmed_space(t, a, b);
        assert(t.subrange(a, b) =~= s.subrange(a, b));
    } else {
        assert(s.subrange(0, s.len() as int) =~= s);
    }
}

/// `s` without the white space at its end.
pub open spec fn trimmed_end(s: Seq<char>) -> Seq<char>
    decreases s.len(),
{
    if s.len() > 0 && is_space(s.last()) {
        trimmed_end(s.drop_last())
    } else {
        s
    }
}

/// Whether `c` has the Unicode property `White_Space`.
pub fn is_space_char(c: char) -> (r: bool)
    ensures
        r == is_space(c),
{
    let n = c as u32;
    (0x09 <= n && n <= 0x0D) || n == 0x20 || n == 0x85 || n == 0xA0 || n == 0x1680 || (0x2000
        <= n && n <= 0x200A) || n == 0x2028 || n == 0x2029 || n == 0x202F || n == 0x205F || n
        == 0x3000
}

/// The characters of `s` from `from` up to `to`.
pub fn slice_chars(s: &Vec<char>, from: usize, to: usize) -> (out: Vec<char>)
    requires
        from <= to <= s.len(),
    ensures
        out@ == s@.subrange(from as int, to as int),
{
    let mut out: Vec<char> = Vec::new();
    let mut i: usize = from;
    while i < to
        invariant
            from <= i <= to <= s.len(),
            out@ == s@.subrange(from as int, i as int),
        decreases to - i,
    {
        out.push(s[i]);
        proof {
            assert(out@ =~= s@.subrange(from as int, i + 1));
        }
        i += 1;
    }
    out
}

/// `s` without the white space at its start and at its end.
pub fn trim_space(s: &Vec<char>) -> (out: Vec<char>)
    ensures
        out@ == trimmed_space(s@),
{
    let mut a: usize = 0;
    while a < s.len() && is_space_char(s[a])
        invariant
            a <= s.len(),
            forall|i: int| 0 <= i < a ==> is_space(s@[i]),
        decreases s.len() - a,
    {
        a += 1;
    }
    let mut b: usize = s.len();
    while b > a && is_space_char(s[b - 1])
        invariant
            a <= b <= s.len(),
            forall|i: int| b <= i < s.len() ==> is_space(s@[i]),
        decreases b,
    {
        b -= 1;
    }
    proof {
        lemma_trimmed_space(s@, a as int, b as int);
    }
    slice_chars(s, a, b)
}

/// `s` without the white space at its end.
pub fn trim_end_space(s: &Vec<char>) -> (out: Vec<char>)
    ensures
        out@ == trimmed_end(s@),
{
    let mut b: usize = s.len();
    proof {
        assert(s@.take(s.len() as int) =~= s@);
    }
    while b > 0 && is_space_char(s[b - 1])
        invariant
            b <= s.len(),
            trimmed_end(s@) == trimmed_end(s@.take(b as int)),
        decreases b,
    {
        proof {
            assert(s@.take(b as int).drop_last() =~= s@.take(b - 1));
        }
        b -= 1;
    }
    proof {
        assert(s@.take(b as int) =~= s@.subrange(0, b as int));
    }
    slice_chars(s, 0, b)
}

/// The strings joined, with `sep` between neighbours.
pub fn join_strings(pieces: &Vec<String>, sep: char) -> (out: Vec<char>)
    ensures
        out@ == join(string_views(pieces@), sep),
{
    let mut out: Vec<char> = Vec::new();
    let mut i: usize = 0;
    proof {
        assert(string_views(pieces@).take(0) =~= Seq::<Seq<char>>::empty());
    }
    while i < pieces.len()
        invariant
            i <= pieces.len(),
            out@ == join(string_views(pieces@).take(i as int), sep),
        decreases pieces.len() - i,
    {
        let ghost before = out@;
        let ghost all = string_views(pieces@);
        if i > 0 {
            out.push(sep);
        }
        let piece = to_chars(pieces[i].as_str());
        let mut k: usize = 0;
        let ghost lead = out@;
        while k < piece.len()
            invariant
                k <= piece.len(),
                out@ == lead + piece@.take(k as int),
            decreases piece.len() - k,
        {
            out.push(piece[k]);
            proof {
                assert(out@ =~= lead + piece@.take(k + 1));
            }
            k += 1;
        }
        proof {
            assert(piece@.take(piece.len() as int) =~= piece@);
            assert(all.take(i + 1).drop_last() =~= all.take(i as int));
            assert(all.take(i + 1).last() == piece@);
            if i == 0 {
                assert(out@ =~= piece@);
            } else {
                assert(out@ =~= before.push(sep) + piece@);
            }
        }
        i += 1;
    }
    proof {
        assert(string_views(pieces@).take(pieces.len() as int) =~= string_views(pieces@));
    }
    out
}

} // verus!
