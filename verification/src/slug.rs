//! Slug normalization: turns free text into an identifier made of lower-case
//! ASCII letters, digits and single underscores.

use crate::text::{to_chars, to_string};
use vstd::prelude::*;

verus! {

/// A lower-case ASCII letter or an ASCII digit.
pub open spec fn is_slug_letter(c: char) -> bool {
    ('a' <= c && c <= 'z') || ('0' <= c && c <= '9')
}

pub open spec fn is_digit(c: char) -> bool {
    '0' <= c && c <= '9'
}

/// What one character becomes: an upper-case ASCII letter its lower-case
/// form, a lower-case ASCII letter or a digit itself, anything else `_`.
pub open spec fn slug_char(c: char) -> char {
    if 'A' <= c && c <= 'Z' {
        ((c as u8) + 32) as char
    } else if is_slug_letter(c) {
        c
    } else {
        '_'
    }
}

/// Every character mapped by [`slug_char`].
pub open spec fn mapped(s: Seq<char>) -> Seq<char> {
    Seq::new(s.len(), |i: int| slug_char(s[i]))
}

/// `s` without the underscores that directly follow an underscore.
pub open spec fn collapsed(s: Seq<char>) -> Seq<char>
    decreases s.len(),
{
    if s.len() == 0 {
        s
    } else if s.len() >= 2 && s.last() == '_' && s[s.len() - 2] == '_' {
        collapsed(s.drop_last())
    } else {
        collapsed(s.drop_last()).push(s.last())
    }
}

/// `s` without its leading underscores.
pub open spec fn trimmed_start(s: Seq<char>) -> Seq<char>
    decreases s.len(),
{
    if s.len() > 0 && s[0] == '_' {
        trimmed_start(s.drop_first())
    } else {
        s
    }
}

/// `s` without its trailing underscores.
pub open spec fn trimmed_end(s: Seq<char>) -> Seq<char>
    decreases s.len(),
{
    if s.len() > 0 && s.last() == '_' {
        trimmed_end(s.drop_last())
    } else {
        s
    }
}

/// `s` without its leading and trailing underscores.
pub open spec fn trimmed(s: Seq<char>) -> Seq<char> {
    trimmed_end(trimmed_start(s))
}

/// `s` with an underscore put in front when it starts with a digit.
pub open spec fn guarded(s: Seq<char>) -> Seq<char> {
    if s.len() > 0 && is_digit(s[0]) {
        seq!['_'] + s
    } else {
        s
    }
}

/// The slug of `s`: characters mapped, runs of underscores collapsed,
/// underscores at both ends removed, and a leading digit guarded.
pub open spec fn slug(s: Seq<char>) -> Seq<char> {
    guarded(trimmed(collapsed(mapped(s))))
}

/// The shape of a trimmed slug body: slug characters only, no two
/// underscores in a row, none at either end.
pub open spec fn is_slug_body(s: Seq<char>) -> bool {
    &&& forall|i: int| 0 <= i < s.len() ==> is_slug_letter(#[trigger] s[i]) || s[i] == '_'
    &&& forall|i: int| 0 <= i < s.len() - 1 ==> !(#[trigger] s[i] == '_' && s[i + 1] == '_')
    &&& s.len() > 0 ==> s[0] != '_' && s.last() != '_'
}

proof fn lemma_slug_char_range(c: char)
    ensures
        is_slug_letter(slug_char(c)) || slug_char(c) == '_',
        (is_slug_letter(c) || c == '_') ==> slug_char(c) == c,
{
    if 'A' <= c && c <= 'Z' {
        let u = c as u8;
        assert(65 <= u <= 90);
        let l = ((u + 32) as u8) as char;
        assert(97 <= (u + 32) <= 122);
    }
}

proof fn lemma_collapsed_shape(s: Seq<char>)
    ensures
        collapsed(s).len() <= s.len(),
        s.len() > 0 ==> collapsed(s).len() > 0 && collapsed(s).last() == s.last() && collapsed(
            s,
        )[0] == s[0],
        forall|i: int|
            0 <= i < collapsed(s).len() - 1 ==> !(#[trigger] collapsed(s)[i] == '_' && collapsed(
                s,
            )[i + 1] == '_'),
        forall|i: int| 0 <= i < collapsed(s).len() ==> s.contains(#[trigger] collapsed(s)[i]),
    decreases s.len(),
{
    if s.len() > 0 {
        let head = s.drop_last();
        lemma_collapsed_shape(head);
        let c = collapsed(s);
        assert forall|i: int| 0 <= i < c.len() implies s.contains(#[trigger] c[i]) by {
            if i < collapsed(head).len() {
                assert(head.contains(collapsed(head)[i]));
                let k = choose|k: int| 0 <= k < head.len() && head[k] == collapsed(head)[i];
                assert(s[k] == c[i]);
            } else {
                assert(s[s.len() - 1] == c[i]);
            }
        }
        if head.len() > 0 {
            assert(head.last() == s[s.len() - 2]);
        }
    }
}

proof fn lemma_collapsed_fixed(s: Seq<char>)
    requires
        forall|i: int| 0 <= i < s.len() - 1 ==> !(#[trigger] s[i] == '_' && s[i + 1] == '_'),
    ensures
        collapsed(s) == s,
    decreases s.len(),
{
    if s.len() > 0 {
        let head = s.drop_last();
        assert forall|i: int| 0 <= i < head.len() - 1 implies !(#[trigger] head[i] == '_'
            && head[i + 1] == '_') by {
            assert(head[i] == s[i] && head[i + 1] == s[i + 1]);
        }
        lemma_collapsed_fixed(head);
        if s.len() >= 2 {
            let k = s.len() - 2;
            assert(!(s[k] == '_' && s[k + 1] == '_'));
        }
        assert(head.push(s.last()) =~= s);
    }
}

/// Trimming at the start removes a prefix made of underscores and leaves a
/// sequence that does not start with one.
proof fn lemma_trimmed_start(s: Seq<char>) -> (n: int)
    ensures
        0 <= n <= s.len(),
        trimmed_start(s) == s.skip(n),
        forall|i: int| 0 <= i < n ==> s[i] == '_',
        n < s.len() ==> s[n] != '_',
    decreases s.len(),
{
    if s.len() > 0 && s[0] == '_' {
        let m = lemma_trimmed_start(s.drop_first());
        assert(s.drop_first().skip(m) =~= s.skip(m + 1));
        assert forall|i: int| 0 <= i < m + 1 implies s[i] == '_' by {
            if i > 0 {
                assert(s.drop_first()[i - 1] == s[i]);
            }
        }
        if m + 1 < s.len() {
            assert(s.drop_first()[m] == s[m + 1]);
        }
        m + 1
    } else {
        assert(s.skip(0) =~= s);
        0
    }
}

/// Trimming at the end removes a suffix made of underscores and leaves a
/// sequence that does not end with one.
proof fn lemma_trimmed_end(s: Seq<char>) -> (n: int)
    ensures
        0 <= n <= s.len(),
        trimmed_end(s) == s.take(n),
        forall|i: int| n <= i < s.len() ==> s[i] == '_',
        n > 0 ==> s[n - 1] != '_',
    decreases s.len(),
{
    if s.len() > 0 && s.last() == '_' {
        let m = lemma_trimmed_end(s.drop_last());
        assert(s.drop_last().take(m) =~= s.take(m));
        assert forall|i: int| m <= i < s.len() implies s[i] == '_' by {
            if i < s.len() - 1 {
                assert(s.drop_last()[i] == s[i]);
            }
        }
        if m > 0 {
            assert(s.drop_last()[m - 1] == s[m - 1]);
        }
        m
    } else {
        assert(s.take(s.len() as int) =~= s);
        s.len() as int
    }
}

proof fn lemma_trimmed_fixed(s: Seq<char>)
    requires
        s.len() > 0 ==> s[0] != '_' && s.last() != '_',
    ensures
        trimmed(s) == s,
{
}

/// The body of every slug, before a leading digit is guarded, has the
/// shape of [`is_slug_body`].
proof fn lemma_body_shape(s: Seq<char>)
    ensures
        is_slug_body(trimmed(collapsed(mapped(s)))),
{
    let m = mapped(s);
    let c = collapsed(m);
    lemma_collapsed_shape(m);
    let a = lemma_trimmed_start(c);
    let t = c.skip(a);
    let b = lemma_trimmed_end(t);
    let r = t.take(b);
    assert(r == trimmed(c));
    assert forall|i: int| 0 <= i < r.len() implies is_slug_letter(#[trigger] r[i]) || r[i]
        == '_' by {
        assert(r[i] == c[a + i]);
        assert(m.contains(c[a + i]));
        let k = choose|k: int| 0 <= k < m.len() && m[k] == c[a + i];
        lemma_slug_char_range(s[k]);
    }
    assert forall|i: int| 0 <= i < r.len() - 1 implies !(#[trigger] r[i] == '_' && r[i + 1]
        == '_') by {
        assert(r[i] == c[a + i] && r[i + 1] == c[a + i + 1]);
    }
    if r.len() > 0 {
        assert(r[0] == t[0] && t[0] == c[a]);
        assert(r.last() == t[b - 1]);
    }
}

/// A sequence with the shape of a slug body is its own body.
proof fn lemma_body_fixed(t: Seq<char>)
    requires
        is_slug_body(t),
    ensures
        trimmed(collapsed(mapped(guarded(t)))) == t,
{
    let u = guarded(t);
    assert forall|i: int| 0 <= i < u.len() implies slug_char(#[trigger] u[i]) == u[i] by {
        if u.len() > t.len() {
            if i > 0 {
                assert(u[i] == t[i - 1]);
            }
        }
        lemma_slug_char_range(u[i]);
    }
    assert(mapped(u) =~= u);
    assert forall|i: int| 0 <= i < u.len() - 1 implies !(#[trigger] u[i] == '_' && u[i + 1]
        == '_') by {
        if u.len() > t.len() {
            if i > 0 {
                assert(u[i] == t[i - 1] && u[i + 1] == t[i]);
            } else {
                assert(u[1] == t[0]);
            }
        }
    }
    lemma_collapsed_fixed(u);
    if u.len() > t.len() {
        assert(u.drop_first() =~= t);
        assert(trimmed_start(u) == trimmed_start(t));
    }
    lemma_trimmed_fixed(t);
}

/// Normalizing a slug again changes nothing.
pub proof fn lemma_slug_idempotent(s: Seq<char>)
    ensures
        slug(slug(s)) == slug(s),
{
    let t = trimmed(collapsed(mapped(s)));
    lemma_body_shape(s);
    lemma_body_fixed(t);
}

/// Every slug is made of lower-case ASCII letters, digits and underscores,
/// holds no two underscores in a row, does not end with an underscore and
/// does not start with a digit.
pub proof fn lemma_slug_shape(s: Seq<char>)
    ensures
        forall|i: int|
            0 <= i < slug(s).len() ==> is_slug_letter(#[trigger] slug(s)[i]) || slug(s)[i] == '_',
        forall|i: int|
            0 <= i < slug(s).len() - 1 ==> !(#[trigger] slug(s)[i] == '_' && slug(s)[i + 1]
                == '_'),
        slug(s).len() > 0 ==> slug(s).last() != '_' && !is_digit(slug(s)[0]),
{
    let t = trimmed(collapsed(mapped(s)));
    lemma_body_shape(s);
    let u = guarded(t);
    if u.len() > t.len() {
        assert forall|i: int| 0 <= i < u.len() implies is_slug_letter(#[trigger] u[i]) || u[i]
            == '_' by {
            if i > 0 {
                assert(u[i] == t[i - 1]);
            }
        }
        assert forall|i: int| 0 <= i < u.len() - 1 implies !(#[trigger] u[i] == '_' && u[i + 1]
            == '_') by {
            if i > 0 {
                assert(u[i] == t[i - 1] && u[i + 1] == t[i]);
            } else {
                assert(u[1] == t[0]);
            }
        }
        assert(u.last() == t.last());
    }
}

fn slug_char_exec(c: char) -> (r: char)
    ensures
        r == slug_char(c),
{
    if 'A' <= c && c <= 'Z' {
        ((c as u8) + 32) as char
    } else if ('a' <= c && c <= 'z') || ('0' <= c && c <= '9') {
        c
    } else {
        '_'
    }
}

/// The slug of `input`: lower-case ASCII letters and digits are kept,
/// upper-case ASCII letters are lowered, every other character becomes an
/// underscore; runs of underscores collapse into one; underscores at both
/// ends are removed; a result that starts with a digit gets one underscore
/// in front.
pub fn sanitize_slug_python(input: &str) -> (out: String)
    ensures
        out@ == slug(input@),
{
    let chars = to_chars(input);
    // Map and collapse in one pass.
    let mut body: Vec<char> = Vec::new();
    let mut i: usize = 0;
    let mut prev_us = false;
    proof {
        assert(mapped(chars@).take(0) =~= Seq::<char>::empty());
    }
    while i < chars.len()
        invariant
            i <= chars.len(),
            body@ == collapsed(mapped(chars@).take(i as int)),
            prev_us == (i > 0 && mapped(chars@)[i - 1] == '_'),
        decreases chars.len() - i,
    {
        let c = slug_char_exec(chars[i]);
        proof {
            let m = mapped(chars@);
            assert(m.take(i + 1).drop_last() =~= m.take(i as int));
            assert(m.take(i + 1).last() == c);
            if i > 0 {
                assert(m.take(i + 1)[i - 1] == m[i - 1]);
            }
        }
        if c == '_' {
            if !prev_us {
                body.push(c);
            }
            prev_us = true;
        } else {
            body.push(c);
            prev_us = false;
        }
        i += 1;
    }
    proof {
        assert(mapped(chars@).take(chars.len() as int) =~= mapped(chars@));
    }
    // Trim underscores at both ends.
    let ghost a = lemma_trimmed_start(body@);
    let mut start: usize = 0;
    while start < body.len() && body[start] == '_'
        invariant
            start <= body.len(),
            start <= a <= body.len(),
            a < body.len() ==> body@[a] != '_',
            forall|k: int| 0 <= k < start ==> body@[k] == '_',
        decreases body.len() - start,
    {
        start += 1;
    }
    assert(start == a);
    let ghost rest = body@.skip(a);
    let ghost b = lemma_trimmed_end(rest);
    let mut end: usize = body.len();
    while end > start && body[end - 1] == '_'
        invariant
            start <= end <= body.len(),
            start + b <= end,
            rest == body@.skip(start as int),
            b > 0 ==> rest[b - 1] != '_',
            forall|k: int| end <= k < body.len() ==> body@[k] == '_',
        decreases end,
    {
        proof {
            if start + b == end && b > 0 {
                assert(rest[b - 1] == body@[end - 1]);
            }
        }
        end -= 1;
    }
    proof {
        if start + b < end {
            assert(rest[end - start - 1] == body@[end - 1]);
            assert(rest[end - start - 1] == '_');
            assert(false);
        }
        assert(rest.take(b) =~= body@.subrange(start as int, end as int));
    }
    let mut out: Vec<char> = Vec::new();
    if start < end && '0' <= body[start] && body[start] <= '9' {
        out.push('_');
    }
    let ghost lead = out@;
    let mut k: usize = start;
    while k < end
        invariant
            start <= k <= end <= body.len(),
            out@ == lead + body@.subrange(start as int, k as int),
        decreases end - k,
    {
        out.push(body[k]);
        proof {
            assert(body@.subrange(start as int, k + 1) =~= body@.subrange(
                start as int,
                k as int,
            ).push(body@[k as int]));
            assert(out@ =~= lead + body@.subrange(start as int, k + 1));
        }
        k += 1;
    }
    proof {
        let t = body@.subrange(start as int, end as int);
        assert(t == trimmed(collapsed(mapped(chars@))));
        if t.len() > 0 {
            assert(t[0] == body@[start as int]);
        }
        assert(out@ =~= guarded(t));
    }
    to_string(&out)
}

} // verus!
