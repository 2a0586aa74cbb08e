//! What becomes of the answers that a user gives for the variables.

use crate::manifest::{ChoiceLabel, VarDef, VarKind};
use crate::number::{parse_i64, parsed_i64};
use crate::resolver::Store;
use crate::source::has_segment;
use crate::text::{
    ends_with, occurs_at_exec, same_text, slice_chars, string_views, to_chars, to_string,
    trim_end_space, trim_space, trimmed_end, trimmed_space,
};
use crate::values::{Bindings, Scalar, ScalarView};
use vstd::prelude::*;

verus! {

/// What `char::to_uppercase` gives for a character: its upper-case form,
/// which may be more than one character.
pub uninterp spec fn uppercase(c: char) -> Seq<char>;

/// The upper-case form of a character.
///
/// Trusted: this is `char::to_uppercase`, whose result is an iterator over
/// the characters of the upper-case form; they are collected in order. The
/// contract only gives that result its name.
#[verifier::external_body]
fn upper_chars(c: char) -> (out: Vec<char>)
    ensures
        out@ == uppercase(c),
{
    c.to_uppercase().collect()
}

/// An answer that cannot be taken.
#[derive(Debug, PartialEq, Eq, Clone, Copy, Structural)]
pub enum PromptError {
    /// The answer for a number is no 64-bit integer in decimal digits.
    NotANumber,
}

/// An answer as it was taken.
pub struct Answer {
    pub value: Scalar,
    /// The answer named no choice, and the default was taken in its place.
    pub refused: bool,
}

/// `s` without `suffix` at its end, as often as it stands there.
pub open spec fn stripped(s: Seq<char>, suffix: Seq<char>) -> Seq<char>
    decreases s.len(),
{
    if suffix.len() > 0 && ends_with(s, suffix) {
        stripped(s.take(s.len() - suffix.len()), suffix)
    } else {
        s
    }
}

/// The heading under which the choices of the variable `name` are shown:
/// a name that ends in `_code` is shown without that ending and with its
/// first character in upper case, where anything is left of it.
pub open spec fn heading(name: Seq<char>) -> Seq<char> {
    let base = stripped(name, "_code"@);
    if ends_with(name, "_code"@) && base.len() > 0 {
        uppercase(base[0]) + base.skip(1)
    } else {
        name
    }
}

/// The label of the first of the first `upto` entries for `value`.
pub open spec fn label_among(labels: Seq<ChoiceLabel>, value: Seq<char>, upto: int) -> Option<
    Seq<char>,
>
    decreases upto,
{
    if upto <= 0 {
        None
    } else {
        match label_among(labels, value, upto - 1) {
            Some(l) => Some(l),
            None => if labels[upto - 1].value@ == value {
                Some(labels[upto - 1].label@)
            } else {
                None
            },
        }
    }
}

/// The label under which the choice `value` is shown: its own label, or
/// the value itself where it has none.
pub open spec fn label_of(labels: Option<Vec<ChoiceLabel>>, value: Seq<char>) -> Seq<char> {
    match labels {
        Some(l) => match label_among(l@, value, l@.len() as int) {
            Some(text) => text,
            None => value,
        },
        None => value,
    }
}

/// What `b` holds for `name`, if anything.
pub open spec fn current(b: Store, name: Seq<char>) -> Option<ScalarView> {
    if b.contains_key(name) {
        Some(b[name])
    } else {
        None
    }
}

/// The text offered as the default of a text variable: what it holds,
/// where that is a text.
pub open spec fn text_default(held: Option<ScalarView>) -> Option<Seq<char>> {
    match held {
        Some(ScalarView::Str(s)) => Some(s),
        _ => None,
    }
}

/// The default of a yes-or-no variable: what it holds, where that is a
/// truth value; otherwise no.
pub open spec fn truth_default(held: Option<ScalarView>) -> bool {
    match held {
        Some(ScalarView::Bool(b)) => b,
        _ => false,
    }
}

/// The default of a number variable: what it holds, where that is a
/// number.
pub open spec fn number_default(held: Option<ScalarView>) -> Option<int> {
    match held {
        Some(ScalarView::Int(i)) => Some(i),
        _ => None,
    }
}

/// The default of a choice: what the variable holds, where that is one of
/// the choices; otherwise the first choice, and the empty text where there
/// is no choice at all.
pub open spec fn choice_default(held: Option<ScalarView>, choices: Seq<Seq<char>>) -> Seq<char> {
    match held {
        Some(ScalarView::Str(d)) if choices.contains(d) => d,
        _ => if choices.len() > 0 {
            choices[0]
        } else {
            Seq::empty()
        },
    }
}

/// The answer for a text variable: the line as it is, and the default, or
/// else the empty text, for an empty line.
pub open spec fn text_answer(line: Seq<char>, default: Option<Seq<char>>) -> Seq<char> {
    if line.len() > 0 {
        line
    } else {
        match default {
            Some(d) => d,
            None => Seq::empty(),
        }
    }
}

/// The answer for a yes-or-no variable: the default for a blank line, and
/// otherwise yes where the first character that is not white space is a
/// `y`, small or capital.
pub open spec fn truth_answer(line: Seq<char>, default: bool) -> bool {
    let t = trimmed_space(line);
    if t.len() == 0 {
        default
    } else {
        t[0] == 'y' || t[0] == 'Y'
    }
}

/// The answer for a number variable: the default, or else zero, for a
/// blank line, and otherwise the number that stands on the line between
/// white space.
pub open spec fn number_answer(line: Seq<char>, default: Option<int>) -> Result<
    int,
    PromptError,
> {
    let t = trimmed_space(line);
    if t.len() == 0 {
        match default {
            Some(d) => Ok(d),
            None => Ok(0),
        }
    } else {
        match parsed_i64(t) {
            Some(v) => Ok(v as int),
            None => Err(PromptError::NotANumber),
        }
    }
}

/// The answer names none of the choices.
pub open spec fn choice_refused(line: Seq<char>, choices: Seq<Seq<char>>) -> bool {
    trimmed_space(line).len() > 0 && !choices.contains(trimmed_space(line))
}

/// The answer for a choice: what stands on the line between white space,
/// where that is one of the choices, and the default otherwise.
pub open spec fn choice_answer(line: Seq<char>, choices: Seq<Seq<char>>, default: Seq<char>) -> Seq<
    char,
> {
    if trimmed_space(line).len() > 0 && choices.contains(trimmed_space(line)) {
        trimmed_space(line)
    } else {
        default
    }
}

/// What the answer `line` for the variable `def` comes to, given what the
/// variable holds: the value, and whether the answer was refused and the
/// default taken in its place.
pub open spec fn answered(def: VarDef, held: Option<ScalarView>, line: Seq<char>) -> Result<
    (ScalarView, bool),
    PromptError,
> {
    match def.kind {
        VarKind::String => Ok((ScalarView::Str(text_answer(line, text_default(held))), false)),
        VarKind::Bool => Ok((ScalarView::Bool(truth_answer(line, truth_default(held))), false)),
        VarKind::Number => match number_answer(line, number_default(held)) {
            Ok(v) => Ok((ScalarView::Int(v), false)),
            Err(e) => Err(e),
        },
        VarKind::Choice(choices) => Ok(
            (
                ScalarView::Str(
                    choice_answer(
                        line,
                        string_views(choices@),
                        choice_default(held, string_views(choices@)),
                    ),
                ),
                choice_refused(line, string_views(choices@)),
            ),
        ),
    }
}

/// A line that was read, without the white space at its end.
pub fn read_line_text(line: &str) -> (out: String)
    ensures
        out@ == trimmed_end(line@),
{
    let chars = to_chars(line);
    to_string(&trim_end_space(&chars))
}

/// The heading under which the choices of the variable `name` are shown.
pub fn choice_heading(name: &str) -> (out: String)
    ensures
        out@ == heading(name@),
{
    let chars = to_chars(name);
    let suffix = to_chars("_code");
    if chars.len() < suffix.len() || !occurs_at_exec(&chars, chars.len() - suffix.len(), &suffix) {
        return name.to_owned();
    }
    let mut base = slice_chars(&chars, 0, chars.len());
    proof {
        reveal_strlit("_code");
        assert(base@ =~= chars@);
    }
    while base.len() >= suffix.len() && occurs_at_exec(&base, base.len() - suffix.len(), &suffix)
        invariant
            suffix@ == "_code"@,
            suffix@.len() == 5,
            stripped(chars@, suffix@) == stripped(base@, suffix@),
        decreases base.len(),
    {
        let ghost before = base@;
        base = slice_chars(&base, 0, base.len() - suffix.len());
        proof {
            assert(base@ =~= before.take(before.len() - suffix@.len()));
        }
    }
    if base.len() == 0 {
        return name.to_owned();
    }
    let mut out = upper_chars(base[0]);
    let ghost lead = out@;
    let mut k: usize = 1;
    while k < base.len()
        invariant
            1 <= k <= base.len(),
            out@ == lead + base@.subrange(1, k as int),
        decreases base.len() - k,
    {
        out.push(base[k]);
        proof {
            assert(out@ =~= lead + base@.subrange(1, k + 1));
        }
        k += 1;
    }
    proof {
        assert(base@.subrange(1, base.len() as int) =~= base@.skip(1));
    }
    to_string(&out)
}

/// The label under which the choice `value` of the variable `def` is
/// shown.
pub fn choice_label(def: &VarDef, value: &str) -> (out: String)
    ensures
        out@ == label_of(def.choice_labels, value@),
{
    match &def.choice_labels {
        Some(labels) => {
            let mut i: usize = 0;
            while i < labels.len()
                invariant
                    i <= labels.len(),
                    def.choice_labels == Some(*labels),
                    label_among(labels@, value@, i as int) is None,
                decreases labels.len() - i,
            {
                if same_text(labels[i].value.as_str(), value) {
                    proof {
                        lemma_label_found(labels@, value@, i as int, labels@.len() as int);
                    }
                    return labels[i].label.clone();
                }
                i += 1;
            }
            value.to_owned()
        },
        None => value.to_owned(),
    }
}

proof fn lemma_label_found(labels: Seq<ChoiceLabel>, value: Seq<char>, k: int, upto: int)
    requires
        0 <= k < upto <= labels.len(),
        label_among(labels, value, k) is None,
        labels[k].value@ == value,
    ensures
        label_among(labels, value, upto) == Some(labels[k].label@),
    decreases upto,
{
    if upto > k + 1 {
        lemma_label_found(labels, value, k, upto - 1);
    }
}

/// The default that is offered for a choice among `choices`.
pub fn default_choice(held: Option<&Scalar>, choices: &Vec<String>) -> (out: String)
    ensures
        out@ == choice_default(
            match held {
                Some(v) => Some(v@),
                None => None,
            },
            string_views(choices@),
        ),
{
    match held {
        Some(Scalar::Str(d)) => {
            if has_segment(choices, d.as_str()) {
                return d.clone();
            }
        },
        _ => {},
    }
    if choices.len() > 0 {
        proof {
            assert(string_views(choices@)[0] == choices@[0]@);
        }
        choices[0].clone()
    } else {
        String::new()
    }
}

/// Takes the answer `line` for the variable `def`, given the bindings as
/// they stand.
pub fn take_answer(def: &VarDef, vars: &Bindings, line: &str) -> (r: Result<Answer, PromptError>)
    ensures
        match r {
            Ok(a) => answered(*def, current(vars@, def.name@), line@) == Ok::<
                (ScalarView, bool),
                PromptError,
            >((a.value@, a.refused)),
            Err(e) => answered(*def, current(vars@, def.name@), line@) == Err::<
                (ScalarView, bool),
                PromptError,
            >(e),
        },
{
    let held = vars.get(def.name.as_str());
    let chars = to_chars(line);
    let inner = trim_space(&chars);
    match &def.kind {
        VarKind::String => {
            let text = if chars.len() > 0 {
                line.to_owned()
            } else {
                match held {
                    Some(Scalar::Str(d)) => d.clone(),
                    _ => String::new(),
                }
            };
            Ok(Answer { value: Scalar::Str(text), refused: false })
        },
        VarKind::Bool => {
            let fallback = match held {
                Some(Scalar::Bool(b)) => *b,
                _ => false,
            };
            let yes = if inner.len() == 0 {
                fallback
            } else {
                inner[0] == 'y' || inner[0] == 'Y'
            };
            Ok(Answer { value: Scalar::Bool(yes), refused: false })
        },
        VarKind::Number => {
            let number = if inner.len() == 0 {
                match held {
                    Some(Scalar::Int(i)) => *i,
                    _ => 0,
                }
            } else {
                match parse_i64(&inner) {
                    Some(v) => v,
                    None => {
                        return Err(PromptError::NotANumber);
                    },
                }
            };
            Ok(Answer { value: Scalar::Int(number), refused: false })
        },
        VarKind::Choice(choices) => {
            let fallback = default_choice(held, choices);
            let typed = to_string(&inner);
            if inner.len() == 0 {
                Ok(Answer { value: Scalar::Str(fallback), refused: false })
            } else if has_segment(choices, typed.as_str()) {
                Ok(Answer { value: Scalar::Str(typed), refused: false })
            } else {
                Ok(Answer { value: Scalar::Str(fallback), refused: true })
            }
        },
    }
}

/// Takes the answer `line` for the variable `def` and binds the variable
/// to it. Says whether the answer was refused and the default taken in its
/// place. Where the answer cannot be taken the bindings stay as they are.
pub fn collect_answer(vars: &mut Bindings, def: &VarDef, line: &str) -> (r: Result<
    bool,
    PromptError,
>)
    ensures
        match r {
            Ok(refused) => {
                &&& answered(*def, current(old(vars)@, def.name@), line@) matches Ok(a)
                &&& a.1 == refused
                &&& final(vars)@ == old(vars)@.insert(def.name@, a.0)
            },
            Err(e) => answered(*def, current(old(vars)@, def.name@), line@) == Err::<
                (ScalarView, bool),
                PromptError,
            >(e) && final(vars)@ == old(vars)@,
        },
{
    match take_answer(def, vars, line) {
        Ok(a) => {
            vars.insert(def.name.as_str(), a.value);
            Ok(a.refused)
        },
        Err(e) => Err(e),
    }
}

} // verus!
