//! The manifest as it is written: a JSON object whose members declare the
//! variables of a template and the files that are copied as they are.

use crate::json::{json_document, parse_document};
use crate::manifest::{ChoiceLabel, Manifest, VarDef, VarKind};
use crate::text::{same_text, string_views, to_chars};
use crate::values::{Scalar, ScalarView};
use vstd::prelude::*;

verus! {

/// A value within a list or a table, as far as a manifest is read: a text,
/// or anything else.
#[derive(Debug)]
pub enum Item {
    Text(String),
    Other,
}

/// One entry of a table.
#[derive(Debug)]
pub struct Pair {
    pub key: String,
    pub value: Item,
}

/// The value of a member of the manifest.
#[derive(Debug)]
pub enum Field {
    Null,
    Text(String),
    Truth(bool),
    /// A number that is a 64-bit integer.
    Whole(i64),
    /// Any other number.
    Fraction,
    List(Vec<Item>),
    Table(Vec<Pair>),
}

/// One member of the manifest.
#[derive(Debug)]
pub struct Member {
    pub key: String,
    pub value: Field,
}

/// What was found where the manifest is looked for.
#[derive(Debug)]
pub enum Document {
    /// There is no manifest.
    Absent,
    /// The manifest cannot be read.
    Unreadable,
    /// What was read is no JSON.
    Malformed,
    /// What was read is JSON, and no object.
    NotAnObject,
    /// The members of the object, in the order in which they are listed.
    Object(Vec<Member>),
}

/// Why a manifest was refused.
#[derive(Debug, PartialEq, Eq, Clone, Copy, Structural)]
pub enum ManifestError {
    Unreadable,
    Malformed,
    NotAnObject,
}

/// What a [`VarKind`] stands for.
pub enum KindView {
    String,
    Bool,
    Number,
    Choice(Seq<Seq<char>>),
}

/// What a [`VarDef`] stands for.
pub struct DefView {
    pub name: Seq<char>,
    pub kind: KindView,
    pub default: Option<ScalarView>,
    pub labels: Option<Seq<(Seq<char>, Seq<char>)>>,
}

pub open spec fn kind_view(k: VarKind) -> KindView {
    match k {
        VarKind::String => KindView::String,
        VarKind::Bool => KindView::Bool,
        VarKind::Number => KindView::Number,
        VarKind::Choice(c) => KindView::Choice(string_views(c@)),
    }
}

pub open spec fn label_views(l: Seq<ChoiceLabel>) -> Seq<(Seq<char>, Seq<char>)> {
    Seq::new(l.len(), |i: int| (l[i].value@, l[i].label@))
}

pub open spec fn def_view(d: VarDef) -> DefView {
    DefView {
        name: d.name@,
        kind: kind_view(d.kind),
        default: match d.default {
            Some(v) => Some(v@),
            None => None,
        },
        labels: match d.choice_labels {
            Some(l) => Some(label_views(l@)),
            None => None,
        },
    }
}

pub open spec fn def_views(ds: Seq<VarDef>) -> Seq<DefView> {
    Seq::new(ds.len(), |i: int| def_view(ds[i]))
}

/// The texts among `items`, in their order.
pub open spec fn texts(items: Seq<Item>) -> Seq<Seq<char>>
    decreases items.len(),
{
    if items.len() == 0 {
        Seq::empty()
    } else {
        match items.last() {
            Item::Text(s) => texts(items.drop_last()).push(s@),
            Item::Other => texts(items.drop_last()),
        }
    }
}

/// An entry of a table offers a choice when its value is a text and its
/// key is not `__prompt__`.
pub open spec fn offers(p: Pair) -> bool {
    p.value is Text && p.key@ != "__prompt__"@
}

/// The choices that a table offers, each with its label, in their order.
pub open spec fn labelled(pairs: Seq<Pair>) -> Seq<(Seq<char>, Seq<char>)>
    decreases pairs.len(),
{
    if pairs.len() == 0 {
        Seq::empty()
    } else if offers(pairs.last()) {
        labelled(pairs.drop_last()).push((pairs.last().key@, pairs.last().value->Text_0@))
    } else {
        labelled(pairs.drop_last())
    }
}

/// The first of each pair.
pub open spec fn firsts(l: Seq<(Seq<char>, Seq<char>)>) -> Seq<Seq<char>> {
    Seq::new(l.len(), |i: int| l[i].0)
}

/// A member whose key begins with `_` declares no variable.
pub open spec fn is_reserved(key: Seq<char>) -> bool {
    key.len() > 0 && key[0] == '_'
}

/// The variable that a member declares, if any. A text, a truth value and
/// a number each declare a variable of their kind with the value as its
/// default; a number that is no 64-bit integer leaves the variable without
/// a default. A list declares a choice among its texts, a table a choice
/// among its keys, each with its text as the label; the first choice is the
/// default, and without any choice no variable is declared.
pub open spec fn declared(m: Member) -> Option<DefView> {
    if is_reserved(m.key@) {
        None
    } else {
        match m.value {
            Field::Null => None,
            Field::Text(s) => Some(
                DefView {
                    name: m.key@,
                    kind: KindView::String,
                    default: Some(ScalarView::Str(s@)),
                    labels: None,
                },
            ),
            Field::Truth(b) => Some(
                DefView {
                    name: m.key@,
                    kind: KindView::Bool,
                    default: Some(ScalarView::Bool(b)),
                    labels: None,
                },
            ),
            Field::Whole(i) => Some(
                DefView {
                    name: m.key@,
                    kind: KindView::Number,
                    default: Some(ScalarView::Int(i as int)),
                    labels: None,
                },
            ),
            Field::Fraction => Some(
                DefView { name: m.key@, kind: KindView::Number, default: None, labels: None },
            ),
            Field::List(items) => if texts(items@).len() == 0 {
                None
            } else {
                Some(
                    DefView {
                        name: m.key@,
                        kind: KindView::Choice(texts(items@)),
                        default: Some(ScalarView::Str(texts(items@)[0])),
                        labels: None,
                    },
                )
            },
            Field::Table(pairs) => if labelled(pairs@).len() == 0 {
                None
            } else {
                Some(
                    DefView {
                        name: m.key@,
                        kind: KindView::Choice(firsts(labelled(pairs@))),
                        default: Some(ScalarView::Str(labelled(pairs@)[0].0)),
                        labels: Some(labelled(pairs@)),
                    },
                )
            },
        }
    }
}

/// The variables that the members declare, in their order.
pub open spec fn variables_of(members: Seq<Member>) -> Seq<DefView>
    decreases members.len(),
{
    if members.len() == 0 {
        Seq::empty()
    } else {
        match declared(members.last()) {
            Some(d) => variables_of(members.drop_last()).push(d),
            None => variables_of(members.drop_last()),
        }
    }
}

/// The place of the first member with the key `key`.
pub open spec fn member_at(members: Seq<Member>, key: Seq<char>, from: int) -> Option<int>
    decreases members.len() - from,
{
    if from < 0 || from >= members.len() {
        None
    } else if members[from].key@ == key {
        Some(from)
    } else {
        member_at(members, key, from + 1)
    }
}

/// The patterns of the files that are copied as they are: the texts in the
/// list that is the member `_copy_without_render`.
pub open spec fn patterns_of(members: Seq<Member>) -> Seq<Seq<char>> {
    match member_at(members, "_copy_without_render"@, 0) {
        Some(k) => match members[k].value {
            Field::List(items) => texts(items@),
            _ => Seq::empty(),
        },
        None => Seq::empty(),
    }
}

/// What the document makes of a manifest: its variables and its patterns.
pub open spec fn manifest_of(doc: Document) -> Result<
    (Seq<DefView>, Seq<Seq<char>>),
    ManifestError,
> {
    match doc {
        Document::Absent => Ok((Seq::empty(), Seq::empty())),
        Document::Unreadable => Err(ManifestError::Unreadable),
        Document::Malformed => Err(ManifestError::Malformed),
        Document::NotAnObject => Err(ManifestError::NotAnObject),
        Document::Object(members) => Ok((variables_of(members@), patterns_of(members@))),
    }
}

/// The texts among `items`, in their order.
pub fn texts_among(items: &Vec<Item>) -> (out: Vec<String>)
    ensures
        string_views(out@) == texts(items@),
{
    let mut out: Vec<String> = Vec::new();
    let mut i: usize = 0;
    proof {
        assert(items@.take(0) =~= Seq::<Item>::empty());
        assert(string_views(out@) =~= texts(items@.take(0)));
    }
    while i < items.len()
        invariant
            i <= items.len(),
            string_views(out@) == texts(items@.take(i as int)),
        decreases items.len() - i,
    {
        let ghost before = string_views(out@);
        proof {
            assert(items@.take(i + 1).drop_last() =~= items@.take(i as int));
            assert(items@.take(i + 1).last() == items@[i as int]);
        }
        match &items[i] {
            Item::Text(s) => {
                out.push(s.clone());
                proof {
                    assert(string_views(out@) =~= before.push(s@));
                }
            },
            Item::Other => {},
        }
        i += 1;
    }
    proof {
        assert(items@.take(items.len() as int) =~= items@);
    }
    out
}

/// The choices that a table offers: the keys, and each key with its label.
pub fn choices_of(pairs: &Vec<Pair>) -> (out: (Vec<String>, Vec<ChoiceLabel>))
    ensures
        string_views(out.0@) == firsts(labelled(pairs@)),
        label_views(out.1@) == labelled(pairs@),
{
    let mut keys: Vec<String> = Vec::new();
    let mut labels: Vec<ChoiceLabel> = Vec::new();
    let mut i: usize = 0;
    proof {
        assert(pairs@.take(0) =~= Seq::<Pair>::empty());
        assert(label_views(labels@) =~= labelled(pairs@.take(0)));
        assert(string_views(keys@) =~= firsts(label_views(labels@)));
    }
    while i < pairs.len()
        invariant
            i <= pairs.len(),
            label_views(labels@) == labelled(pairs@.take(i as int)),
            string_views(keys@) == firsts(label_views(labels@)),
        decreases pairs.len() - i,
    {
        let ghost before = label_views(labels@);
        let ghost names = string_views(keys@);
        proof {
            assert(pairs@.take(i + 1).drop_last() =~= pairs@.take(i as int));
            assert(pairs@.take(i + 1).last() == pairs@[i as int]);
        }
        let pair = &pairs[i];
        match &pair.value {
            Item::Text(label) => {
                if !same_text(pair.key.as_str(), "__prompt__") {
                    keys.push(pair.key.clone());
                    labels.push(ChoiceLabel { value: pair.key.clone(), label: label.clone() });
                    proof {
                        assert(label_views(labels@) =~= before.push((pair.key@, label@)));
                        assert(string_views(keys@) =~= names.push(pair.key@));
                        assert(string_views(keys@) =~= firsts(label_views(labels@)));
                    }
                }
            },
            Item::Other => {},
        }
        i += 1;
    }
    proof {
        assert(pairs@.take(pairs.len() as int) =~= pairs@);
    }
    (keys, labels)
}

/// The variable that the member `m` declares, if any.
pub fn declare(m: &Member) -> (out: Option<VarDef>)
    ensures
        match out {
            Some(d) => declared(*m) == Some(def_view(d)),
            None => declared(*m) is None,
        },
{
    let key = to_chars(m.key.as_str());
    if key.len() > 0 && key[0] == '_' {
        return None;
    }
    match &m.value {
        Field::Null => None,
        Field::Text(s) => Some(
            VarDef {
                name: m.key.clone(),
                kind: VarKind::String,
                default: Some(Scalar::Str(s.clone())),
                choice_labels: None,
            },
        ),
        Field::Truth(b) => Some(
            VarDef {
                name: m.key.clone(),
                kind: VarKind::Bool,
                default: Some(Scalar::Bool(*b)),
                choice_labels: None,
            },
        ),
        Field::Whole(i) => Some(
            VarDef {
                name: m.key.clone(),
                kind: VarKind::Number,
                default: Some(Scalar::Int(*i)),
                choice_labels: None,
            },
        ),
        Field::Fraction => Some(
            VarDef {
                name: m.key.clone(),
                kind: VarKind::Number,
                default: None,
                choice_labels: None,
            },
        ),
        Field::List(items) => {
            let choices = texts_among(items);
            proof {
                assert(string_views(choices@).len() == choices@.len());
            }
            if choices.len() == 0 {
                return None;
            }
            let first = choices[0].clone();
            proof {
                assert(string_views(choices@)[0] == choices@[0]@);
            }
            Some(
                VarDef {
                    name: m.key.clone(),
                    kind: VarKind::Choice(choices),
                    default: Some(Scalar::Str(first)),
                    choice_labels: None,
                },
            )
        },
        Field::Table(pairs) => {
            let (keys, labels) = choices_of(pairs);
            proof {
                assert(string_views(keys@).len() == keys@.len());
                assert(firsts(labelled(pairs@)).len() == labelled(pairs@).len());
            }
            if keys.len() == 0 {
                return None;
            }
            let first = keys[0].clone();
            proof {
                assert(string_views(keys@)[0] == keys@[0]@);
                assert(firsts(labelled(pairs@))[0] == labelled(pairs@)[0].0);
            }
            Some(
                VarDef {
                    name: m.key.clone(),
                    kind: VarKind::Choice(keys),
                    default: Some(Scalar::Str(first)),
                    choice_labels: Some(labels),
                },
            )
        },
    }
}

/// The patterns of the files that are copied as they are.
pub fn copy_patterns(members: &Vec<Member>) -> (out: Vec<String>)
    ensures
        string_views(out@) == patterns_of(members@),
{
    let mut i: usize = 0;
    while i < members.len()
        invariant
            i <= members.len(),
            member_at(members@, "_copy_without_render"@, 0) == member_at(
                members@,
                "_copy_without_render"@,
                i as int,
            ),
        decreases members.len() - i,
    {
        if same_text(members[i].key.as_str(), "_copy_without_render") {
            return match &members[i].value {
                Field::List(items) => texts_among(items),
                _ => {
                    let out: Vec<String> = Vec::new();
                    proof {
                        assert(string_views(out@) =~= Seq::<Seq<char>>::empty());
                    }
                    out
                },
            };
        }
        i += 1;
    }
    let out: Vec<String> = Vec::new();
    proof {
        assert(string_views(out@) =~= Seq::<Seq<char>>::empty());
    }
    out
}

/// Reads the manifest from its text.
pub fn parse_manifest(text: &str) -> (r: Result<Manifest, ManifestError>)
    ensures
        match r {
            Ok(m) => manifest_of(json_document(text@)) == Ok::<
                (Seq<DefView>, Seq<Seq<char>>),
                ManifestError,
            >((def_views(m.variables@), string_views(m.copy_without_render@))),
            Err(e) => manifest_of(json_document(text@)) == Err::<
                (Seq<DefView>, Seq<Seq<char>>),
                ManifestError,
            >(e),
        },
{
    let doc = parse_document(text);
    load_manifest(&doc)
}

/// Reads the manifest from what was found where it is looked for. Without
/// a manifest a template has no variables and copies nothing as it is.
pub fn load_manifest(doc: &Document) -> (r: Result<Manifest, ManifestError>)
    ensures
        match r {
            Ok(m) => manifest_of(*doc) == Ok::<(Seq<DefView>, Seq<Seq<char>>), ManifestError>(
                (def_views(m.variables@), string_views(m.copy_without_render@)),
            ),
            Err(e) => manifest_of(*doc) == Err::<(Seq<DefView>, Seq<Seq<char>>), ManifestError>(
                e,
            ),
        },
{
    match doc {
        Document::Absent => {
            let m = Manifest { variables: Vec::new(), copy_without_render: Vec::new() };
            proof {
                assert(def_views(m.variables@) =~= Seq::<DefView>::empty());
                assert(string_views(m.copy_without_render@) =~= Seq::<Seq<char>>::empty());
            }
            Ok(m)
        },
        Document::Unreadable => Err(ManifestError::Unreadable),
        Document::Malformed => Err(ManifestError::Malformed),
        Document::NotAnObject => Err(ManifestError::NotAnObject),
        Document::Object(members) => {
            let copy_without_render = copy_patterns(members);
            let mut variables: Vec<VarDef> = Vec::new();
            let mut i: usize = 0;
            proof {
                assert(members@.take(0) =~= Seq::<Member>::empty());
                assert(def_views(variables@) =~= variables_of(members@.take(0)));
            }
            while i < members.len()
                invariant
                    i <= members.len(),
                    def_views(variables@) == variables_of(members@.take(i as int)),
                decreases members.len() - i,
            {
                let ghost before = def_views(variables@);
                proof {
                    assert(members@.take(i + 1).drop_last() =~= members@.take(i as int));
                    assert(members@.take(i + 1).last() == members@[i as int]);
                }
                match declare(&members[i]) {
                    Some(d) => {
                        variables.push(d);
                        proof {
                            assert(def_views(variables@) =~= before.push(def_view(d)));
                        }
                    },
                    None => {},
                }
                i += 1;
            }
            proof {
                assert(members@.take(members.len() as int) =~= members@);
            }
            Ok(Manifest { variables, copy_without_render })
        },
    }
}

} // verus!
