//! JSON with comments, as `jsonc_parser` reads, changes and writes it: what is not changed keeps its
//! layout and its comments.
use jsonc_parser::cst::{CstInputValue, CstRootNode};
use vstd::prelude::*;

use crate::json;
use crate::number;
use crate::text;
use crate::tree;

verus! {

// ---------------------------------------------------------------------------
// The model
// ---------------------------------------------------------------------------

/// A value of a document.
pub ghost enum Jsonc {
    /// An object: its members whose names can be read, in order. A name can stand twice.
    Object(Seq<(Seq<char>, Jsonc)>),
    /// An array: what each element stands for as plain JSON, if it stands for anything.
    List(Seq<Option<json::JsonTree>>),
    /// Anything else, or nothing.
    Other(Option<json::JsonTree>),
}

impl Jsonc {
    /// Whether this is an object with a member called `key`.
    pub open spec fn has(self, key: Seq<char>) -> bool {
        self is Object && tree::has_key(self->Object_0, key)
    }

    /// The first member called `key`, or nothing where there is none.
    pub open spec fn child(self, key: Seq<char>) -> Jsonc {
        if self.has(key) {
            self->Object_0[tree::position(self->Object_0, key)].1
        } else {
            Jsonc::Other(None)
        }
    }

    /// This object with another value of its first member called `key`.
    pub open spec fn with(self, key: Seq<char>, value: Jsonc) -> Jsonc {
        if self.has(key) {
            Jsonc::Object(
                self->Object_0.update(tree::position(self->Object_0, key), (key, value)),
            )
        } else {
            self
        }
    }

    /// This object with one more member.
    pub open spec fn and(self, key: Seq<char>, value: Jsonc) -> Jsonc {
        Jsonc::Object(self->Object_0.push((key, value)))
    }

    /// What a path of keys leads to.
    pub open spec fn at(self, path: Seq<Seq<char>>) -> Jsonc
        decreases path.len(),
    {
        if path.len() == 0 {
            self
        } else {
            self.child(path[0]).at(path.drop_first())
        }
    }

    /// This with another value at the end of a path of keys.
    pub open spec fn put(self, path: Seq<Seq<char>>, value: Jsonc) -> Jsonc
        decreases path.len(),
    {
        if path.len() == 0 {
            value
        } else {
            self.with(path[0], self.child(path[0]).put(path.drop_first(), value))
        }
    }
}

/// What [`Jsonc::with`] and [`Jsonc::and`] change: one member, and no other.
pub proof fn lemma_with(t: Jsonc, key: Seq<char>, value: Jsonc, other: Seq<char>)
    requires
        t is Object,
    ensures
        t.has(key) ==> t.with(key, value).has(key) && t.with(key, value).child(key) == value
            && t.with(key, t.child(key)) == t,
        t.with(key, value).has(other) == t.has(other),
        other != key ==> t.with(key, value).child(other) == t.child(other),
        !t.has(key) ==> t.and(key, value).has(key) && t.and(key, value).child(key) == value,
        other != key ==> t.and(key, value).has(other) == t.has(other) && t.and(key, value).child(
            other,
        ) == t.child(other),
{
    let s = t->Object_0;
    tree::lemma_position(s, key);
    tree::lemma_position(s, other);
    let p = tree::position(s, key);
    let q = tree::position(s, other);
    let more = s.push((key, value));
    assert forall|i: int| 0 <= i < p implies (#[trigger] more[i]).0 != key by {
        assert(more[i] == s[i]);
    }
    if p == s.len() {
        tree::lemma_position_is(more, key, p);
    }
    if other != key {
        let found = if q == s.len() {
            more.len() as int
        } else {
            q
        };
        assert forall|i: int| 0 <= i < found implies (#[trigger] more[i]).0 != other by {
            if i < s.len() {
                assert(more[i] == s[i]);
            }
        }
        tree::lemma_position_is(more, other, found);
    }
    if t.has(key) {
        let after = s.update(p, (key, value));
        assert forall|i: int| 0 <= i < s.len() implies (#[trigger] after[i]).0 == s[i].0 by {}
        tree::lemma_position_is(after, key, p);
        tree::lemma_position_is(after, other, q);
        assert(s.update(p, (key, t.child(key))) =~= s);
    }
}

/// Of two values of a member the second stays.
pub proof fn lemma_with_twice(t: Jsonc, key: Seq<char>, value: Jsonc, next: Jsonc)
    requires
        t is Object,
    ensures
        t.with(key, value).with(key, next) == t.with(key, next),
        !t.has(key) ==> t.and(key, value).with(key, next) == t.and(key, next),
{
    lemma_with(t, key, value, key);
    let s = t->Object_0;
    tree::lemma_position(s, key);
    let p = tree::position(s, key);
    if t.has(key) {
        let after = s.update(p, (key, value));
        assert forall|i: int| 0 <= i < p implies (#[trigger] after[i]).0 != key by {
            assert(after[i] == s[i]);
        }
        tree::lemma_position_is(after, key, p);
        assert(after.update(p, (key, next)) =~= s.update(p, (key, next)));
    } else {
        let more = s.push((key, value));
        assert forall|i: int| 0 <= i < p implies (#[trigger] more[i]).0 != key by {
            assert(more[i] == s[i]);
        }
        tree::lemma_position_is(more, key, p);
        assert(more.update(p, (key, next)) =~= s.push((key, next)));
    }
}

/// A path of one key.
pub proof fn lemma_short_path(t: Jsonc, key: Seq<char>, value: Jsonc)
    ensures
        t.at(Seq::empty()) == t,
        t.put(Seq::empty(), value) == value,
        t.at(seq![key]) == t.child(key),
        t.put(seq![key], value) == t.with(key, value),
{
    assert(seq![key].drop_first() =~= Seq::<Seq<char>>::empty());
    let child = t.child(key);
    assert(child.at(Seq::empty()) == child);
    assert(child.put(Seq::empty(), value) == value);
}

// ---------------------------------------------------------------------------
// jsonc_parser
// ---------------------------------------------------------------------------

/// `jsonc_parser::cst::CstRootNode`, a document that can be changed and written back.
///
/// A copy of a root node shares its document, so no copy is made: a document is changed only through
/// the one `&mut` to it.
#[verifier::external_type_specification]
#[verifier::external_body]
pub struct ExCstRootNode(jsonc_parser::cst::CstRootNode);

/// `jsonc_parser::cst::CstInputValue`, a value that is to be put into a document.
#[verifier::external_type_specification]
#[verifier::external_body]
pub struct ExCstInputValue(jsonc_parser::cst::CstInputValue);

/// What a document holds.
pub uninterp spec fn jsonc_tree(root: CstRootNode) -> Jsonc;

/// The text that a document is written as.
pub uninterp spec fn jsonc_text(root: CstRootNode) -> Seq<char>;

/// The document that a text holds, or the complaint where it is no JSON with comments.
pub uninterp spec fn jsonc_parsed(text: Seq<char>) -> Result<CstRootNode, Seq<char>>;

/// A value that is to be put into a document, as it will be written: the members of an object in the
/// order in which they were given.
pub uninterp spec fn input_tree(value: CstInputValue) -> json::JsonTree;

/// What a value that is to be put into a document stands for as plain JSON.
pub uninterp spec fn input_value(value: CstInputValue) -> json::JsonTree;

/// A document with one more member at the end of the object at `path`.
pub uninterp spec fn jsonc_with_member(
    root: CstRootNode,
    path: Seq<Seq<char>>,
    key: Seq<char>,
    value: json::JsonTree,
) -> CstRootNode;

/// A document with one more element at the end of the array behind `key` of the object at `path`.
pub uninterp spec fn jsonc_with_element(
    root: CstRootNode,
    path: Seq<Seq<char>>,
    key: Seq<char>,
    value: json::JsonTree,
) -> CstRootNode;

/// A document without one element of the array behind `key` of the object at `path`.
pub uninterp spec fn jsonc_without_element(
    root: CstRootNode,
    path: Seq<Seq<char>>,
    key: Seq<char>,
    index: int,
) -> CstRootNode;

/// `CstRootNode::parse`: whether `text` can be read, the document that it holds, and what
/// `<ParseError as Display>` says where it cannot, depend on `text` alone. The document keeps every
/// part of the text, so that one that was only read is written as it was.
#[verifier::external_body]
pub(crate) fn parse_jsonc(text: &str) -> (r: Result<CstRootNode, String>)
    ensures
        match r {
            Ok(root) => jsonc_parsed(text@) == Ok::<CstRootNode, Seq<char>>(root) && jsonc_text(root)
                == text@,
            Err(m) => jsonc_parsed(text@) == Err::<CstRootNode, Seq<char>>(m@),
        },
{
    CstRootNode::parse(text, &Default::default()).map_err(|e| e.to_string())
}

/// `<CstRootNode as Display>::to_string`.
#[verifier::external_body]
pub(crate) fn print_jsonc(root: &CstRootNode) -> (r: String)
    ensures
        r@ == jsonc_text(*root),
{
    root.to_string()
}

/// `CstRootNode::object_value` and, for each key of `path`, `CstObject::object_value`: whether the
/// path leads to an object.
#[verifier::external_body]
pub(crate) fn is_object(root: &CstRootNode, path: &Vec<String>) -> (r: bool)
    ensures
        r == (jsonc_tree(*root).at(text::views(path@)) is Object),
{
    path.iter().fold(root.object_value(), |o, key| o?.object_value(key)).is_some()
}

/// `CstObject::get`: whether the object at `path` has a member called `key`.
#[verifier::external_body]
pub(crate) fn has_member(root: &CstRootNode, path: &Vec<String>, key: &str) -> (r: bool)
    requires
        jsonc_tree(*root).at(text::views(path@)) is Object,
    ensures
        r == jsonc_tree(*root).at(text::views(path@)).has(key@),
{
    let object = path.iter().fold(root.object_value(), |o, key| o?.object_value(key));
    object.unwrap().get(key).is_some()
}

/// `CstObject::array_value`: whether the first member called `key` of the object at `path` is an
/// array.
#[verifier::external_body]
pub(crate) fn is_list(root: &CstRootNode, path: &Vec<String>, key: &str) -> (r: bool)
    requires
        jsonc_tree(*root).at(text::views(path@)) is Object,
    ensures
        r == (jsonc_tree(*root).at(text::views(path@)).child(key@) is List),
{
    let object = path.iter().fold(root.object_value(), |o, key| o?.object_value(key));
    object.unwrap().array_value(key).is_some()
}

/// `CstArray::elements`, with `CstNode::to_serde_value` of each.
#[verifier::external_body]
pub(crate) fn elements(root: &CstRootNode, path: &Vec<String>, key: &str) -> (r: Vec<
    Option<serde_json::Value>,
>)
    requires
        jsonc_tree(*root).at(text::views(path@)) is Object,
        jsonc_tree(*root).at(text::views(path@)).child(key@) is List,
    ensures
        r@.len() == jsonc_tree(*root).at(text::views(path@)).child(key@)->List_0.len(),
        forall|i: int|
            0 <= i < r@.len() ==> value_option(#[trigger] r@[i]) == jsonc_tree(*root).at(
                text::views(path@),
            ).child(key@)->List_0[i],
{
    let object = path.iter().fold(root.object_value(), |o, key| o?.object_value(key));
    let array = object.unwrap().array_value(key).unwrap();
    array.elements().iter().map(|element| element.to_serde_value()).collect()
}

/// What an element stands for, if for anything.
pub open spec fn value_option(value: Option<serde_json::Value>) -> Option<json::JsonTree> {
    match value {
        Some(value) => Some(json::value_tree(value)),
        None => None,
    }
}

/// `CstObject::append` of an object or an array with nothing in it: the object at `path` has one more
/// member, at its end. Nothing else in the document means something else than before, and how it is
/// written then depends on the document, the place, the name and the value alone.
#[verifier::external_body]
pub(crate) fn append_member(
    root: &mut CstRootNode,
    path: &Vec<String>,
    key: &str,
    value: CstInputValue,
)
    requires
        jsonc_tree(*old(root)).at(text::views(path@)) is Object,
        input_tree(value) == json::JsonTree::Object(Seq::empty()) || input_tree(value)
            == json::JsonTree::List(Seq::empty()),
    ensures
        *final(root) == jsonc_with_member(
            *old(root),
            text::views(path@),
            key@,
            input_tree(value),
        ),
        jsonc_tree(*final(root)) == jsonc_tree(*old(root)).put(
            text::views(path@),
            jsonc_tree(*old(root)).at(text::views(path@)).and(
                key@,
                if input_tree(value) is Object {
                    Jsonc::Object(Seq::empty())
                } else {
                    Jsonc::List(Seq::empty())
                },
            ),
        ),
{
    let object = path.iter().fold(root.object_value(), |o, key| o?.object_value(key));
    object.unwrap().append(key, value);
}

/// `CstArray::append`: the array behind `key` of the object at `path` has one more element, at its
/// end. Nothing else in the document means something else than before, and how it is written then
/// depends on the document, the place and the value alone.
#[verifier::external_body]
pub(crate) fn append_element(
    root: &mut CstRootNode,
    path: &Vec<String>,
    key: &str,
    value: CstInputValue,
)
    requires
        jsonc_tree(*old(root)).at(text::views(path@)) is Object,
        jsonc_tree(*old(root)).at(text::views(path@)).child(key@) is List,
    ensures
        *final(root) == jsonc_with_element(
            *old(root),
            text::views(path@),
            key@,
            input_tree(value),
        ),
        jsonc_tree(*final(root)) == jsonc_tree(*old(root)).put(
            text::views(path@),
            jsonc_tree(*old(root)).at(text::views(path@)).with(
                key@,
                Jsonc::List(
                    jsonc_tree(*old(root)).at(text::views(path@)).child(key@)->List_0.push(
                        Some(input_value(value)),
                    ),
                ),
            ),
        ),
{
    let object = path.iter().fold(root.object_value(), |o, key| o?.object_value(key));
    object.unwrap().array_value(key).unwrap().append(value);
}

/// `CstNode::remove` of an element of the array behind `key` of the object at `path`. Nothing else in
/// the document means something else than before, and how it is written then depends on the
/// document and the place alone.
#[verifier::external_body]
pub(crate) fn remove_element(root: &mut CstRootNode, path: &Vec<String>, key: &str, index: usize)
    requires
        jsonc_tree(*old(root)).at(text::views(path@)) is Object,
        jsonc_tree(*old(root)).at(text::views(path@)).child(key@) is List,
        index < jsonc_tree(*old(root)).at(text::views(path@)).child(key@)->List_0.len(),
    ensures
        *final(root) == jsonc_without_element(
            *old(root),
            text::views(path@),
            key@,
            index as int,
        ),
        jsonc_tree(*final(root)) == jsonc_tree(*old(root)).put(
            text::views(path@),
            jsonc_tree(*old(root)).at(text::views(path@)).with(
                key@,
                Jsonc::List(
                    jsonc_tree(*old(root)).at(text::views(path@)).child(key@)->List_0.remove(
                        index as int,
                    ),
                ),
            ),
        ),
{
    let object = path.iter().fold(root.object_value(), |o, key| o?.object_value(key));
    object.unwrap().array_value(key).unwrap().elements().remove(index).remove();
}

/// `CstInputValue::String`.
#[verifier::external_body]
pub(crate) fn input_text(text: &str) -> (r: CstInputValue)
    ensures
        input_tree(r) == json::JsonTree::Text(text@),
        input_value(r) == json::JsonTree::Text(text@),
{
    CstInputValue::from(text)
}

/// `<CstInputValue as From<u64>>::from`.
#[verifier::external_body]
pub(crate) fn input_number(n: u64) -> (r: CstInputValue)
    ensures
        input_tree(r) == json::JsonTree::Number(number::decimal(n as int)),
        input_value(r) == json::JsonTree::Number(number::decimal(n as int)),
{
    CstInputValue::from(n)
}

/// `CstInputValue::Array`.
#[verifier::external_body]
pub(crate) fn input_list(items: Vec<CstInputValue>) -> (r: CstInputValue)
    ensures
        input_tree(r) == json::JsonTree::List(items@.map_values(|v: CstInputValue| input_tree(v))),
        input_value(r) == json::JsonTree::List(
            items@.map_values(|v: CstInputValue| input_value(v)),
        ),
{
    CstInputValue::Array(items)
}

/// `CstInputValue::Object`. As plain JSON its members stand in the order of their names.
#[verifier::external_body]
pub(crate) fn input_object(members: Vec<(String, CstInputValue)>) -> (r: CstInputValue)
    ensures
        input_tree(r) == json::JsonTree::Object(
            members@.map_values(|m: (String, CstInputValue)| (m.0@, input_tree(m.1))),
        ),
        input_value(r) == json::JsonTree::Object(
            json::sorted(members@.map_values(|m: (String, CstInputValue)| (m.0@, input_value(m.1)))),
        ),
{
    CstInputValue::Object(members)
}

} // verus!
