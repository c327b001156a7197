//! JSON values: the tree that the rest of the library reads, and how text becomes one.
use vstd::prelude::*;

use crate::number;
use crate::text;
use crate::tree;

verus! {

/// A JSON value as a mathematical tree. A number is the text that stands for it; an object is the
/// list of its members in the order of their keys.
pub enum JsonTree {
    Null,
    Bool(bool),
    Number(Seq<char>),
    Text(Seq<char>),
    List(Seq<JsonTree>),
    Object(Seq<(Seq<char>, JsonTree)>),
}

/// A JSON value.
#[derive(Debug)]
pub enum Json {
    Null,
    Bool(bool),
    Number(serde_json::Number),
    Text(String),
    List(Vec<Json>),
    Object(Vec<(String, Json)>),
}

/// The tree that `j` stands for.
pub open spec fn tree_of(j: Json) -> JsonTree
    decreases j,
{
    match j {
        Json::Null => JsonTree::Null,
        Json::Bool(b) => JsonTree::Bool(b),
        Json::Number(n) => JsonTree::Number(number_text(n)),
        Json::Text(t) => JsonTree::Text(t@),
        Json::List(v) => JsonTree::List(
            Seq::new(
                v@.len(),
                |i: int|
                    if 0 <= i < v@.len() {
                        tree_of(v@[i])
                    } else {
                        JsonTree::Null
                    },
            ),
        ),
        Json::Object(v) => JsonTree::Object(
            Seq::new(
                v@.len(),
                |i: int|
                    if 0 <= i < v@.len() {
                        (v@[i].0@, tree_of(v@[i].1))
                    } else {
                        (Seq::empty(), JsonTree::Null)
                    },
            ),
        ),
    }
}

impl View for Json {
    type V = JsonTree;

    open spec fn view(&self) -> JsonTree {
        tree_of(*self)
    }
}

/// A value of `serde_json`.
#[verifier::external_type_specification]
#[verifier::external_body]
pub struct ExValue(serde_json::Value);

/// A number of `serde_json`.
#[verifier::external_type_specification]
#[verifier::external_body]
pub struct ExNumber(serde_json::Number);

/// The text that a number is written as.
pub uninterp spec fn number_text(n: serde_json::Number) -> Seq<char>;

/// What a value of `serde_json` holds.
pub uninterp spec fn value_tree(v: serde_json::Value) -> JsonTree;

/// What `serde_json::from_str` reads from a text: the value that it stands for, or the complaint
/// where it is no JSON.
pub uninterp spec fn json_parsed(text: Seq<char>) -> Result<JsonTree, Seq<char>>;

/// One layer of a JSON value.
pub enum Node {
    Null,
    Bool(bool),
    Number(serde_json::Number),
    Text(String),
    List(Vec<serde_json::Value>),
    Object(Vec<(String, serde_json::Value)>),
}

/// Whether `n` is the outermost layer of `t`.
pub open spec fn layer_of(n: Node, t: JsonTree) -> bool {
    match (n, t) {
        (Node::Null, JsonTree::Null) => true,
        (Node::Bool(b), JsonTree::Bool(c)) => b == c,
        (Node::Number(x), JsonTree::Number(y)) => number_text(x) == y,
        (Node::Text(x), JsonTree::Text(y)) => x@ == y,
        (Node::List(v), JsonTree::List(s)) => v@.len() == s.len() && forall|i: int|
            0 <= i < s.len() ==> value_tree(#[trigger] v@[i]) == s[i],
        (Node::Object(v), JsonTree::Object(s)) => v@.len() == s.len() && forall|i: int|
            0 <= i < s.len() ==> (#[trigger] v@[i]).0@ == s[i].0 && value_tree(v@[i].1) == s[i].1,
        _ => false,
    }
}

/// `serde_json::from_str`: whether `text` is JSON, which value it holds, and what
/// `<serde_json::Error as Display>` says where it is none, depend on `text` alone.
#[verifier::external_body]
fn parse_value(text: &str) -> (r: Result<serde_json::Value, String>)
    ensures
        match r {
            Ok(v) => json_parsed(text@) == Ok::<JsonTree, Seq<char>>(value_tree(v)),
            Err(m) => json_parsed(text@) == Err::<JsonTree, Seq<char>>(m@),
        },
{
    serde_json::from_str(text).map_err(|e: serde_json::Error| e.to_string())
}

/// What stands for `c` in a string that is in quotes.
pub open spec fn escape(c: char) -> Seq<char> {
    if c == '"' || c == '\\' {
        seq!['\\', c]
    } else if c == '\u{8}' {
        seq!['\\', 'b']
    } else if c == '\t' {
        seq!['\\', 't']
    } else if c == '\n' {
        seq!['\\', 'n']
    } else if c == '\u{c}' {
        seq!['\\', 'f']
    } else if c == '\r' {
        seq!['\\', 'r']
    } else if 0x20 > c as u32 {
        seq![
            '\\',
            'u',
            '0',
            '0',
            number::digit_char((c as u32 / 16) as nat),
            number::digit_char((c as u32 % 16) as nat),
        ]
    } else {
        seq![c]
    }
}

/// What stands for the characters of `text` in a string that is in quotes.
pub open spec fn escaped(text: Seq<char>) -> Seq<char>
    decreases text.len(),
{
    if text.len() == 0 {
        Seq::empty()
    } else {
        escape(text[0]) + escaped(text.drop_first())
    }
}

/// The text that a string is written as: in quotes, with escapes.
pub open spec fn json_quoted(text: Seq<char>) -> Seq<char> {
    seq!['"'] + escaped(text) + seq!['"']
}

/// The text that a string, or its absence, is written as.
pub open spec fn quoted_or_null(text: Option<Seq<char>>) -> Seq<char> {
    match text {
        Some(text) => json_quoted(text),
        None => "null"@,
    }
}

/// The text that a value is written as, without white space.
pub open spec fn json_written(t: JsonTree) -> Seq<char>
    decreases t, 0nat,
{
    match t {
        JsonTree::Null => "null"@,
        JsonTree::Bool(b) => if b {
            "true"@
        } else {
            "false"@
        },
        JsonTree::Number(n) => n,
        JsonTree::Text(s) => json_quoted(s),
        JsonTree::List(s) => seq!['['] + items_written(s, s.len()) + seq![']'],
        JsonTree::Object(s) => seq!['{'] + members_written(s, s.len()) + seq!['}'],
    }
}

/// The first `n` items of a list as they are written, with a comma between each two.
pub open spec fn items_written(s: Seq<JsonTree>, n: nat) -> Seq<char>
    decreases s, n,
{
    if n == 0 || n > s.len() {
        Seq::empty()
    } else {
        items_written(s, (n - 1) as nat) + (if n > 1 {
            seq![',']
        } else {
            Seq::empty()
        }) + json_written(s[n - 1])
    }
}

/// The first `n` members of an object as they are written, with a comma between each two.
pub open spec fn members_written(s: Seq<(Seq<char>, JsonTree)>, n: nat) -> Seq<char>
    decreases s, n,
{
    if n == 0 || n > s.len() {
        Seq::empty()
    } else {
        members_written(s, (n - 1) as nat) + (if n > 1 {
            seq![',']
        } else {
            Seq::empty()
        }) + json_quoted(s[n - 1].0) + seq![':'] + json_written(s[n - 1].1)
    }
}

/// From what stands for a character, and more behind it, the character and the rest can be told.
proof fn lemma_escape_apart(a: char, x: Seq<char>, b: char, y: Seq<char>)
    requires
        escape(a) + x == escape(b) + y,
    ensures
        a == b,
        x == y,
{
    let s = escape(a) + x;
    let t = escape(b) + y;
    assert(s[0] == escape(a)[0] && t[0] == escape(b)[0]);
    if escape(a).len() > 1 && escape(b).len() > 1 {
        assert(s[1] == escape(a)[1] && t[1] == escape(b)[1]);
        if escape(a).len() == 6 && escape(b).len() == 6 {
            assert(s[4] == escape(a)[4] && t[4] == escape(b)[4]);
            assert(s[5] == escape(a)[5] && t[5] == escape(b)[5]);
            let m = a as u32;
            let n = b as u32;
            assert(m / 16 < 2 && n / 16 < 2 && m % 16 < 16 && n % 16 < 16);
            assert(m == 16 * (m / 16) + m % 16);
            assert(n == 16 * (n / 16) + n % 16);
        }
    }
    assert(a == b);
    assert(x =~= s.skip(escape(a).len() as int));
    assert(y =~= t.skip(escape(b).len() as int));
}

/// From what stands in quotes, and more behind that, both can be told.
proof fn lemma_escaped_apart(a: Seq<char>, x: Seq<char>, b: Seq<char>, y: Seq<char>)
    requires
        escaped(a) + seq!['"'] + x == escaped(b) + seq!['"'] + y,
    ensures
        a == b,
        x == y,
    decreases a.len(),
{
    let s = escaped(a) + seq!['"'] + x;
    let t = escaped(b) + seq!['"'] + y;
    if a.len() > 0 && b.len() > 0 {
        let u = escaped(a.drop_first()) + seq!['"'] + x;
        let v = escaped(b.drop_first()) + seq!['"'] + y;
        assert(s =~= escape(a[0]) + u);
        assert(t =~= escape(b[0]) + v);
        lemma_escape_apart(a[0], u, b[0], v);
        lemma_escaped_apart(a.drop_first(), x, b.drop_first(), y);
        assert(a =~= seq![a[0]] + a.drop_first());
        assert(b =~= seq![b[0]] + b.drop_first());
    } else if a.len() > 0 {
        assert(s[0] == escape(a[0])[0]);
        assert(t[0] == '"');
    } else if b.len() > 0 {
        assert(t[0] == escape(b[0])[0]);
        assert(s[0] == '"');
    } else {
        assert(a =~= b);
        assert(x =~= s.skip(1));
        assert(y =~= t.skip(1));
    }
}

/// From a string, or its absence, as it is written, and more behind that, both can be told.
pub proof fn law_quoted_strings_are_told_apart(
    a: Option<Seq<char>>,
    x: Seq<char>,
    b: Option<Seq<char>>,
    y: Seq<char>,
)
    requires
        quoted_or_null(a) + x == quoted_or_null(b) + y,
    ensures
        a == b,
        x == y,
{
    let s = quoted_or_null(a) + x;
    let t = quoted_or_null(b) + y;
    reveal_strlit("null");
    if a is Some && b is Some {
        assert(s.skip(1) =~= escaped(a->0) + seq!['"'] + x);
        assert(t.skip(1) =~= escaped(b->0) + seq!['"'] + y);
        lemma_escaped_apart(a->0, x, b->0, y);
    } else if a is Some {
        assert(s[0] == '"' && t[0] == 'n');
    } else if b is Some {
        assert(s[0] == 'n' && t[0] == '"');
    } else {
        assert(x =~= s.skip(4));
        assert(y =~= t.skip(4));
    }
}

/// The outermost layer of a `serde_json::Value`: its variant, with the members of an object in the
/// order in which the map is walked.
#[verifier::external_body]
fn open_value(v: serde_json::Value) -> (r: Node)
    ensures
        layer_of(r, value_tree(v)),
{
    match v {
        serde_json::Value::Null => Node::Null,
        serde_json::Value::Bool(b) => Node::Bool(b),
        serde_json::Value::Number(n) => Node::Number(n),
        serde_json::Value::String(s) => Node::Text(s),
        serde_json::Value::Array(a) => Node::List(a),
        serde_json::Value::Object(o) => Node::Object(o.into_iter().collect()),
    }
}

/// A `serde_json::Value` from its outermost layer. A map holds its members in the order of their keys,
/// and the last one of each key.
#[verifier::external_body]
fn make_value(n: Node) -> (r: serde_json::Value)
    ensures
        match n {
            Node::Object(v) => value_tree(r) == JsonTree::Object(
                sorted(v@.map_values(|m: (String, serde_json::Value)| (m.0@, value_tree(m.1)))),
            ),
            _ => layer_of(n, value_tree(r)),
        },
{
    match n {
        Node::Null => serde_json::Value::Null,
        Node::Bool(b) => serde_json::Value::Bool(b),
        Node::Number(n) => serde_json::Value::Number(n),
        Node::Text(s) => serde_json::Value::String(s),
        Node::List(v) => serde_json::Value::Array(v),
        Node::Object(v) => serde_json::Value::Object(v.into_iter().collect()),
    }
}

/// `<serde_json::Value as Display>::to_string`: the value is written without white space, a number as
/// it is written alone, and a string in quotes.
#[verifier::external_body]
fn value_text(v: &serde_json::Value) -> (r: String)
    ensures
        r@ == json_written(value_tree(*v)),
{
    v.to_string()
}

/// `serde_json::to_string` of a string: it does not fail, and puts the string in quotes, with escapes for
/// quotes, backslashes and control characters of ASCII.
#[verifier::external_body]
pub(crate) fn quoted(text: &str) -> (r: String)
    ensures
        r@ == json_quoted(text@),
{
    serde_json::to_string(text).unwrap()
}

/// `<serde_json::Number as Display>::to_string`.
#[verifier::external_body]
fn number_string(n: &serde_json::Number) -> (r: String)
    ensures
        r@ == number_text(*n),
{
    n.to_string()
}

/// `<serde_json::Number as From<u64>>::from`: the number is written in decimal digits.
#[verifier::external_body]
fn number_of(n: u64) -> (r: serde_json::Number)
    ensures
        number_text(r) == number::decimal(n as int),
{
    serde_json::Number::from(n)
}

/// `<serde_json::Number as From<i64>>::from`: the number is written in decimal digits, behind a minus
/// sign where it is negative.
#[verifier::external_body]
fn number_of_signed(n: i64) -> (r: serde_json::Number)
    ensures
        number_text(r) == number::decimal(n as int),
{
    serde_json::Number::from(n)
}

/// `<serde_json::Number as Clone>::clone`: a copy is written as the number is.
pub assume_specification[ <serde_json::Number as Clone>::clone ](n: &serde_json::Number) -> (r:
    serde_json::Number)
    ensures
        number_text(r) == number_text(*n),
;

/// The library's own form of `v`.
pub fn from_value(v: serde_json::Value) -> (r: Json)
    ensures
        r@ == value_tree(v),
    decreases value_tree(v),
{
    let ghost t = value_tree(v);
    match open_value(v) {
        Node::Null => Json::Null,
        Node::Bool(b) => Json::Bool(b),
        Node::Number(n) => Json::Number(n),
        Node::Text(s) => Json::Text(s),
        Node::List(vs) => {
            let ghost s = t->List_0;
            let mut out: Vec<Json> = Vec::new();
            for x in it: vs
                invariant
                    t == JsonTree::List(s),
                    t == value_tree(v),
                    it.seq().len() == s.len(),
                    forall|k: int| 0 <= k < s.len() ==> value_tree(#[trigger] it.seq()[k]) == s[k],
                    out@.len() == it.index(),
                    forall|k: int| 0 <= k < out@.len() ==> (#[trigger] out@[k])@ == s[k],
            {
                assert(decreases_to!(t => t->List_0));
                assert(decreases_to!(s => s[it.index() as int]));
                out.push(from_value(x));
            }
            let r = Json::List(out);
            assert(r@->List_0 =~= s);
            r
        },
        Node::Object(vs) => {
            let ghost s = t->Object_0;
            let mut out: Vec<(String, Json)> = Vec::new();
            for x in it: vs
                invariant
                    t == JsonTree::Object(s),
                    t == value_tree(v),
                    it.seq().len() == s.len(),
                    forall|k: int|
                        0 <= k < s.len() ==> (#[trigger] it.seq()[k]).0@ == s[k].0 && value_tree(
                            it.seq()[k].1,
                        ) == s[k].1,
                    out@.len() == it.index(),
                    forall|k: int|
                        0 <= k < out@.len() ==> (#[trigger] out@[k]).0@ == s[k].0 && out@[k].1@
                            == s[k].1,
            {
                assert(decreases_to!(t => t->Object_0));
                assert(decreases_to!(s => s[it.index() as int]));
                assert(decreases_to!(s[it.index() as int] => s[it.index() as int].1));
                out.push((x.0, from_value(x.1)));
            }
            let r = Json::Object(out);
            assert(r@->Object_0 =~= s);
            r
        },
    }
}

/// Whether `a` comes before `b` in the order of their characters.
pub open spec fn before(a: Seq<char>, b: Seq<char>) -> bool
    decreases a.len(),
{
    if b.len() == 0 {
        false
    } else if a.len() == 0 {
        true
    } else if a[0] == b[0] {
        before(a.drop_first(), b.drop_first())
    } else {
        a[0] < b[0]
    }
}

/// Members in the order of their names, with one more, which takes the place of one of its name.
pub open spec fn inserted(
    s: Seq<(Seq<char>, JsonTree)>,
    member: (Seq<char>, JsonTree),
) -> Seq<(Seq<char>, JsonTree)>
    decreases s.len(),
{
    if s.len() == 0 {
        seq![member]
    } else if s[0].0 == member.0 {
        seq![member] + s.drop_first()
    } else if before(member.0, s[0].0) {
        seq![member] + s
    } else {
        seq![s[0]] + inserted(s.drop_first(), member)
    }
}

/// Members in the order of their names, the last one of each name.
pub open spec fn sorted(s: Seq<(Seq<char>, JsonTree)>) -> Seq<(Seq<char>, JsonTree)>
    decreases s.len(),
{
    if s.len() == 0 {
        s
    } else {
        inserted(sorted(s.drop_last()), s.last())
    }
}

/// `t` with the members of every object, at any depth, in the order of their names.
pub open spec fn normal(t: JsonTree) -> JsonTree
    decreases t,
{
    match t {
        JsonTree::List(s) => JsonTree::List(
            Seq::new(
                s.len(),
                |i: int|
                    if 0 <= i < s.len() {
                        normal(s[i])
                    } else {
                        JsonTree::Null
                    },
            ),
        ),
        JsonTree::Object(s) => JsonTree::Object(sorted(normal_members(s))),
        _ => t,
    }
}

/// The members of an object, each with its value in that form.
pub open spec fn normal_members(s: Seq<(Seq<char>, JsonTree)>) -> Seq<(Seq<char>, JsonTree)>
    decreases s,
{
    Seq::new(
        s.len(),
        |i: int|
            if 0 <= i < s.len() {
                (s[i].0, normal(s[i].1))
            } else {
                (Seq::empty(), JsonTree::Null)
            },
    )
}

/// The `serde_json` form of `j`.
fn to_value(j: &Json) -> (r: serde_json::Value)
    ensures
        value_tree(r) == normal(j@),
    decreases j,
{
    match j {
        Json::Null => make_value(Node::Null),
        Json::Bool(b) => make_value(Node::Bool(*b)),
        Json::Number(n) => make_value(Node::Number(n.clone())),
        Json::Text(s) => make_value(Node::Text(s.clone())),
        Json::List(v) => {
            let n: usize = v.len();
            let ghost s = j@->List_0;
            let mut out: Vec<serde_json::Value> = Vec::new();
            for i in 0..n
                invariant
                    *j == Json::List(*v),
                    n == v@.len() == s.len(),
                    forall|k: int| 0 <= k < n ==> #[trigger] s[k] == v@[k]@,
                    out@.len() == i,
                    forall|k: int| 0 <= k < i ==> value_tree(#[trigger] out@[k]) == normal(s[k]),
            {
                assert(decreases_to!(*j => j->List_0));
                assert(decreases_to!(*v => v[i as int]));
                out.push(to_value(&v[i]));
            }
            let ghost done = out@;
            let r = make_value(Node::List(out));
            proof {
                let after = normal(JsonTree::List(s))->List_0;
                assert forall|k: int| 0 <= k < s.len() implies value_tree(r)->List_0[k]
                    == #[trigger] after[k] by {
                    assert(value_tree(done[k]) == normal(s[k]));
                }
                assert(value_tree(r)->List_0 =~= after);
            }
            r
        },
        Json::Object(v) => {
            let n: usize = v.len();
            let ghost s = j@->Object_0;
            let mut out: Vec<(String, serde_json::Value)> = Vec::new();
            for i in 0..n
                invariant
                    *j == Json::Object(*v),
                    n == v@.len() == s.len(),
                    forall|k: int| 0 <= k < n ==> #[trigger] s[k] == (v@[k].0@, v@[k].1@),
                    out@.len() == i,
                    forall|k: int|
                        0 <= k < i ==> (#[trigger] out@[k]).0@ == s[k].0 && value_tree(out@[k].1)
                            == normal(s[k].1),
            {
                assert(decreases_to!(*j => j->Object_0));
                assert(decreases_to!(*v => v[i as int]));
                assert(decreases_to!(v@[i as int] => v@[i as int].1));
                out.push((v[i].0.clone(), to_value(&v[i].1)));
            }
            proof {
                let members = out@.map_values(
                    |m: (String, serde_json::Value)| (m.0@, value_tree(m.1)),
                );
                assert(members =~= normal_members(s));
                assert(j@ == JsonTree::Object(s));
            }
            make_value(Node::Object(out))
        },
    }
}

/// Writes a value as text, without white space, the members of every object in the order of their
/// names.
pub fn write_json(j: &Json) -> (r: String)
    ensures
        r@ == json_written(normal(j@)),
{
    value_text(&to_value(j))
}

/// Reads the JSON text `text`. An error holds the complaint.
pub fn parse_json(text: &str) -> (r: Result<Json, String>)
    ensures
        match r {
            Ok(j) => json_parsed(text@) == Ok::<JsonTree, Seq<char>>(j@),
            Err(m) => json_parsed(text@) == Err::<JsonTree, Seq<char>>(m@),
        },
{
    match parse_value(text) {
        Ok(v) => Ok(from_value(v)),
        Err(m) => Err(m),
    }
}

// ---------------------------------------------------------------------------
// Looking into a value
// ---------------------------------------------------------------------------

impl JsonTree {
    /// Whether this is an object with a member called `key`.
    pub open spec fn has(self, key: Seq<char>) -> bool {
        self is Object && tree::has_key(self->Object_0, key)
    }

    /// The member called `key`, or null where there is none.
    pub open spec fn member(self, key: Seq<char>) -> JsonTree {
        if self.has(key) {
            self->Object_0[tree::position(self->Object_0, key)].1
        } else {
            JsonTree::Null
        }
    }

    /// The text that this is, if it is one.
    pub open spec fn text(self) -> Option<Seq<char>> {
        match self {
            JsonTree::Text(t) => Some(t),
            _ => None,
        }
    }

    /// The items of the list that this is, if it is one.
    pub open spec fn list(self) -> Option<Seq<JsonTree>> {
        match self {
            JsonTree::List(s) => Some(s),
            _ => None,
        }
    }

    /// The number that this is, if it is a whole one that 64 bits without a sign can hold.
    pub open spec fn unsigned(self) -> Option<nat> {
        match self {
            JsonTree::Number(n) => number::unsigned_within(n, u64::MAX as nat),
            _ => None,
        }
    }
}

impl Json {
    /// The member called `key`, if this is an object that has one.
    pub fn get<'a>(&'a self, key: &str) -> (r: Option<&'a Json>)
        ensures
            match r {
                Some(j) => self@.has(key@) && j@ == self@.member(key@),
                None => !self@.has(key@),
            },
    {
        match self {
            Json::Object(v) => {
                let n: usize = v.len();
                let ghost s = self@->Object_0;
                for i in 0..n
                    invariant
                        n == v@.len() == s.len(),
                        self@ == JsonTree::Object(s),
                        forall|k: int|
                            0 <= k < n ==> (#[trigger] s[k]).0 == v@[k].0@ && s[k].1 == v@[k].1@,
                        forall|k: int| 0 <= k < i ==> (#[trigger] s[k]).0 != key@,
                {
                    if text::same_text(v[i].0.as_str(), key) {
                        proof {
                            assert(s[i as int].0 == key@);
                            tree::lemma_position_is(s, key@, i as int);
                        }
                        return Some(&v[i].1);
                    }
                    assert(s[i as int].0 != key@);
                }
                proof {
                    tree::lemma_position_is(s, key@, n as int);
                }
                None
            },
            _ => None,
        }
    }

    /// A copy of this.
    pub fn copy(&self) -> (r: Json)
        ensures
            r@ == self@,
        decreases self,
    {
        match self {
            Json::Null => Json::Null,
            Json::Bool(b) => Json::Bool(*b),
            Json::Number(n) => Json::Number(n.clone()),
            Json::Text(s) => Json::Text(s.clone()),
            Json::List(v) => {
                let n: usize = v.len();
                let mut out: Vec<Json> = Vec::new();
                for i in 0..n
                    invariant
                        *self == Json::List(*v),
                        n == v@.len(),
                        out@.len() == i,
                        forall|k: int| 0 <= k < i ==> (#[trigger] out@[k])@ == v@[k]@,
                {
                    assert(decreases_to!(*self => self->List_0));
                    assert(decreases_to!(*v => v[i as int]));
                    out.push(v[i].copy());
                }
                assert(trees(out@) =~= trees(v@));
                let r = json_list(out);
                assert(self@->List_0 =~= trees(v@));
                r
            },
            Json::Object(v) => {
                let n: usize = v.len();
                let mut out: Vec<(String, Json)> = Vec::new();
                for i in 0..n
                    invariant
                        *self == Json::Object(*v),
                        n == v@.len(),
                        out@.len() == i,
                        forall|k: int|
                            0 <= k < i ==> (#[trigger] out@[k]).0@ == v@[k].0@ && out@[k].1@
                                == v@[k].1@,
                {
                    assert(decreases_to!(*self => self->Object_0));
                    assert(decreases_to!(*v => v[i as int]));
                    assert(decreases_to!(v@[i as int] => v@[i as int].1));
                    out.push((v[i].0.clone(), v[i].1.copy()));
                }
                assert(member_trees(out@) =~= member_trees(v@));
                let r = json_object(out);
                assert(self@->Object_0 =~= member_trees(v@));
                r
            },
        }
    }

    /// The text that this is, if it is one.
    pub fn text<'a>(&'a self) -> (r: Option<&'a String>)
        ensures
            match r {
                Some(t) => self@.text() == Some(t@),
                None => self@.text() is None,
            },
    {
        match self {
            Json::Text(t) => Some(t),
            _ => None,
        }
    }

    /// The items of the list that this is, if it is one.
    pub fn list<'a>(&'a self) -> (r: Option<&'a Vec<Json>>)
        ensures
            match r {
                Some(v) => self@.list() == Some(trees(v@)),
                None => self@.list() is None,
            },
    {
        match self {
            Json::List(v) => {
                assert(self@->List_0 =~= trees(v@));
                Some(v)
            },
            _ => None,
        }
    }

    /// The number that this is, if it is a whole one that 64 bits without a sign can hold.
    pub fn unsigned(&self) -> (r: Option<u64>)
        ensures
            match r {
                Some(n) => self@.unsigned() == Some(n as nat),
                None => self@.unsigned() is None,
            },
    {
        match self {
            Json::Number(n) => number::read_unsigned(
                &text::chars_of(number_string(n).as_str()),
                u64::MAX,
            ),
            _ => None,
        }
    }

    /// Whether this is `true`.
    pub fn is_true(&self) -> (r: bool)
        ensures
            r == (self@ == JsonTree::Bool(true)),
    {
        match self {
            Json::Bool(b) => *b,
            _ => false,
        }
    }

    /// The text of the member called `key`, if there is one and it is a text.
    pub fn text_of<'a>(&'a self, key: &str) -> (r: Option<&'a String>)
        ensures
            match r {
                Some(t) => self@.member(key@).text() == Some(t@),
                None => self@.member(key@).text() is None,
            },
    {
        match self.get(key) {
            Some(j) => j.text(),
            None => None,
        }
    }
}

/// A text as a value.
pub fn json_text(text: &str) -> (r: Json)
    ensures
        r@ == JsonTree::Text(text@),
{
    Json::Text(text.to_owned())
}

/// A number without a sign as a value.
pub fn json_number(n: u64) -> (r: Json)
    ensures
        r@ == JsonTree::Number(number::decimal(n as int)),
{
    Json::Number(number_of(n))
}

/// A number as a value.
pub fn json_signed(n: i64) -> (r: Json)
    ensures
        r@ == JsonTree::Number(number::decimal(n as int)),
{
    Json::Number(number_of_signed(n))
}

/// A list as a value.
pub fn json_list(items: Vec<Json>) -> (r: Json)
    ensures
        r@ == JsonTree::List(trees(items@)),
{
    let r = Json::List(items);
    assert(r@->List_0 =~= trees(items@));
    r
}

/// An object as a value.
pub fn json_object(members: Vec<(String, Json)>) -> (r: Json)
    ensures
        r@ == JsonTree::Object(member_trees(members@)),
{
    let r = Json::Object(members);
    assert(r@->Object_0 =~= member_trees(members@));
    r
}

/// The names and trees of the members of an object.
pub open spec fn member_trees(v: Seq<(String, Json)>) -> Seq<(Seq<char>, JsonTree)> {
    v.map_values(|m: (String, Json)| (m.0@, m.1@))
}

/// The trees of a list of values.
pub open spec fn trees(v: Seq<Json>) -> Seq<JsonTree> {
    v.map_values(|j: Json| j@)
}

/// Whether two numbers are the same: their texts are, or both are the fractional zero, which is
/// written with and without a sign.
pub open spec fn same_number(a: Seq<char>, b: Seq<char>) -> bool {
    a == b || (fractional_zero(a) && fractional_zero(b))
}

/// Whether `n` writes the fractional zero.
pub open spec fn fractional_zero(n: Seq<char>) -> bool {
    n == "0.0"@ || n == "-0.0"@
}

/// Whether two values are equal.
pub open spec fn same(a: JsonTree, b: JsonTree) -> bool
    decreases a,
{
    match (a, b) {
        (JsonTree::Null, JsonTree::Null) => true,
        (JsonTree::Bool(x), JsonTree::Bool(y)) => x == y,
        (JsonTree::Number(x), JsonTree::Number(y)) => same_number(x, y),
        (JsonTree::Text(x), JsonTree::Text(y)) => x == y,
        (JsonTree::List(x), JsonTree::List(y)) => x.len() == y.len() && forall|i: int|
            0 <= i < x.len() ==> same(#[trigger] x[i], y[i]),
        (JsonTree::Object(x), JsonTree::Object(y)) => x.len() == y.len() && forall|i: int|
            0 <= i < x.len() ==> (#[trigger] x[i]).0 == y[i].0 && same(x[i].1, y[i].1),
        _ => false,
    }
}

/// Every value is equal to itself.
pub proof fn lemma_same_self(t: JsonTree)
    ensures
        same(t, t),
    decreases t,
{
    match t {
        JsonTree::List(s) => {
            assert forall|i: int| 0 <= i < s.len() implies same(#[trigger] s[i], s[i]) by {
                assert(decreases_to!(t => s));
                assert(decreases_to!(s => s[i]));
                lemma_same_self(s[i]);
            }
        },
        JsonTree::Object(s) => {
            assert forall|i: int| 0 <= i < s.len() implies (#[trigger] s[i]).0 == s[i].0 && same(
                s[i].1,
                s[i].1,
            ) by {
                assert(decreases_to!(t => s));
                assert(decreases_to!(s => s[i]));
                assert(decreases_to!(s[i] => s[i].1));
                lemma_same_self(s[i].1);
            }
        },
        _ => {},
    }
}

/// Whether no number of a value, at any depth, is the fractional zero.
pub open spec fn without_fractional_zero(t: JsonTree) -> bool
    decreases t,
{
    match t {
        JsonTree::Number(n) => n != "0.0"@ && n != "-0.0"@,
        JsonTree::List(s) => forall|i: int| 0 <= i < s.len() ==> without_fractional_zero(
            #[trigger] s[i],
        ),
        JsonTree::Object(s) => forall|i: int| 0 <= i < s.len() ==> without_fractional_zero(
            (#[trigger] s[i]).1,
        ),
        _ => true,
    }
}

/// Two values are equal only where they are one value, member for member and element for element: the
/// fractional zero alone has two ways of being written.
pub proof fn law_same_is_equality(a: JsonTree, b: JsonTree)
    requires
        without_fractional_zero(b),
    ensures
        same(a, b) <==> a == b,
    decreases a,
{
    if a == b {
        lemma_same_self(a);
    }
    if same(a, b) {
        match (a, b) {
            (JsonTree::List(x), JsonTree::List(y)) => {
                assert forall|i: int| 0 <= i < x.len() implies x[i] == y[i] by {
                    assert(decreases_to!(a => x));
                    assert(decreases_to!(x => x[i]));
                    assert(same(x[i], y[i]));
                    law_same_is_equality(x[i], y[i]);
                }
                assert(x =~= y);
            },
            (JsonTree::Object(x), JsonTree::Object(y)) => {
                assert forall|i: int| 0 <= i < x.len() implies x[i] == y[i] by {
                    assert(decreases_to!(a => x));
                    assert(decreases_to!(x => x[i]));
                    assert(decreases_to!(x[i] => x[i].1));
                    assert(x[i].0 == y[i].0 && same(x[i].1, y[i].1));
                    assert(without_fractional_zero(y[i].1));
                    law_same_is_equality(x[i].1, y[i].1);
                }
                assert(x =~= y);
            },
            _ => {},
        }
    }
}

/// Whether two values are equal.
pub fn same_json(a: &Json, b: &Json) -> (r: bool)
    ensures
        r == same(a@, b@),
    decreases a,
{
    match (a, b) {
        (Json::Null, Json::Null) => true,
        (Json::Bool(x), Json::Bool(y)) => *x == *y,
        (Json::Number(x), Json::Number(y)) => {
            let x = number_string(x);
            let y = number_string(y);
            let x = x.as_str();
            let y = y.as_str();
            text::same_text(x, y) || ((text::same_text(x, "0.0") || text::same_text(x, "-0.0"))
                && (text::same_text(y, "0.0") || text::same_text(y, "-0.0")))
        },
        (Json::Text(x), Json::Text(y)) => text::same_text(x.as_str(), y.as_str()),
        (Json::List(x), Json::List(y)) => {
            if x.len() != y.len() {
                return false;
            }
            let n: usize = x.len();
            let ghost s = a@->List_0;
            let ghost t = b@->List_0;
            for i in 0..n
                invariant
                    *a == Json::List(*x),
                    *b == Json::List(*y),
                    n == x@.len() == y@.len() == s.len() == t.len(),
                    a@ == JsonTree::List(s),
                    b@ == JsonTree::List(t),
                    forall|k: int| 0 <= k < n ==> #[trigger] s[k] == x@[k]@,
                    forall|k: int| 0 <= k < n ==> #[trigger] t[k] == y@[k]@,
                    forall|k: int| 0 <= k < i ==> same(#[trigger] s[k], t[k]),
            {
                assert(decreases_to!(a => x@[i as int]));
                if !same_json(&x[i], &y[i]) {
                    assert(!same(s[i as int], t[i as int]));
                    return false;
                }
            }
            true
        },
        (Json::Object(x), Json::Object(y)) => {
            if x.len() != y.len() {
                return false;
            }
            let n: usize = x.len();
            let ghost s = a@->Object_0;
            let ghost t = b@->Object_0;
            for i in 0..n
                invariant
                    *a == Json::Object(*x),
                    *b == Json::Object(*y),
                    n == x@.len() == y@.len() == s.len() == t.len(),
                    a@ == JsonTree::Object(s),
                    b@ == JsonTree::Object(t),
                    forall|k: int| 0 <= k < n ==> #[trigger] s[k] == (x@[k].0@, x@[k].1@),
                    forall|k: int| 0 <= k < n ==> #[trigger] t[k] == (y@[k].0@, y@[k].1@),
                    forall|k: int|
                        0 <= k < i ==> (#[trigger] s[k]).0 == t[k].0 && same(s[k].1, t[k].1),
            {
                assert(decreases_to!(a => x@[i as int]));
                assert(decreases_to!(x@[i as int] => x@[i as int].1));
                if !text::same_text(x[i].0.as_str(), y[i].0.as_str()) || !same_json(
                    &x[i].1,
                    &y[i].1,
                ) {
                    assert(!(s[i as int].0 == t[i as int].0 && same(s[i as int].1, t[i as int].1)));
                    return false;
                }
            }
            true
        },
        _ => false,
    }
}

/// A whole number is read as what it is, as long as 64 bits hold it; nothing else is one.
pub proof fn law_whole_numbers_are_read(n: nat, t: JsonTree)
    ensures
        JsonTree::Number(number::decimal(n as int)).unsigned() == (if n <= u64::MAX {
            Some(n)
        } else {
            None
        }),
        !(t is Number) ==> t.unsigned() is None,
{
    number::law_decimal_round_trip(n);
}

/// A member is found under its name exactly where an object has one of that name, and then it is the first
/// one.
pub proof fn law_members_are_found(s: Seq<(Seq<char>, JsonTree)>, key: Seq<char>, i: int)
    ensures
        JsonTree::Object(s).has(key) <==> exists|k: int| 0 <= k < s.len() && (#[trigger] s[k]).0
            == key,
        0 <= i < s.len() && s[i].0 == key && (forall|k: int| 0 <= k < i ==> (#[trigger] s[k]).0
            != key) ==> JsonTree::Object(s).member(key) == s[i].1,
        !JsonTree::Object(s).has(key) ==> JsonTree::Object(s).member(key) is Null,
{
    tree::lemma_position(s, key);
    if 0 <= i < s.len() && s[i].0 == key && (forall|k: int|
        0 <= k < i ==> (#[trigger] s[k]).0 != key) {
        tree::lemma_position_is(s, key, i);
    }
    if JsonTree::Object(s).has(key) {
        assert(s[tree::position(s, key)].0 == key);
    }
}

} // verus!
