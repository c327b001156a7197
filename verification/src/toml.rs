//! TOML documents that keep their formatting, as `toml_edit` reads, changes and writes them.
//!
//! A document is modelled by the tree of its items. Each node also carries, as an opaque text, all
//! else that its printed form depends on: white space, comments, the way a key is written, the
//! place of a table in the file. An empty text stands for a node that was made with the defaults.
use toml_edit::{Array, DocumentMut, InlineTable, Item, Table, Value};
use vstd::prelude::*;

use crate::tree;

verus! {

// ---------------------------------------------------------------------------
// The model
// ---------------------------------------------------------------------------

/// One item of a document.
pub ghost enum Toml {
    /// A place that a lookup made and nothing has filled. It is not printed.
    Missing,
    /// A table, written under a header or in braces. In braces a comma can follow the last entry.
    Table { inline: bool, comma: bool, style: Seq<char>, entries: Seq<(Seq<char>, TomlEntry)> },
    /// An array.
    List { frame: TomlFrame, rows: Seq<TomlRow> },
    /// Anything else: a number, a text, a flag or a date, which are values, or an array of tables,
    /// which is none; and whether it can be written.
    Other { text: Seq<char>, value: bool, sound: bool },
}

/// What stands behind a key of a table.
pub ghost struct TomlEntry {
    pub key_style: Seq<char>,
    pub item: Toml,
}

/// What surrounds the elements of an array: the text before its bracket opens, whether a comma
/// follows the last element, and the text from behind that to the end, its closing bracket in it;
/// and whether every place in the array is filled. Only those that are count as elements.
pub ghost struct TomlFrame {
    pub open: Seq<char>,
    pub comma: bool,
    pub close: Seq<char>,
    pub filled: bool,
    pub style: Seq<char>,
}

/// One element of an array: its own text, with the white space and comments that belong to it, whether
/// it was made without any before it, and whether it can be written.
pub ghost struct TomlRow {
    pub text: Seq<char>,
    pub bare: bool,
    pub sound: bool,
}

/// A whole document: its root, and the text behind the last item.
pub ghost struct TomlDoc {
    pub root: Toml,
    pub trailing: Seq<char>,
}

impl Toml {
    /// Whether a key can be looked up in this item for writing: it is a table, or becomes one.
    pub open spec fn is_open(self) -> bool {
        self is Missing || self is Table
    }

    /// The item behind `key`.
    pub open spec fn child(self, key: Seq<char>) -> Toml {
        match self {
            Toml::Table { entries, .. } if tree::has_key(entries, key) => entries[tree::position(
                entries,
                key,
            )].1.item,
            _ => Toml::Missing,
        }
    }

    /// This item with `item` behind `key`: in place where the key is there, else at the end.
    pub open spec fn with(self, key: Seq<char>, item: Toml) -> Toml {
        match self {
            Toml::Missing => Toml::Table {
                inline: true,
                comma: false,
                style: Seq::empty(),
                entries: seq![(key, TomlEntry { key_style: Seq::empty(), item })],
            },
            Toml::Table { inline, comma, style, entries } => Toml::Table {
                inline,
                comma,
                style,
                entries: with_entry(entries, key, item),
            },
            _ => self,
        }
    }

    /// This item without `key`.
    pub open spec fn without(self, key: Seq<char>) -> Toml {
        match self {
            Toml::Table { inline, comma, style, entries } if tree::has_key(
                entries,
                key,
            ) => Toml::Table {
                inline,
                comma,
                style,
                entries: entries.remove(tree::position(entries, key)),
            },
            _ => self,
        }
    }

    /// Whether, at any depth of this item, every place is filled and no key stands twice in a table.
    pub open spec fn complete(self) -> bool
        decreases self,
    {
        match self {
            Toml::Table { entries, .. } => tree::distinct(entries) && forall|i: int|
                0 <= i < entries.len() ==> !((#[trigger] entries[i]).1.item is Missing)
                    && entries[i].1.item.complete(),
            Toml::List { frame, .. } => frame.filled,
            _ => true,
        }
    }

    /// Whether this is a value: it is written behind its key, and has no header.
    pub open spec fn is_value(self) -> bool {
        match self {
            Toml::Missing => false,
            Toml::Table { inline, .. } => inline,
            Toml::List { .. } => true,
            Toml::Other { value, .. } => value,
        }
    }

    /// Whether this item can be written: at no depth a table in braces that ends in a comma holds
    /// something that is no value.
    pub open spec fn writable(self) -> bool
        decreases self,
    {
        match self {
            Toml::Missing => true,
            Toml::Table { inline, comma, entries, .. } => forall|i: int|
                0 <= i < entries.len() ==> (#[trigger] entries[i]).1.item.writable() && (inline
                    && comma ==> entries[i].1.item is Missing || entries[i].1.item.is_value()),
            Toml::List { rows, .. } => all_sound(rows),
            Toml::Other { sound, .. } => sound,
        }
    }
}

/// Whether each of `rows` can be written.
pub open spec fn all_sound(rows: Seq<TomlRow>) -> bool {
    forall|i: int| 0 <= i < rows.len() ==> (#[trigger] rows[i]).sound
}

/// Whether two items are written alike: they are the same but for elements that were made without
/// white space before them where the others have the white space that is then put there.
pub open spec fn alike(a: Toml, b: Toml) -> bool
    decreases a,
{
    match (a, b) {
        (
            Toml::Table { inline, comma, style, entries },
            Toml::Table { inline: inline2, comma: comma2, style: style2, entries: entries2 },
        ) => {
            &&& inline == inline2
            &&& comma == comma2
            &&& style == style2
            &&& entries.len() == entries2.len()
            &&& forall|i: int|
                0 <= i < entries.len() ==> {
                    &&& (#[trigger] entries[i]).0 == entries2[i].0
                    &&& entries[i].1.key_style == entries2[i].1.key_style
                    &&& alike(entries[i].1.item, entries2[i].1.item)
                }
        },
        (Toml::List { frame, rows }, Toml::List { frame: frame2, rows: rows2 }) => {
            frame == frame2 && rows_alike(rows, rows2)
        },
        _ => a == b,
    }
}

/// Whether two lists of rows are written alike.
pub open spec fn rows_alike(a: Seq<TomlRow>, b: Seq<TomlRow>) -> bool {
    a.len() == b.len() && forall|i: int|
        0 <= i < a.len() ==> in_place(#[trigger] a[i], i) == in_place(b[i], i)
}

/// The text of the element at `i` of an array, as it stands in the array.
pub open spec fn in_place(row: TomlRow, i: int) -> Seq<char> {
    if row.bare && i > 0 {
        seq![' '] + row.text
    } else {
        row.text
    }
}

/// `entries` with `item` behind `key`.
pub open spec fn with_entry(
    entries: Seq<(Seq<char>, TomlEntry)>,
    key: Seq<char>,
    item: Toml,
) -> Seq<(Seq<char>, TomlEntry)> {
    let p = tree::position(entries, key);
    if p < entries.len() {
        entries.update(p, (key, TomlEntry { key_style: entries[p].1.key_style, item }))
    } else {
        entries.push((key, TomlEntry { key_style: Seq::empty(), item }))
    }
}

/// What [`Toml::with`] changes: the item behind the key, and no other.
pub proof fn lemma_with(t: Toml, key: Seq<char>, item: Toml, other: Seq<char>, next: Toml)
    requires
        t.is_open(),
    ensures
        t.with(key, item) is Table,
        t.with(key, item).child(key) == item,
        other != key ==> t.with(key, item).child(other) == t.child(other),
        t.with(key, item).with(key, next) == t.with(key, next),
{
    let before = match t {
        Toml::Table { entries, .. } => entries,
        _ => Seq::empty(),
    };
    let after = with_entry(before, key, item);
    tree::lemma_position(before, key);
    tree::lemma_position(before, other);
    assert(t.with(key, item)->entries =~= after);
    let p = tree::position(before, key);
    assert forall|i: int| 0 <= i < p implies (#[trigger] after[i]).0 != key by {
        assert(after[i] == before[i]);
    }
    tree::lemma_position_is(after, key, p);
    assert(with_entry(after, key, next) =~= with_entry(before, key, next));
    if other != key {
        let q = tree::position(before, other);
        let found = if q == before.len() {
            after.len() as int
        } else {
            q
        };
        assert forall|i: int| 0 <= i < found implies (#[trigger] after[i]).0 != other by {
            if i < before.len() {
                assert(before[i].0 != other || i == q);
                assert(after[i].0 == before[i].0);
            }
        }
        tree::lemma_position_is(after, other, found);
    }
}

/// Putting back what stands behind a key changes nothing.
pub proof fn lemma_with_same(t: Toml, key: Seq<char>)
    requires
        !(t.child(key) is Missing),
    ensures
        t.with(key, t.child(key)) == t,
{
    let entries = t->entries;
    tree::lemma_position(entries, key);
    assert(with_entry(entries, key, t.child(key)) =~= entries);
}

/// What stands in a complete item is complete.
pub proof fn lemma_complete_child(t: Toml, key: Seq<char>)
    requires
        t.complete(),
    ensures
        t.child(key).complete(),
{
    if let Toml::Table { entries, .. } = t {
        tree::lemma_position(entries, key);
        if tree::has_key(entries, key) {
            assert(entries[tree::position(entries, key)].1.item.complete());
        }
    }
}

/// What stands in an item that can be written can be written.
pub proof fn lemma_writable_child(t: Toml, key: Seq<char>)
    requires
        t.writable(),
    ensures
        t.child(key).writable(),
        t is Table && t->inline && t->comma ==> t.child(key) is Missing || t.child(key).is_value(),
{
    if let Toml::Table { entries, .. } = t {
        tree::lemma_position(entries, key);
        if tree::has_key(entries, key) {
            assert(entries[tree::position(entries, key)].1.item.writable());
        }
    }
}

/// An item that can be written still can with something in it that can, unless it is a table in
/// braces that ends in a comma and that something is no value.
pub proof fn lemma_writable_with(t: Toml, key: Seq<char>, item: Toml)
    requires
        t.is_open(),
        t.writable(),
        item.writable(),
        t is Table && t->inline && t->comma ==> item is Missing || item.is_value(),
    ensures
        t.with(key, item).writable(),
{
    let after = t.with(key, item)->entries;
    let before = match t {
        Toml::Table { entries, .. } => entries,
        _ => Seq::empty(),
    };
    tree::lemma_position(before, key);
    assert forall|i: int| 0 <= i < after.len() implies (#[trigger] after[i]).1.item.writable() && (
    t.with(key, item)->inline && t.with(key, item)->comma ==> after[i].1.item is Missing
        || after[i].1.item.is_value()) by {
        if i < before.len() && i != tree::position(before, key) {
            assert(after[i] == before[i]);
        }
    }
}

/// Every item is written like itself.
pub proof fn lemma_alike_self(t: Toml)
    ensures
        alike(t, t),
    decreases t,
{
    if let Toml::Table { entries, .. } = t {
        assert forall|i: int| 0 <= i < entries.len() implies alike(
            (#[trigger] entries[i]).1.item,
            entries[i].1.item,
        ) by {
            assert(decreases_to!(t => t->entries));
            assert(decreases_to!(entries => entries[i]));
            assert(decreases_to!(entries[i] => entries[i].1));
            lemma_alike_self(entries[i].1.item);
        }
    }
}

/// An item with something in it that is written like what was there is written as before.
pub proof fn lemma_alike_with(t: Toml, key: Seq<char>, item: Toml)
    requires
        t is Table,
        tree::has_key(t->entries, key),
        alike(t.child(key), item),
    ensures
        alike(t, t.with(key, item)),
{
    let before = t->entries;
    let after = t.with(key, item)->entries;
    tree::lemma_position(before, key);
    assert forall|i: int| 0 <= i < before.len() implies {
        &&& (#[trigger] before[i]).0 == after[i].0
        &&& before[i].1.key_style == after[i].1.key_style
        &&& alike(before[i].1.item, after[i].1.item)
    } by {
        if i != tree::position(before, key) {
            lemma_alike_self(before[i].1.item);
        }
    }
}

/// The elements of an array as they stand in it, with a comma between each two.
pub open spec fn joined(rows: Seq<TomlRow>) -> Seq<char>
    decreases rows.len(),
{
    if rows.len() == 0 {
        Seq::empty()
    } else if rows.len() == 1 {
        in_place(rows[0], 0)
    } else {
        joined(rows.drop_last()) + seq![','] + in_place(rows.last(), rows.len() - 1)
    }
}

/// The text of an array.
pub open spec fn list_text(frame: TomlFrame, rows: Seq<TomlRow>) -> Seq<char> {
    frame.open + seq!['['] + joined(rows) + (if frame.comma && rows.len() > 0 {
        seq![',']
    } else {
        Seq::empty()
    }) + frame.close
}

/// A header table with nothing in it.
pub open spec fn empty_tree() -> Toml {
    Toml::Table { inline: false, comma: false, style: Seq::empty(), entries: Seq::empty() }
}

/// What surrounds the elements of an array that was built, not read.
pub open spec fn plain_frame() -> TomlFrame {
    TomlFrame {
        open: Seq::empty(),
        comma: false,
        close: seq![']'],
        filled: true,
        style: Seq::empty(),
    }
}

/// An element that was built, not read.
pub open spec fn plain_row(text: Seq<char>) -> TomlRow {
    TomlRow { text, bare: true, sound: true }
}

/// An array that was built, not read.
pub open spec fn plain_list(rows: Seq<TomlRow>) -> Toml {
    Toml::List { frame: plain_frame(), rows }
}

/// Whether `c` stands for itself in a TOML string: a letter, `_` or `$`.
pub open spec fn plain_char(c: char) -> bool {
    ('a' <= c && c <= 'z') || c == '_' || c == '$'
}

/// Whether TOML writes `s` in double quotes as it stands.
pub open spec fn plain_text(s: Seq<char>) -> bool {
    forall|i: int| 0 <= i < s.len() ==> plain_char(#[trigger] s[i])
}

/// Whether TOML writes the key `s` as it stands.
pub open spec fn plain_key(s: Seq<char>) -> bool {
    s.len() > 0 && forall|i: int|
        0 <= i < s.len() ==> ('a' <= (#[trigger] s[i]) && s[i] <= 'z') || s[i] == '_'
}

/// `s` in double quotes.
pub open spec fn in_quotes(s: Seq<char>) -> Seq<char> {
    seq!['"'] + s + seq!['"']
}

/// The fields of a table in braces, each a key and the text of its value, with a comma between each
/// two.
pub open spec fn joined_fields(fields: Seq<(Seq<char>, Seq<char>)>) -> Seq<char>
    decreases fields.len(),
{
    if fields.len() == 0 {
        Seq::empty()
    } else {
        joined_fields(fields.drop_last()) + (if fields.len() > 1 {
            seq![',', ' ']
        } else {
            seq![' ']
        }) + fields.last().0 + " = "@ + fields.last().1
    }
}

/// The text of a table in braces that was built, not read.
pub open spec fn fields_text(fields: Seq<(Seq<char>, Seq<char>)>) -> Seq<char> {
    seq!['{'] + joined_fields(fields) + (if fields.len() > 0 {
        seq![' ']
    } else {
        Seq::empty()
    }) + seq!['}']
}

// ---------------------------------------------------------------------------
// toml_edit
// ---------------------------------------------------------------------------

/// `toml_edit::DocumentMut`, a document that can be changed and written back.
#[verifier::external_type_specification]
#[verifier::external_body]
pub struct ExDocumentMut(toml_edit::DocumentMut);

/// `toml_edit::Item`, one item of a document.
#[verifier::external_type_specification]
#[verifier::external_body]
pub struct ExItem(toml_edit::Item);

/// `toml_edit::Array`, an array.
#[verifier::external_type_specification]
#[verifier::external_body]
pub struct ExArray(toml_edit::Array);

/// `toml_edit::InlineTable`, a table in braces.
#[verifier::external_type_specification]
#[verifier::external_body]
pub struct ExInlineTable(toml_edit::InlineTable);

/// `toml_edit::Value`, an item that is no table with a header.
#[verifier::external_type_specification]
#[verifier::external_body]
pub struct ExTomlValue(toml_edit::Value);

/// What a document holds.
pub uninterp spec fn toml_doc(doc: DocumentMut) -> TomlDoc;

/// What an item holds.
pub uninterp spec fn item_tree(item: Item) -> Toml;

/// What a value is as an element of an array.
pub uninterp spec fn value_row(value: Value) -> TomlRow;

/// What an array holds, as an item.
pub uninterp spec fn array_tree(array: Array) -> Toml;

/// The fields of a table in braces, each a key and the text of its value, where nothing in it was
/// given another form than the one that it is made with.
pub uninterp spec fn plain_fields(table: InlineTable) -> Option<Seq<(Seq<char>, Seq<char>)>>;

/// The document that a text holds, or the complaint where it is no TOML.
pub uninterp spec fn toml_parsed(text: Seq<char>) -> Result<TomlDoc, Seq<char>>;

/// The text that a document is written as.
pub uninterp spec fn toml_text(doc: TomlDoc) -> Seq<char>;

/// `<DocumentMut as FromStr>::from_str`: whether `text` is TOML, which document it holds, and what
/// `<TomlError as Display>` says where it is none, depend on `text` alone. The root of what was read
/// is a table under a header, no place in it is left unfilled, and no key stands twice in a table. A
/// table in braces holds values alone, so that all of it can be written.
#[verifier::external_body]
pub(crate) fn parse_toml(text: &str) -> (r: Result<DocumentMut, String>)
    ensures
        match r {
            Ok(doc) => {
                &&& toml_parsed(text@) == Ok::<TomlDoc, Seq<char>>(toml_doc(doc))
                &&& toml_doc(doc).root is Table
                &&& !toml_doc(doc).root->inline
                &&& toml_doc(doc).root.complete()
                &&& toml_doc(doc).root.writable()
            },
            Err(m) => toml_parsed(text@) == Err::<TomlDoc, Seq<char>>(m@),
        },
{
    text.parse::<DocumentMut>().map_err(|e| e.to_string())
}

/// `<DocumentMut as Display>::to_string`: the text depends on the document alone, and where an element
/// of an array was made without white space before it, a blank is put before it unless it is the
/// first. It panics where the root is no table under a header, and where a table in braces ends in
/// a comma and holds something that is no value.
#[verifier::external_body]
pub(crate) fn print_toml(doc: &DocumentMut) -> (r: String)
    requires
        toml_doc(*doc).root is Table,
        !toml_doc(*doc).root->inline,
        toml_doc(*doc).root.writable(),
    ensures
        r@ == toml_text(toml_doc(*doc)),
        forall|root: Toml| #[trigger]
            alike(root, toml_doc(*doc).root) ==> r@ == toml_text(
                TomlDoc { root, trailing: toml_doc(*doc).trailing },
            ),
{
    doc.to_string()
}

/// `DocumentMut::as_item`: the root.
#[verifier::external_body]
pub(crate) fn root<'a>(doc: &'a DocumentMut) -> (r: &'a Item)
    ensures
        item_tree(*r) == toml_doc(*doc).root,
{
    doc.as_item()
}

/// `DocumentMut::as_item_mut`: the root, to be changed in place. The text behind the last item stays.
#[verifier::external_body]
pub(crate) fn root_mut<'a>(doc: &'a mut DocumentMut) -> (r: &'a mut Item)
    ensures
        item_tree(*r) == toml_doc(*old(doc)).root,
        toml_doc(*final(doc)) == (TomlDoc {
            root: item_tree(*final(r)),
            trailing: toml_doc(*old(doc)).trailing,
        }),
{
    doc.as_item_mut()
}

/// `Item::get` with a key: the item behind it, unless there is none or the place is unfilled.
#[verifier::external_body]
pub(crate) fn child<'a>(item: &'a Item, key: &str) -> (r: Option<&'a Item>)
    ensures
        match r {
            Some(c) => !(item_tree(*c) is Missing) && item_tree(*c) == item_tree(*item).child(key@),
            None => item_tree(*item).child(key@) is Missing,
        },
{
    item.get(key)
}

/// `<Item as IndexMut>::index_mut` with a key: the item behind it, to be changed in place. An
/// unfilled place becomes a table in braces, and a new key is put at the end. It panics where the
/// item is no table.
#[verifier::external_body]
pub(crate) fn child_mut<'a>(item: &'a mut Item, key: &str) -> (r: &'a mut Item)
    requires
        item_tree(*old(item)).is_open(),
    ensures
        item_tree(*r) == item_tree(*old(item)).child(key@),
        item_tree(*final(item)) == item_tree(*old(item)).with(key@, item_tree(*final(r))),
{
    &mut item[key]
}

/// `Item::is_array`.
#[verifier::external_body]
pub(crate) fn is_list(item: &Item) -> (r: bool)
    ensures
        r == (item_tree(*item) is List),
{
    item.is_array()
}

/// `InlineTable::trailing_comma`: whether the item is a table in braces that ends in a comma.
#[verifier::external_body]
pub(crate) fn ends_in_comma(item: &Item) -> (r: bool)
    ensures
        r == (item_tree(*item) is Table && item_tree(*item)->inline && item_tree(*item)->comma),
{
    item.as_inline_table().is_some_and(|table| table.trailing_comma())
}

/// `Item::is_table_like`: whether the item is a table of either kind.
#[verifier::external_body]
pub(crate) fn is_table(item: &Item) -> (r: bool)
    ensures
        r == (item_tree(*item) is Table),
{
    item.is_table_like()
}

/// `TableLike::iter`: the keys of a table, in order. Of the two kinds of table only one passes over
/// unfilled places, so there are to be none.
#[verifier::external_body]
pub(crate) fn keys(item: &Item) -> (r: Vec<String>)
    requires
        item_tree(*item) is Table,
        forall|i: int|
            0 <= i < item_tree(*item)->entries.len() ==> !((
            #[trigger] item_tree(*item)->entries[i]).1.item is Missing),
    ensures
        r@.len() == item_tree(*item)->entries.len(),
        forall|i: int|
            0 <= i < r@.len() ==> (#[trigger] r@[i])@ == item_tree(*item)->entries[i].0,
{
    item.as_table_like().unwrap().iter().map(|entry| entry.0.to_owned()).collect()
}

/// `TableLike::remove`: takes a key out of a table. The other entries keep their order.
#[verifier::external_body]
pub(crate) fn remove_child(item: &mut Item, key: &str)
    requires
        item_tree(*old(item)) is Table,
    ensures
        item_tree(*final(item)) == item_tree(*old(item)).without(key@),
{
    item.as_table_like_mut().unwrap().remove(key);
}

/// `Array::iter`, with `<Value as Display>::to_string` of each element, which panics where an element
/// cannot be written.
#[verifier::external_body]
pub(crate) fn row_texts(item: &Item) -> (r: Vec<String>)
    requires
        item_tree(*item) is List,
        all_sound(item_tree(*item)->rows),
    ensures
        r@.len() == item_tree(*item)->rows.len(),
        forall|i: int| 0 <= i < r@.len() ==> (#[trigger] r@[i])@ == item_tree(*item)->rows[i].text,
{
    item.as_array().unwrap().iter().map(|value| value.to_string()).collect()
}

/// `Array::push`: puts an element at the end of an array.
#[verifier::external_body]
pub(crate) fn push_row(item: &mut Item, value: Value)
    requires
        item_tree(*old(item)) is List,
    ensures
        item_tree(*final(item)) == (Toml::List {
            frame: item_tree(*old(item))->frame,
            rows: item_tree(*old(item))->rows.push(value_row(value)),
        }),
{
    item.as_array_mut().unwrap().push(value);
}

/// `<Item as Display>::to_string` of an array: its elements as they stand in it with commas between
/// them, and the array's own text around that. It panics where an element cannot be written.
#[verifier::external_body]
pub(crate) fn item_text(item: &Item) -> (r: String)
    requires
        item_tree(*item) is List,
        item_tree(*item)->frame.filled,
        all_sound(item_tree(*item)->rows),
    ensures
        r@ == list_text(item_tree(*item)->frame, item_tree(*item)->rows),
{
    item.to_string()
}

/// `<Item as Clone>::clone`: a copy holds the same.
pub assume_specification[ <toml_edit::Item as Clone>::clone ](item: &toml_edit::Item) -> (r:
    toml_edit::Item)
    ensures
        item_tree(r) == item_tree(*item),
;

/// `Table::new`, as an item: a table with nothing in it.
#[verifier::external_body]
pub(crate) fn empty_table() -> (r: Item)
    ensures
        item_tree(r) == empty_tree(),
{
    Item::Table(Table::new())
}

/// `Array::new`: an array with nothing in it.
#[verifier::external_body]
pub(crate) fn new_array() -> (r: Array)
    ensures
        array_tree(r) == plain_list(Seq::empty()),
{
    Array::new()
}

/// `Array::push` of a text that TOML writes in double quotes as it stands.
#[verifier::external_body]
pub(crate) fn push_text(array: &mut Array, text: &str)
    requires
        array_tree(*old(array)) is List,
        plain_text(text@),
    ensures
        array_tree(*final(array)) == (Toml::List {
            frame: array_tree(*old(array))->frame,
            rows: array_tree(*old(array))->rows.push(plain_row(in_quotes(text@))),
        }),
{
    array.push(text);
}

/// `Array::push` of a table in braces that was built, not read: it is written with blanks around its
/// keys and values.
#[verifier::external_body]
pub(crate) fn push_table(array: &mut Array, table: InlineTable)
    requires
        array_tree(*old(array)) is List,
        plain_fields(table) is Some,
    ensures
        array_tree(*final(array)) == (Toml::List {
            frame: array_tree(*old(array))->frame,
            rows: array_tree(*old(array))->rows.push(
                plain_row(fields_text(plain_fields(table)->0)),
            ),
        }),
{
    array.push(table);
}

/// `Array::push` of a value.
#[verifier::external_body]
pub(crate) fn push_value(array: &mut Array, value: Value)
    requires
        array_tree(*old(array)) is List,
    ensures
        array_tree(*final(array)) == (Toml::List {
            frame: array_tree(*old(array))->frame,
            rows: array_tree(*old(array))->rows.push(value_row(value)),
        }),
{
    array.push(value);
}

/// `<Value as From<Array>>::from` of an array that was built, not read.
#[verifier::external_body]
pub(crate) fn array_value(array: Array) -> (r: Value)
    requires
        array_tree(array) == plain_list(array_tree(array)->rows),
        all_sound(array_tree(array)->rows),
    ensures
        value_row(r) == plain_row(list_text(plain_frame(), array_tree(array)->rows)),
{
    Value::from(array)
}

/// `toml_edit::value` of an array: an item that holds the same.
#[verifier::external_body]
pub(crate) fn array_item(array: Array) -> (r: Item)
    ensures
        item_tree(r) == array_tree(array),
{
    toml_edit::value(array)
}

/// `InlineTable::new`: a table in braces with nothing in it.
#[verifier::external_body]
pub(crate) fn new_table() -> (r: InlineTable)
    ensures
        plain_fields(r) == Some(Seq::<(Seq<char>, Seq<char>)>::empty()),
{
    InlineTable::new()
}

/// `InlineTable::insert` of a text that TOML writes in double quotes as it stands, behind a new key.
#[verifier::external_body]
pub(crate) fn insert_text(table: &mut InlineTable, key: &str, text: &str)
    requires
        plain_fields(*old(table)) is Some,
        plain_key(key@),
        !tree::has_key(plain_fields(*old(table))->0, key@),
        plain_text(text@),
    ensures
        plain_fields(*final(table)) == Some(
            plain_fields(*old(table))->0.push((key@, in_quotes(text@))),
        ),
{
    table.insert(key, text.into());
}

/// `InlineTable::insert` of a flag, behind a new key.
#[verifier::external_body]
pub(crate) fn insert_flag(table: &mut InlineTable, key: &str, flag: bool)
    requires
        plain_fields(*old(table)) is Some,
        plain_key(key@),
        !tree::has_key(plain_fields(*old(table))->0, key@),
    ensures
        plain_fields(*final(table)) == Some(
            plain_fields(*old(table))->0.push(
                (
                    key@,
                    if flag {
                        "true"@
                    } else {
                        "false"@
                    },
                ),
            ),
        ),
{
    table.insert(key, flag.into());
}

} // verus!
