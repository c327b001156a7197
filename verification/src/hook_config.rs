//! The progress hooks in the agent's configuration: adding them, and taking them out again.
use jsonc_parser::cst::{CstInputValue, CstRootNode};
use vstd::prelude::*;

use crate::hook_effects;
use crate::json;
use crate::json::{
    from_value, json_list, json_number, json_object, json_text, same_json, Json,
};
use crate::jsonc;
use crate::number;
use crate::text;

verus! {

/// Why a hook configuration is left as it is.
#[derive(Clone, Copy, Debug, PartialEq, Eq, Structural)]
pub enum HooksFault {
    /// The whole is no object.
    NotObject,
    /// The hooks are no object.
    HooksNotObject,
    /// The hooks of an event are no array.
    EventNotArray,
}

/// Why a hook configuration could not be edited.
#[derive(Debug)]
pub enum HooksError {
    /// The text is no JSON, for the reason given.
    Parse(String),
    /// The configuration does not allow the edit.
    Fault(HooksFault),
}

// ---------------------------------------------------------------------------
// One entry
// ---------------------------------------------------------------------------

/// The events that have a progress hook.
pub open spec fn events() -> Seq<Seq<char>> {
    seq!["SessionStart"@, "PostCompaction"@, "PostToolUse"@, "UserPromptSubmit"@]
}

/// The entry that runs `command`, as it is written.
pub open spec fn hook_input(command: Seq<char>) -> json::JsonTree {
    json::JsonTree::Object(
        seq![
            ("matcher"@, json::JsonTree::Text(""@)),
            (
                "hooks"@,
                json::JsonTree::List(
                    seq![
                        json::JsonTree::Object(
                            seq![
                                ("type"@, json::JsonTree::Text("command"@)),
                                ("command"@, json::JsonTree::Text(command)),
                                ("timeout"@, json::JsonTree::Number(number::decimal(10))),
                            ],
                        ),
                    ],
                ),
            ),
        ],
    )
}

/// The entry that runs `command`, as a value.
pub open spec fn hook_tree(command: Seq<char>) -> json::JsonTree {
    json::JsonTree::Object(
        seq![
            (
                "hooks"@,
                json::JsonTree::List(
                    seq![
                        json::JsonTree::Object(
                            seq![
                                ("command"@, json::JsonTree::Text(command)),
                                ("timeout"@, json::JsonTree::Number(number::decimal(10))),
                                ("type"@, json::JsonTree::Text("command"@)),
                            ],
                        ),
                    ],
                ),
            ),
            ("matcher"@, json::JsonTree::Text(""@)),
        ],
    )
}

/// Whether an element is the entry that runs `command`.
pub open spec fn is_hook(element: Option<json::JsonTree>, command: Seq<char>) -> bool {
    element is Some && json::same(element->0, hook_tree(command))
}

/// The entry that runs `command`, as a value.
pub fn hook_entry(command: &str) -> (r: Json)
    ensures
        r@ == hook_tree(command@),
        r@ == hook_effects::entry(command@),
{
    proof {
        hook_effects::law_only_the_whole_entry_counts(None, command@);
    }
    let mut inner: Vec<(String, Json)> = Vec::new();
    inner.push(("command".to_owned(), json_text(command)));
    inner.push(("timeout".to_owned(), json_number(10)));
    inner.push(("type".to_owned(), json_text("command")));
    let mut list: Vec<Json> = Vec::new();
    list.push(json_object(inner));
    let mut outer: Vec<(String, Json)> = Vec::new();
    proof {
        let fields = hook_tree(command@)->Object_0[0].1->List_0[0]->Object_0;
        assert(json::member_trees(inner@) =~= fields);
        assert(json::trees(list@) =~= hook_tree(command@)->Object_0[0].1->List_0);
    }
    outer.push(("hooks".to_owned(), json_list(list)));
    outer.push(("matcher".to_owned(), json_text("")));
    assert(json::member_trees(outer@) =~= hook_tree(command@)->Object_0);
    json_object(outer)
}

/// The entry that runs `command`, to be put into a configuration.
fn hook_value(command: &str) -> (r: CstInputValue)
    ensures
        jsonc::input_tree(r) == hook_input(command@),
        jsonc::input_value(r) == hook_tree(command@),
{
    let mut inner: Vec<(String, CstInputValue)> = Vec::new();
    inner.push(("type".to_owned(), jsonc::input_text("command")));
    inner.push(("command".to_owned(), jsonc::input_text(command)));
    inner.push(("timeout".to_owned(), jsonc::input_number(10)));
    let ghost written = inner@.map_values(
        |m: (String, CstInputValue)| (m.0@, jsonc::input_tree(m.1)),
    );
    let ghost meant = inner@.map_values(
        |m: (String, CstInputValue)| (m.0@, jsonc::input_value(m.1)),
    );
    let inner = jsonc::input_object(inner);
    proof {
        reveal_strlit("type");
        reveal_strlit("command");
        reveal_strlit("timeout");
        let fields = hook_tree(command@)->Object_0[0].1->List_0[0]->Object_0;
        assert(written =~= hook_input(command@)->Object_0[1].1->List_0[0]->Object_0);
        lemma_sorted_three(meant[0], meant[1], meant[2]);
        assert(meant =~= seq![meant[0], meant[1], meant[2]]);
        assert(json::sorted(meant) =~= fields);
    }
    let mut list: Vec<CstInputValue> = Vec::new();
    list.push(inner);
    let ghost list_written = list@.map_values(|v: CstInputValue| jsonc::input_tree(v));
    let ghost list_meant = list@.map_values(|v: CstInputValue| jsonc::input_value(v));
    let list = jsonc::input_list(list);
    proof {
        assert(list_written =~= hook_input(command@)->Object_0[1].1->List_0);
        assert(list_meant =~= hook_tree(command@)->Object_0[0].1->List_0);
    }
    let mut outer: Vec<(String, CstInputValue)> = Vec::new();
    outer.push(("matcher".to_owned(), jsonc::input_text("")));
    outer.push(("hooks".to_owned(), list));
    let ghost outer_written = outer@.map_values(
        |m: (String, CstInputValue)| (m.0@, jsonc::input_tree(m.1)),
    );
    let ghost outer_meant = outer@.map_values(
        |m: (String, CstInputValue)| (m.0@, jsonc::input_value(m.1)),
    );
    proof {
        reveal_strlit("matcher");
        reveal_strlit("hooks");
        assert(outer_written =~= hook_input(command@)->Object_0);
        lemma_sorted_two(outer_meant[0], outer_meant[1]);
        assert(outer_meant =~= seq![outer_meant[0], outer_meant[1]]);
        assert(json::sorted(outer_meant) =~= hook_tree(command@)->Object_0);
    }
    jsonc::input_object(outer)
}

/// Two members whose names are in the wrong order.
proof fn lemma_sorted_two(a: (Seq<char>, json::JsonTree), b: (Seq<char>, json::JsonTree))
    requires
        a.0.len() > 0,
        b.0.len() > 0,
        b.0[0] < a.0[0],
    ensures
        json::sorted(seq![a, b]) == seq![b, a],
{
    let s = seq![a, b];
    assert(s.drop_last() =~= seq![a]);
    assert(seq![a].drop_last() =~= Seq::empty());
    assert(json::sorted(seq![a].drop_last()) =~= Seq::empty());
    assert(json::sorted(seq![a]) =~= seq![a]);
    assert(json::inserted(seq![a], b) =~= seq![b, a]);
}

/// Three members of which the second comes first, then the third, which differs from the first in
/// its second letter.
proof fn lemma_sorted_three(
    a: (Seq<char>, json::JsonTree),
    b: (Seq<char>, json::JsonTree),
    c: (Seq<char>, json::JsonTree),
)
    requires
        a.0.len() > 1,
        b.0.len() > 1,
        c.0.len() > 1,
        b.0[0] < a.0[0],
        c.0[0] == a.0[0],
        c.0[1] < a.0[1],
    ensures
        json::sorted(seq![a, b, c]) == seq![b, c, a],
{
    let s = seq![a, b, c];
    assert(s.drop_last() =~= seq![a, b]);
    lemma_sorted_two(a, b);
    let t = seq![b, a];
    assert(t.drop_first() =~= seq![a]);
    assert(!json::before(c.0, b.0));
    assert(json::before(c.0.drop_first(), a.0.drop_first()));
    assert(json::before(c.0, a.0));
    assert(json::inserted(seq![a], c) =~= seq![c, a]);
    assert(json::inserted(t, c) =~= seq![b, c, a]);
}

// ---------------------------------------------------------------------------
// What an edit makes of the values
// ---------------------------------------------------------------------------

/// The entries of one event after an edit.
pub open spec fn edited_list(
    list: Seq<Option<json::JsonTree>>,
    command: Seq<char>,
    remove: bool,
) -> Seq<Option<json::JsonTree>> {
    if remove {
        list.filter(|element: Option<json::JsonTree>| !is_hook(element, command))
    } else if has_hook(list, command) {
        list
    } else {
        list.push(Some(hook_tree(command)))
    }
}

/// Whether one of `list` is the entry that runs `command`.
pub open spec fn has_hook(list: Seq<Option<json::JsonTree>>, command: Seq<char>) -> bool {
    exists|i: int| 0 <= i < list.len() && is_hook(#[trigger] list[i], command)
}

/// The hooks after an edit of one event.
pub open spec fn edited_event(
    hooks: jsonc::Jsonc,
    event: Seq<char>,
    command: Seq<char>,
    remove: bool,
) -> Result<jsonc::Jsonc, HooksFault> {
    if !hooks.has(event) {
        if remove {
            Ok(hooks)
        } else {
            Ok(hooks.and(event, jsonc::Jsonc::List(seq![Some(hook_tree(command))])))
        }
    } else {
        match hooks.child(event) {
            jsonc::Jsonc::List(list) => Ok(
                hooks.with(event, jsonc::Jsonc::List(edited_list(list, command, remove))),
            ),
            _ => Err(HooksFault::EventNotArray),
        }
    }
}

/// The hooks after an edit of the first `n` events.
pub open spec fn edited_events(
    hooks: jsonc::Jsonc,
    command: Seq<char>,
    remove: bool,
    n: nat,
) -> Result<jsonc::Jsonc, HooksFault>
    decreases n,
{
    if n == 0 {
        Ok(hooks)
    } else {
        match edited_events(hooks, command, remove, (n - 1) as nat) {
            Err(e) => Err(e),
            Ok(done) => edited_event(done, events()[n - 1], command, remove),
        }
    }
}

/// The configuration after an edit.
pub open spec fn edited_tree(config: jsonc::Jsonc, command: Seq<char>, remove: bool) -> Result<
    jsonc::Jsonc,
    HooksFault,
> {
    if !(config is Object) {
        Err(HooksFault::NotObject)
    } else if config.has("hooks"@) {
        if !(config.child("hooks"@) is Object) {
            Err(HooksFault::HooksNotObject)
        } else {
            match edited_events(config.child("hooks"@), command, remove, events().len()) {
                Err(e) => Err(e),
                Ok(hooks) => Ok(config.with("hooks"@, hooks)),
            }
        }
    } else if remove {
        Ok(config)
    } else {
        match edited_events(jsonc::Jsonc::Object(Seq::empty()), command, remove, events().len()) {
            Err(e) => Err(e),
            Ok(hooks) => Ok(config.and("hooks"@, hooks)),
        }
    }
}

// ---------------------------------------------------------------------------
// What an edit makes of the document
// ---------------------------------------------------------------------------

/// The place of the hooks.
pub open spec fn hooks_path() -> Seq<Seq<char>> {
    seq!["hooks"@]
}

/// A document without the entries that run `command` among those of `event`, of which `list` are
/// the ones from `index` on. They are taken out one after the other, from the first to the last.
pub open spec fn dropped(
    root: CstRootNode,
    event: Seq<char>,
    list: Seq<Option<json::JsonTree>>,
    command: Seq<char>,
    index: int,
) -> CstRootNode
    decreases list.len(),
{
    if list.len() == 0 {
        root
    } else if is_hook(list[0], command) {
        dropped(
            jsonc::jsonc_without_element(root, hooks_path(), event, index),
            event,
            list.drop_first(),
            command,
            index,
        )
    } else {
        dropped(root, event, list.drop_first(), command, index + 1)
    }
}

/// A document after an edit of the entries of one event, which are `list`.
pub open spec fn root_after_list(
    root: CstRootNode,
    event: Seq<char>,
    list: Seq<Option<json::JsonTree>>,
    command: Seq<char>,
    remove: bool,
) -> CstRootNode {
    if remove {
        dropped(root, event, list, command, 0)
    } else if has_hook(list, command) {
        root
    } else {
        jsonc::jsonc_with_element(root, hooks_path(), event, hook_input(command))
    }
}

/// A document after an edit of one event.
pub open spec fn root_after_event(
    root: CstRootNode,
    event: Seq<char>,
    command: Seq<char>,
    remove: bool,
) -> CstRootNode {
    let hooks = jsonc::jsonc_tree(root).child("hooks"@);
    if hooks.has(event) {
        root_after_list(root, event, hooks.child(event)->List_0, command, remove)
    } else if remove {
        root
    } else {
        root_after_list(
            jsonc::jsonc_with_member(
                root,
                hooks_path(),
                event,
                json::JsonTree::List(Seq::empty()),
            ),
            event,
            Seq::empty(),
            command,
            remove,
        )
    }
}

/// A document after an edit of the first `n` events.
pub open spec fn root_after_events(
    root: CstRootNode,
    command: Seq<char>,
    remove: bool,
    n: nat,
) -> CstRootNode
    decreases n,
{
    if n == 0 {
        root
    } else {
        root_after_event(
            root_after_events(root, command, remove, (n - 1) as nat),
            events()[n - 1],
            command,
            remove,
        )
    }
}

/// A document after an edit.
pub open spec fn edited_root(root: CstRootNode, command: Seq<char>, remove: bool) -> CstRootNode {
    if jsonc::jsonc_tree(root).has("hooks"@) {
        root_after_events(root, command, remove, events().len())
    } else if remove {
        root
    } else {
        root_after_events(
            jsonc::jsonc_with_member(
                root,
                Seq::empty(),
                "hooks"@,
                json::JsonTree::Object(Seq::empty()),
            ),
            command,
            remove,
            events().len(),
        )
    }
}

// ---------------------------------------------------------------------------
// Editing
// ---------------------------------------------------------------------------

/// The place of the hooks.
fn path_to_hooks() -> (r: Vec<String>)
    ensures
        text::views(r@) == hooks_path(),
{
    let mut path: Vec<String> = Vec::new();
    path.push("hooks".to_owned());
    assert(text::views(path@) =~= hooks_path());
    path
}

/// What the hooks of a document are, and what becomes of the document with other hooks.
proof fn lemma_place(config: jsonc::Jsonc, hooks: jsonc::Jsonc, next: jsonc::Jsonc)
    requires
        config.has("hooks"@),
    ensures
        config.with("hooks"@, hooks).at(hooks_path()) == hooks,
        config.with("hooks"@, hooks).put(hooks_path(), next) == config.with("hooks"@, next),
        config.at(hooks_path()) == config.child("hooks"@),
        config.put(hooks_path(), next) == config.with("hooks"@, next),
        config.with("hooks"@, config.child("hooks"@)) == config,
{
    let after = config.with("hooks"@, hooks);
    jsonc::lemma_with(config, "hooks"@, hooks, "hooks"@);
    jsonc::lemma_with_twice(config, "hooks"@, hooks, next);
    jsonc::lemma_short_path(after, "hooks"@, next);
    jsonc::lemma_short_path(config, "hooks"@, next);
}

/// Whether an element is the entry that runs `command`.
pub fn is_hook_entry(element: &Json, command: &str) -> (r: bool)
    ensures
        r == is_hook(Some(element@), command@),
        r == (element@ == hook_effects::entry(command@)),
{
    proof {
        hook_effects::law_only_the_whole_entry_counts(Some(element@), command@);
    }
    same_json(element, &hook_entry(command))
}

/// For each entry of an event, whether it is the one that is expected.
fn find_hooks(root: &CstRootNode, path: &Vec<String>, event: &str, command: &str) -> (r: Vec<bool>)
    requires
        jsonc::jsonc_tree(*root).at(text::views(path@)) is Object,
        jsonc::jsonc_tree(*root).at(text::views(path@)).child(event@) is List,
    ensures
        r@.len() == jsonc::jsonc_tree(*root).at(text::views(path@)).child(event@)->List_0.len(),
        forall|i: int|
            0 <= i < r@.len() ==> (#[trigger] r@[i]) == is_hook(
                jsonc::jsonc_tree(*root).at(text::views(path@)).child(event@)->List_0[i],
                command@,
            ),
{
    let entries: Vec<Option<serde_json::Value>> = jsonc::elements(root, path, event);
    let ghost list = jsonc::jsonc_tree(*root).at(text::views(path@)).child(event@)->List_0;
    let ghost all = entries@;
    let mut marks: Vec<bool> = Vec::new();
    for entry in it: entries
        invariant
            it.seq() == all,
            all.len() == list.len(),
            forall|i: int|
                0 <= i < all.len() ==> jsonc::value_option(#[trigger] all[i]) == list[i],
            marks@.len() == it.index(),
            forall|i: int|
                0 <= i < marks@.len() ==> (#[trigger] marks@[i]) == is_hook(list[i], command@),
    {
        assert(jsonc::value_option(all[it.index()]) == list[it.index()]);
        let mark = match entry {
            Some(value) => is_hook_entry(&from_value(value), command),
            None => false,
        };
        marks.push(mark);
    }
    marks
}

/// Edits the entries of one event.
fn edit_list(
    root: &mut CstRootNode,
    path: &Vec<String>,
    event: &str,
    command: &str,
    remove: bool,
)
    requires
        text::views(path@) == hooks_path(),
        jsonc::jsonc_tree(*old(root)).has("hooks"@),
        jsonc::jsonc_tree(*old(root)).child("hooks"@).has(event@),
        jsonc::jsonc_tree(*old(root)).child("hooks"@).child(event@) is List,
    ensures
        *final(root) == root_after_list(
            *old(root),
            event@,
            jsonc::jsonc_tree(*old(root)).child("hooks"@).child(event@)->List_0,
            command@,
            remove,
        ),
        jsonc::jsonc_tree(*final(root)) == jsonc::jsonc_tree(*old(root)).with(
            "hooks"@,
            jsonc::jsonc_tree(*old(root)).child("hooks"@).with(
                event@,
                jsonc::Jsonc::List(
                    edited_list(
                        jsonc::jsonc_tree(*old(root)).child("hooks"@).child(event@)->List_0,
                        command@,
                        remove,
                    ),
                ),
            ),
        ),
{
    let ghost start = *root;
    let ghost config = jsonc::jsonc_tree(*root);
    let ghost hooks = config.child("hooks"@);
    let ghost list = hooks.child(event@)->List_0;
    let ghost wanted = |element: Option<json::JsonTree>| !is_hook(element, command@);
    proof {
        lemma_place(config, hooks, hooks);
        jsonc::lemma_with(hooks, event@, hooks, event@);
    }
    let marks: Vec<bool> = find_hooks(root, path, event, command);
    let n: usize = marks.len();
    if remove {
        let mut index: usize = 0;
        proof {
            assert(list.take(0) =~= Seq::empty());
            reveal(Seq::filter);
            assert(list.take(0).filter(wanted) =~= Seq::empty());
            assert(list.skip(0) =~= list);
            assert(Seq::<Option<json::JsonTree>>::empty() + list =~= list);
        }
        for i in 0..n
            invariant
                text::views(path@) == hooks_path(),
                config.has("hooks"@),
                hooks == config.child("hooks"@),
                hooks.has(event@),
                hooks.child(event@) == jsonc::Jsonc::List(list),
                n == marks@.len() == list.len(),
                forall|k: int| 0 <= k < n ==> (#[trigger] marks@[k]) == is_hook(list[k], command@),
                wanted == (|element: Option<json::JsonTree>| !is_hook(element, command@)),
                index == list.take(i as int).filter(wanted).len(),
                index <= i,
                dropped(*root, event@, list.skip(i as int), command@, index as int) == dropped(
                    start,
                    event@,
                    list,
                    command@,
                    0,
                ),
                jsonc::jsonc_tree(*root) == config.with(
                    "hooks"@,
                    hooks.with(
                        event@,
                        jsonc::Jsonc::List(
                            list.take(i as int).filter(wanted) + list.skip(i as int),
                        ),
                    ),
                ),
        {
            let ghost now = list.take(i as int).filter(wanted) + list.skip(i as int);
            let ghost now_hooks = hooks.with(event@, jsonc::Jsonc::List(now));
            proof {
                reveal(Seq::filter);
                assert(list.take(i + 1).drop_last() =~= list.take(i as int));
                assert(list.take(i + 1).last() == list[i as int]);
                assert(list.skip(i as int)[0] == list[i as int]);
                assert(list.skip(i as int).drop_first() =~= list.skip(i + 1));
                jsonc::lemma_with(hooks, event@, jsonc::Jsonc::List(now), event@);
                assert(marks@[i as int] == is_hook(list[i as int], command@));
            }
            if marks[i] {
                proof {
                    lemma_place(
                        config,
                        now_hooks,
                        now_hooks.with(event@, jsonc::Jsonc::List(now.remove(index as int))),
                    );
                    jsonc::lemma_with_twice(
                        hooks,
                        event@,
                        jsonc::Jsonc::List(now),
                        jsonc::Jsonc::List(now.remove(index as int)),
                    );
                    assert(now.remove(index as int) =~= list.take(i + 1).filter(wanted) + list.skip(
                        i + 1,
                    ));
                }
                jsonc::remove_element(root, path, event, index);
            } else {
                assert(now =~= list.take(i + 1).filter(wanted) + list.skip(i + 1));
                index = index + 1;
            }
        }
        proof {
            assert(list.take(n as int) =~= list);
            assert(list.skip(n as int) =~= Seq::empty());
            assert(list.filter(wanted) + Seq::<Option<json::JsonTree>>::empty() =~= list.filter(
                wanted,
            ));
        }
    } else {
        for i in 0..n
            invariant
                n == marks@.len() == list.len(),
                forall|k: int| 0 <= k < n ==> (#[trigger] marks@[k]) == is_hook(list[k], command@),
                forall|k: int| 0 <= k < i ==> !is_hook(#[trigger] list[k], command@),
                start == *root,
                start == *old(root),
                config == jsonc::jsonc_tree(start),
                hooks == config.child("hooks"@),
                config.with("hooks"@, hooks) == config,
                hooks.with(event@, jsonc::Jsonc::List(list)) == hooks,
                hooks.child(event@) == jsonc::Jsonc::List(list),
                !remove,
        {
            assert(marks@[i as int] == is_hook(list[i as int], command@));
            if marks[i] {
                assert(has_hook(list, command@));
                return;
            }
        }
        proof {
            lemma_place(
                config,
                hooks,
                hooks.with(event@, jsonc::Jsonc::List(list.push(Some(hook_tree(command@))))),
            );
        }
        jsonc::append_element(root, path, event, hook_value(command));
    }
}

/// Edits the hooks of one event.
fn edit_event(
    root: &mut CstRootNode,
    path: &Vec<String>,
    event: &str,
    command: &str,
    remove: bool,
) -> (r: Result<(), HooksFault>)
    requires
        text::views(path@) == hooks_path(),
        jsonc::jsonc_tree(*old(root)).has("hooks"@),
        jsonc::jsonc_tree(*old(root)).child("hooks"@) is Object,
    ensures
        match edited_event(
            jsonc::jsonc_tree(*old(root)).child("hooks"@),
            event@,
            command@,
            remove,
        ) {
            Ok(hooks) => {
                &&& r is Ok
                &&& *final(root) == root_after_event(*old(root), event@, command@, remove)
                &&& jsonc::jsonc_tree(*final(root)) == jsonc::jsonc_tree(*old(root)).with(
                    "hooks"@,
                    hooks,
                )
                &&& hooks is Object
            },
            Err(e) => r == Err::<(), HooksFault>(e),
        },
{
    let ghost config = jsonc::jsonc_tree(*root);
    let ghost hooks = config.child("hooks"@);
    let ghost none = jsonc::Jsonc::List(Seq::<Option<json::JsonTree>>::empty());
    proof {
        lemma_place(config, hooks, hooks);
    }
    if jsonc::has_member(root, path, event) {
        if !jsonc::is_list(root, path, event) {
            return Err(HooksFault::EventNotArray);
        }
    } else {
        if remove {
            return Ok(());
        }
        let empty = jsonc::input_list(Vec::new());
        proof {
            assert(jsonc::input_tree(empty)->List_0 =~= Seq::empty());
            lemma_place(config, hooks, hooks.and(event@, none));
            jsonc::lemma_with(hooks, event@, none, event@);
            jsonc::lemma_with(config, "hooks"@, hooks.and(event@, none), "hooks"@);
            let one = jsonc::Jsonc::List(seq![Some(hook_tree(command@))]);
            jsonc::lemma_with_twice(hooks, event@, none, one);
            jsonc::lemma_with_twice(
                config,
                "hooks"@,
                hooks.and(event@, none),
                hooks.and(event@, one),
            );
            assert(Seq::<Option<json::JsonTree>>::empty().push(Some(hook_tree(command@)))
                =~= seq![Some(hook_tree(command@))]);
        }
        jsonc::append_member(root, path, event, empty);
    }
    edit_list(root, path, event, command, remove);
    Ok(())
}

/// The events that have a progress hook.
fn event_names() -> (r: Vec<String>)
    ensures
        text::views(r@) == events(),
{
    let mut names: Vec<String> = Vec::new();
    names.push("SessionStart".to_owned());
    names.push("PostCompaction".to_owned());
    names.push("PostToolUse".to_owned());
    names.push("UserPromptSubmit".to_owned());
    assert(text::views(names@) =~= events());
    names
}

/// A fault among the first events is the fault of all.
proof fn lemma_fault_stays(hooks: jsonc::Jsonc, command: Seq<char>, remove: bool, n: nat, m: nat)
    requires
        n <= m,
        edited_events(hooks, command, remove, n) is Err,
    ensures
        edited_events(hooks, command, remove, m) == edited_events(hooks, command, remove, n),
    decreases m,
{
    if n < m {
        lemma_fault_stays(hooks, command, remove, n, (m - 1) as nat);
    }
}

/// Edits the hooks of all events.
fn edit_events(root: &mut CstRootNode, path: &Vec<String>, command: &str, remove: bool) -> (r:
    Result<(), HooksFault>)
    requires
        text::views(path@) == hooks_path(),
        jsonc::jsonc_tree(*old(root)).has("hooks"@),
        jsonc::jsonc_tree(*old(root)).child("hooks"@) is Object,
    ensures
        match edited_events(
            jsonc::jsonc_tree(*old(root)).child("hooks"@),
            command@,
            remove,
            events().len(),
        ) {
            Ok(hooks) => {
                &&& r is Ok
                &&& *final(root) == root_after_events(
                    *old(root),
                    command@,
                    remove,
                    events().len(),
                )
                &&& jsonc::jsonc_tree(*final(root)) == jsonc::jsonc_tree(*old(root)).with(
                    "hooks"@,
                    hooks,
                )
            },
            Err(e) => r == Err::<(), HooksFault>(e),
        },
{
    let ghost start = *root;
    let ghost config = jsonc::jsonc_tree(*root);
    let ghost hooks = config.child("hooks"@);
    proof {
        lemma_place(config, hooks, hooks);
    }
    let names: Vec<String> = event_names();
    let n: usize = names.len();
    for i in 0..n
        invariant
            text::views(path@) == hooks_path(),
            text::views(names@) == events(),
            n == names@.len() == events().len(),
            start == *old(root),
            config == jsonc::jsonc_tree(start),
            config.has("hooks"@),
            hooks == config.child("hooks"@),
            *root == root_after_events(start, command@, remove, i as nat),
            edited_events(hooks, command@, remove, i as nat) is Ok,
            edited_events(hooks, command@, remove, i as nat)->Ok_0 is Object,
            jsonc::jsonc_tree(*root) == config.with(
                "hooks"@,
                edited_events(hooks, command@, remove, i as nat)->Ok_0,
            ),
    {
        let ghost done = edited_events(hooks, command@, remove, i as nat)->Ok_0;
        proof {
            assert(text::views(names@)[i as int] == names@[i as int]@);
            jsonc::lemma_with(config, "hooks"@, done, "hooks"@);
            jsonc::lemma_with_twice(
                config,
                "hooks"@,
                done,
                edited_event(done, names@[i as int]@, command@, remove)->Ok_0,
            );
        }
        match edit_event(root, path, names[i].as_str(), command, remove) {
            Ok(()) => {},
            Err(e) => {
                proof {
                    lemma_fault_stays(
                        hooks,
                        command@,
                        remove,
                        (i + 1) as nat,
                        events().len(),
                    );
                }
                return Err(e);
            },
        }
    }
    Ok(())
}

/// Whether an edit of the first `n` events leaves the hooks as they are: each has its entry already,
/// or none has one that is to be taken out.
pub open spec fn settled(hooks: jsonc::Jsonc, command: Seq<char>, remove: bool, n: nat) -> bool {
    forall|i: int|
        0 <= i < n && i < events().len() ==> {
            let event = #[trigger] events()[i];
            &&& hooks.has(event) || remove
            &&& hooks.has(event) ==> hooks.child(event) is List && has_hook(
                hooks.child(event)->List_0,
                command,
            ) == !remove
        }
}

/// Where there is nothing to take out, nothing is.
proof fn lemma_nothing_dropped(
    root: CstRootNode,
    event: Seq<char>,
    list: Seq<Option<json::JsonTree>>,
    command: Seq<char>,
    index: int,
)
    requires
        !has_hook(list, command),
    ensures
        dropped(root, event, list, command, index) == root,
    decreases list.len(),
{
    if list.len() > 0 {
        assert(!is_hook(list[0], command));
        let rest = list.drop_first();
        assert forall|i: int| 0 <= i < rest.len() implies !is_hook(#[trigger] rest[i], command) by {
            assert(rest[i] == list[i + 1]);
        }
        lemma_nothing_dropped(root, event, rest, command, index + 1);
    }
}

/// A document whose hooks are settled stays as it is.
proof fn lemma_settled_root(root: CstRootNode, command: Seq<char>, remove: bool, n: nat)
    requires
        n <= events().len(),
        settled(jsonc::jsonc_tree(root).child("hooks"@), command, remove, n),
    ensures
        root_after_events(root, command, remove, n) == root,
    decreases n,
{
    if n > 0 {
        lemma_settled_root(root, command, remove, (n - 1) as nat);
        let event = events()[n - 1];
        let hooks = jsonc::jsonc_tree(root).child("hooks"@);
        if hooks.has(event) && remove {
            lemma_nothing_dropped(root, event, hooks.child(event)->List_0, command, 0);
        }
    }
}

/// Hooks that are settled have no fault.
proof fn lemma_settled_events(hooks: jsonc::Jsonc, command: Seq<char>, remove: bool, n: nat)
    requires
        n <= events().len(),
        hooks is Object,
        settled(hooks, command, remove, n),
    ensures
        edited_events(hooks, command, remove, n) == Ok::<jsonc::Jsonc, HooksFault>(hooks),
    decreases n,
{
    if n > 0 {
        lemma_settled_events(hooks, command, remove, (n - 1) as nat);
        let event = events()[n - 1];
        jsonc::lemma_with(hooks, event, hooks, event);
        if hooks.has(event) && remove {
            lemma_all_kept(hooks.child(event)->List_0, command);
        }
    }
}

/// Where no entry is the one that is looked for, taking it out leaves them all.
pub proof fn lemma_all_kept(list: Seq<Option<json::JsonTree>>, command: Seq<char>)
    requires
        !has_hook(list, command),
    ensures
        edited_list(list, command, true) == list,
    decreases list.len(),
{
    reveal(Seq::filter);
    if list.len() > 0 {
        let front = list.drop_last();
        assert forall|i: int| 0 <= i < front.len() implies !is_hook(
            #[trigger] front[i],
            command,
        ) by {
            assert(front[i] == list[i]);
        }
        lemma_all_kept(front, command);
        assert(!is_hook(list[list.len() - 1], command));
        assert(front.push(list.last()) =~= list);
    }
}

/// Whether editing the configuration `input` has nothing to do.
pub open spec fn nothing_to_do(input: Seq<char>, command: Seq<char>, remove: bool) -> bool {
    jsonc::jsonc_parsed(input) matches Ok(root) && {
        let config = jsonc::jsonc_tree(root);
        &&& config is Object
        &&& config.has("hooks"@) || remove
        &&& config.has("hooks"@) ==> config.child("hooks"@) is Object && settled(
            config.child("hooks"@),
            command,
            remove,
            events().len(),
        )
    }
}

/// Whether `r` is what editing the configuration `input` gives.
pub open spec fn hooks_result(
    input: Seq<char>,
    command: Seq<char>,
    remove: bool,
    r: Result<String, HooksError>,
) -> bool {
    match jsonc::jsonc_parsed(input) {
        Err(m) => r matches Err(HooksError::Parse(n)) && n@ == m,
        Ok(root) => match edited_tree(jsonc::jsonc_tree(root), command, remove) {
            Ok(tree) => {
                &&& r is Ok
                &&& if remove && !jsonc::jsonc_tree(root).has("hooks"@) {
                    r->Ok_0@ == input
                } else {
                    &&& r->Ok_0@ == jsonc::jsonc_text(edited_root(root, command, remove))
                    &&& jsonc::jsonc_tree(edited_root(root, command, remove)) == tree
                }
            },
            Err(e) => r == Err::<String, HooksError>(HooksError::Fault(e)),
        },
    }
}

/// Puts hooks that run `command` into the agent's configuration `input`, or takes them out with
/// `remove`.
///
/// Each event gets one entry, at the end of its list, unless it has that entry. Entries that differ
/// from it in anything are left alone. Where there is nothing to do, the text comes back as it is.
pub fn hooks(input: &str, command: &str, remove: bool) -> (r: Result<String, HooksError>)
    ensures
        hooks_result(input@, command@, remove, r),
        nothing_to_do(input@, command@, remove) ==> r is Ok && r->Ok_0@ == input@,
{
    let mut root = match jsonc::parse_jsonc(input) {
        Ok(root) => root,
        Err(m) => return Err(HooksError::Parse(m)),
    };
    let ghost start = root;
    let ghost config = jsonc::jsonc_tree(root);
    let top: Vec<String> = Vec::new();
    let path: Vec<String> = path_to_hooks();
    proof {
        assert(text::views(top@) =~= Seq::empty());
        jsonc::lemma_short_path(config, "hooks"@, config);
    }
    if !jsonc::is_object(&root, &top) {
        return Err(HooksError::Fault(HooksFault::NotObject));
    }
    if jsonc::has_member(&root, &top, "hooks") {
        if !jsonc::is_object(&root, &path) {
            return Err(HooksError::Fault(HooksFault::HooksNotObject));
        }
    } else {
        if remove {
            return Ok(input.to_owned());
        }
        let empty = jsonc::input_object(Vec::new());
        let ghost none = jsonc::Jsonc::Object(Seq::empty());
        proof {
            assert(jsonc::input_tree(empty)->Object_0 =~= Seq::empty());
            jsonc::lemma_short_path(config, "hooks"@, config.and("hooks"@, none));
            jsonc::lemma_with(config, "hooks"@, none, "hooks"@);
            jsonc::lemma_with_twice(
                config,
                "hooks"@,
                none,
                edited_events(none, command@, remove, events().len())->Ok_0,
            );
        }
        jsonc::append_member(&mut root, &top, "hooks", empty);
    }
    proof {
        if nothing_to_do(input@, command@, remove) {
            lemma_settled_root(start, command@, remove, events().len());
            lemma_settled_events(config.child("hooks"@), command@, remove, events().len());
        }
    }
    match edit_events(&mut root, &path, command, remove) {
        Ok(()) => {},
        Err(e) => return Err(HooksError::Fault(e)),
    }
    Ok(jsonc::print_jsonc(&root))
}

impl HooksError {
    /// What is wrong, in words.
    pub open spec fn message_text(self) -> Seq<char> {
        match self {
            HooksError::Parse(m) => m@,
            HooksError::Fault(HooksFault::NotObject) => "Hook configuration must be an object"@,
            HooksError::Fault(HooksFault::HooksNotObject) => "hooks must be an object"@,
            HooksError::Fault(HooksFault::EventNotArray) => "Hook event must be an array"@,
        }
    }

    /// What is wrong, in words.
    pub fn message(&self) -> (r: String)
        ensures
            r@ == self.message_text(),
    {
        match self {
            HooksError::Parse(m) => m.clone(),
            HooksError::Fault(
                HooksFault::NotObject,
            ) => "Hook configuration must be an object".to_owned(),
            HooksError::Fault(HooksFault::HooksNotObject) => "hooks must be an object".to_owned(),
            HooksError::Fault(
                HooksFault::EventNotArray,
            ) => "Hook event must be an array".to_owned(),
        }
    }
}

} // verus!
