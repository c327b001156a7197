//! What an edit of the agent's hook configuration does to what stands in it, name by name.
use jsonc_parser::cst::CstRootNode;
use vstd::prelude::*;

use crate::display;
use crate::hook_config;
use crate::hook_config::{HooksError, HooksFault};
use crate::hook_laws;
use crate::json;
use crate::jsonc;
use crate::number;
use crate::tree;

verus! {

/// The value `{"matcher":"","hooks":[{"type":"command","command":command,"timeout":10}]}`.
pub open spec fn entry(command: Seq<char>) -> json::JsonTree {
    json::JsonTree::Object(
        seq![
            (
                "hooks"@,
                json::JsonTree::List(
                    seq![
                        json::JsonTree::Object(
                            seq![
                                ("command"@, json::JsonTree::Text(command)),
                                ("timeout"@, json::JsonTree::Number("10"@)),
                                ("type"@, json::JsonTree::Text("command"@)),
                            ],
                        ),
                    ],
                ),
            ),
            ("matcher"@, json::JsonTree::Text(""@)),
        ],
    )
}

/// Whether `key` is the name of an event that has a progress hook.
pub open spec fn names_event(key: Seq<char>) -> bool {
    key == "SessionStart"@ || key == "PostCompaction"@ || key == "PostToolUse"@ || key
        == "UserPromptSubmit"@
}

/// The number of seconds that a hook has.
proof fn lemma_ten()
    ensures
        number::decimal(10) == "10"@,
{
    reveal_strlit("10");
    reveal_with_fuel(number::numeral, 3);
    assert(number::decimal(10) =~= "10"@);
}

/// An element counts as the entry that runs `command` exactly where it is equal, in every member, to
/// `{"matcher":"","hooks":[{"type":"command","command":command,"timeout":10}]}`.
pub proof fn law_only_the_whole_entry_counts(element: Option<json::JsonTree>, command: Seq<char>)
    ensures
        hook_config::is_hook(element, command) <==> element == Some(entry(command)),
        hook_config::hook_tree(command) == entry(command),
{
    lemma_ten();
    let t = entry(command);
    assert(hook_config::hook_tree(command)->Object_0[0].1->List_0[0]->Object_0
        =~= t->Object_0[0].1->List_0[0]->Object_0);
    assert(hook_config::hook_tree(command)->Object_0[0].1->List_0
        =~= t->Object_0[0].1->List_0);
    assert(hook_config::hook_tree(command)->Object_0 =~= t->Object_0);
    reveal_strlit("0.0");
    reveal_strlit("-0.0");
    reveal_strlit("10");
    assert("10"@.len() == 2 && "0.0"@.len() == 3 && "-0.0"@.len() == 4);
    let inner = t->Object_0[0].1->List_0[0];
    assert(json::without_fractional_zero(inner->Object_0[0].1));
    assert(json::without_fractional_zero(inner->Object_0[1].1));
    assert(json::without_fractional_zero(inner->Object_0[2].1));
    assert(json::without_fractional_zero(inner));
    assert(json::without_fractional_zero(t->Object_0[0].1));
    assert(json::without_fractional_zero(t->Object_0[1].1));
    assert(json::without_fractional_zero(t));
    if element is Some {
        json::law_same_is_equality(element->0, t);
    }
}

/// The events are those that have a progress hook.
proof fn lemma_events_are_named(key: Seq<char>)
    ensures
        hook_laws::is_event(key, hook_config::events().len()) <==> names_event(key),
{
    let s = hook_config::events();
    assert(s[0] == "SessionStart"@ && s[1] == "PostCompaction"@ && s[2] == "PostToolUse"@ && s[3]
        == "UserPromptSubmit"@);
}

/// The entries of one event after an edit.
proof fn lemma_list(list: Seq<Option<json::JsonTree>>, command: Seq<char>)
    ensures
        hook_config::edited_list(list, command, true) == list.filter(
            |e: Option<json::JsonTree>| e != Some(entry(command)),
        ),
        list.contains(Some(entry(command))) ==> hook_config::edited_list(list, command, false)
            == list,
        !list.contains(Some(entry(command))) ==> hook_config::edited_list(list, command, false)
            == list.push(Some(entry(command))),
{
    let f = |e: Option<json::JsonTree>| !hook_config::is_hook(e, command);
    let g = |e: Option<json::JsonTree>| e != Some(entry(command));
    assert forall|e: Option<json::JsonTree>| #[trigger] f(e) == g(e) by {
        law_only_the_whole_entry_counts(e, command);
    }
    display::lemma_same_filter(list, f, g);
    law_only_the_whole_entry_counts(None, command);
    if hook_config::has_hook(list, command) {
        let i = choose|i: int|
            0 <= i < list.len() && hook_config::is_hook(#[trigger] list[i], command);
        law_only_the_whole_entry_counts(list[i], command);
        assert(list.contains(list[i]));
    }
    if list.contains(Some(entry(command))) {
        let i = choose|i: int| 0 <= i < list.len() && list[i] == Some(entry(command));
        law_only_the_whole_entry_counts(list[i], command);
        assert(hook_config::is_hook(list[i], command));
    }
}

/// Whether each of the first `n` events has a list, or nothing.
pub open spec fn has_lists(hooks: jsonc::Jsonc, n: nat) -> bool {
    forall|i: int|
        0 <= i < n && i < hook_config::events().len() && hooks.has(
            #[trigger] hook_config::events()[i],
        ) ==> hooks.child(hook_config::events()[i]) is List
}

/// The hooks can be edited where each event has a list, or nothing.
proof fn lemma_editable(hooks: jsonc::Jsonc, command: Seq<char>, remove: bool, n: nat)
    requires
        hooks is Object,
        n <= hook_config::events().len(),
    ensures
        match hook_config::edited_events(hooks, command, remove, n) {
            Ok(_) => has_lists(hooks, n),
            Err(e) => e == HooksFault::EventNotArray && !has_lists(hooks, n),
        },
    decreases n,
{
    if n > 0 {
        let m = (n - 1) as nat;
        let event = hook_config::events()[n - 1];
        lemma_editable(hooks, command, remove, m);
        if hook_config::edited_events(hooks, command, remove, m) is Ok {
            if hook_laws::is_event(event, m) {
                let i = choose|i: int|
                    0 <= i < m && i < hook_config::events().len()
                        && #[trigger] hook_config::events()[i] == event;
                hook_laws::lemma_events_differ(i, n - 1);
            }
            hook_laws::lemma_events(hooks, command, remove, m, event);
            if has_lists(hooks, m) && (!hooks.has(event) || hooks.child(event) is List) {
                assert(has_lists(hooks, n));
            }
        } else {
            let i = choose|i: int|
                0 <= i < m && i < hook_config::events().len() && hooks.has(
                    #[trigger] hook_config::events()[i],
                ) && !(hooks.child(hook_config::events()[i]) is List);
            assert(!has_lists(hooks, n));
        }
    }
}

/// Whether the member `key` of an object is a list, or is not there.
pub open spec fn list_or_none(t: jsonc::Jsonc, key: Seq<char>) -> bool {
    t.has(key) ==> t.child(key) is List
}

/// A configuration is edited exactly where it can be read, is an object, its hooks are one too, if there
/// are any, and each of the four events has an array, if it has anything. Otherwise it is said which of
/// these fails.
pub proof fn law_hooks_are_refused_only_for_cause(
    input: Seq<char>,
    command: Seq<char>,
    remove: bool,
    r: Result<String, HooksError>,
)
    requires
        hook_config::hooks_result(input, command, remove, r),
    ensures
        r matches Err(HooksError::Parse(_)) <==> jsonc::jsonc_parsed(input) is Err,
        jsonc::jsonc_parsed(input) matches Ok(root) ==> {
            let config = jsonc::jsonc_tree(root);
            let hooks = config.child("hooks"@);
            let lists = list_or_none(hooks, "SessionStart"@) && list_or_none(
                hooks,
                "PostCompaction"@,
            ) && list_or_none(hooks, "PostToolUse"@) && list_or_none(hooks, "UserPromptSubmit"@);
            &&& r is Ok <==> config is Object && (config.has("hooks"@) ==> hooks is Object && lists)
            &&& !(config is Object) ==> r == Err::<String, HooksError>(
                HooksError::Fault(HooksFault::NotObject),
            )
            &&& config.has("hooks"@) && !(hooks is Object) ==> r == Err::<String, HooksError>(
                HooksError::Fault(HooksFault::HooksNotObject),
            )
            &&& config.has("hooks"@) && hooks is Object && !lists ==> r == Err::<
                String,
                HooksError,
            >(HooksError::Fault(HooksFault::EventNotArray))
        },
{
    if jsonc::jsonc_parsed(input) is Ok {
        let config = jsonc::jsonc_tree(jsonc::jsonc_parsed(input)->Ok_0);
        let none = jsonc::Jsonc::Object(Seq::empty());
        let hooks = config.child("hooks"@);
        let n = hook_config::events().len();
        let s = hook_config::events();
        assert(s[0] == "SessionStart"@ && s[1] == "PostCompaction"@ && s[2] == "PostToolUse"@
            && s[3] == "UserPromptSubmit"@);
        lemma_editable(none, command, remove, n);
        assert(has_lists(none, n));
        if hooks is Object {
            lemma_editable(hooks, command, remove, n);
        }
    }
}

/// Whether the members of an object are still in their order, those that are new behind them.
pub open spec fn keeps_order(before: jsonc::Jsonc, after: jsonc::Jsonc) -> bool {
    before is Object ==> {
        &&& after is Object
        &&& before->Object_0.len() <= after->Object_0.len()
        &&& forall|i: int|
            #![trigger after->Object_0[i]]
            0 <= i < before->Object_0.len() ==> after->Object_0[i].0 == before->Object_0[i].0
    }
}

/// An edit of the first `n` events leaves the members in their order, and makes none where it takes out.
proof fn lemma_order(hooks: jsonc::Jsonc, command: Seq<char>, remove: bool, n: nat)
    requires
        hooks is Object,
        n <= hook_config::events().len(),
        hook_config::edited_events(hooks, command, remove, n) is Ok,
    ensures
        ({
            let done = hook_config::edited_events(hooks, command, remove, n)->Ok_0;
            &&& keeps_order(hooks, done)
            &&& remove ==> done->Object_0.len() == hooks->Object_0.len()
        }),
    decreases n,
{
    if n > 0 {
        let m = (n - 1) as nat;
        lemma_order(hooks, command, remove, m);
        let event = hook_config::events()[n - 1];
        let before = hook_config::edited_events(hooks, command, remove, m)->Ok_0;
        let done = hook_config::edited_events(hooks, command, remove, n)->Ok_0;
        tree::lemma_position(before->Object_0, event);
        assert forall|i: int|
            #![trigger done->Object_0[i]]
            0 <= i < hooks->Object_0.len() implies done->Object_0[i].0 == hooks->Object_0[i].0 by {
            assert(before->Object_0[i].0 == hooks->Object_0[i].0);
        }
    }
}

/// Whether the configuration `output`, which is `after` written out, is the configuration `input` but for
/// the entries that run `command`: for each of the four events the other elements stay, as they are and in
/// their order, also those that differ from the entry in one member alone; every other member, of the
/// hooks and of the whole, is what it was. Where there are no hooks the text itself is.
pub open spec fn only_entries_are_out(
    input: Seq<char>,
    command: Seq<char>,
    output: Seq<char>,
    after: CstRootNode,
) -> bool {
    &&& jsonc::jsonc_parsed(input) is Ok
    &&& {
        let root = jsonc::jsonc_parsed(input)->Ok_0;
        let before = jsonc::jsonc_tree(root);
        let now = jsonc::jsonc_tree(after);
        let hooks = before.child("hooks"@);
        let left = now.child("hooks"@);
        &&& !before.has("hooks"@) ==> output == input && now == before
        &&& before.has("hooks"@) ==> output == jsonc::jsonc_text(after)
        &&& keeps_order(before, now) && keeps_order(hooks, left)
        &&& before is Object ==> now->Object_0.len() == before->Object_0.len()
        &&& hooks is Object ==> left->Object_0.len() == hooks->Object_0.len()
        &&& forall|key: Seq<char>| #[trigger] now.has(key) == before.has(key)
        &&& forall|key: Seq<char>|
            key != "hooks"@ ==> #[trigger] now.child(key) == before.child(key)
        &&& forall|key: Seq<char>| #[trigger] left.has(key) == hooks.has(key)
        &&& forall|key: Seq<char>|
            !names_event(key) ==> #[trigger] left.child(key) == hooks.child(key)
        &&& forall|key: Seq<char>|
            names_event(key) && hooks.has(key) ==> hooks.child(key) is List
                && #[trigger] left.child(key) == jsonc::Jsonc::List(
                hooks.child(key)->List_0.filter(
                    |e: Option<json::JsonTree>| e != Some(entry(command)),
                ),
            )
    }
}

/// Taking the hooks out leaves everything but the entries that run `command`: see
/// [`only_entries_are_out`].
pub proof fn law_taking_hooks_out(input: Seq<char>, command: Seq<char>, r: Result<String, HooksError>)
    -> (after: CstRootNode)
    requires
        hook_config::hooks_result(input, command, true, r),
        r is Ok,
    ensures
        only_entries_are_out(input, command, r->Ok_0@, after),
{
    let root = jsonc::jsonc_parsed(input)->Ok_0;
    let before = jsonc::jsonc_tree(root);
    let after = hook_config::edited_root(root, command, true);
    let now = jsonc::jsonc_tree(after);
    let hooks = before.child("hooks"@);
    let left = now.child("hooks"@);
    let n = hook_config::events().len();
    if before.has("hooks"@) {
        let done = hook_config::edited_events(hooks, command, true, n)->Ok_0;
        hook_laws::lemma_events(hooks, command, true, n, ""@);
        lemma_order(hooks, command, true, n);
        tree::lemma_position(before->Object_0, "hooks"@);
        jsonc::lemma_with(before, "hooks"@, done, "hooks"@);
        assert forall|key: Seq<char>| #[trigger] now.has(key) == before.has(key) by {
            jsonc::lemma_with(before, "hooks"@, done, key);
        }
        assert forall|key: Seq<char>| key != "hooks"@ implies #[trigger] now.child(key)
            == before.child(key) by {
            jsonc::lemma_with(before, "hooks"@, done, key);
        }
        assert forall|key: Seq<char>| #[trigger] left.has(key) == hooks.has(key) by {
            hook_laws::lemma_events(hooks, command, true, n, key);
        }
        assert forall|key: Seq<char>| !names_event(key) implies #[trigger] left.child(key)
            == hooks.child(key) by {
            hook_laws::lemma_events(hooks, command, true, n, key);
            lemma_events_are_named(key);
        }
        assert forall|key: Seq<char>| names_event(key) && hooks.has(key) implies hooks.child(
            key,
        ) is List && #[trigger] left.child(key) == jsonc::Jsonc::List(
            hooks.child(key)->List_0.filter(
                |e: Option<json::JsonTree>| e != Some(entry(command)),
            ),
        ) by {
            hook_laws::lemma_events(hooks, command, true, n, key);
            lemma_events_are_named(key);
            lemma_list(hooks.child(key)->List_0, command);
        }
    }
    after
}

/// Adding the hooks gives each of the four events the entry that runs `command`, behind the elements that
/// it had, unless that very entry is among them; those stay as they are. Every other member, of the hooks
/// and of the whole, is what it was.
pub proof fn law_adding_hooks(input: Seq<char>, command: Seq<char>, r: Result<String, HooksError>)
    -> (after: CstRootNode)
    requires
        hook_config::hooks_result(input, command, false, r),
        r is Ok,
    ensures
        jsonc::jsonc_parsed(input) is Ok,
        r->Ok_0@ == jsonc::jsonc_text(after),
        ({
            let before = jsonc::jsonc_tree(jsonc::jsonc_parsed(input)->Ok_0);
            let now = jsonc::jsonc_tree(after);
            let hooks = before.child("hooks"@);
            let left = now.child("hooks"@);
            let one = Some(entry(command));
            &&& now.has("hooks"@)
            &&& keeps_order(before, now) && keeps_order(hooks, left)
            &&& forall|key: Seq<char>|
                key != "hooks"@ ==> #[trigger] now.has(key) == before.has(key)
            &&& forall|key: Seq<char>|
                key != "hooks"@ ==> #[trigger] now.child(key) == before.child(key)
            &&& forall|key: Seq<char>|
                #[trigger] left.has(key) == (names_event(key) || hooks.has(key))
            &&& forall|key: Seq<char>|
                !names_event(key) ==> #[trigger] left.child(key) == hooks.child(key)
            &&& forall|key: Seq<char>|
                names_event(key) && !hooks.has(key) ==> #[trigger] left.child(key)
                    == jsonc::Jsonc::List(seq![one])
            &&& forall|key: Seq<char>|
                names_event(key) && hooks.has(key) ==> hooks.child(key) is List
                    && #[trigger] left.child(key) == jsonc::Jsonc::List(
                    if hooks.child(key)->List_0.contains(one) {
                        hooks.child(key)->List_0
                    } else {
                        hooks.child(key)->List_0.push(one)
                    },
                )
        }),
{
    let root = jsonc::jsonc_parsed(input)->Ok_0;
    let before = jsonc::jsonc_tree(root);
    let after = hook_config::edited_root(root, command, false);
    let now = jsonc::jsonc_tree(after);
    let hooks = before.child("hooks"@);
    let left = now.child("hooks"@);
    let n = hook_config::events().len();
    let start = if before.has("hooks"@) {
        hooks
    } else {
        jsonc::Jsonc::Object(Seq::empty())
    };
    let one = Some(entry(command));
    let done = hook_config::edited_events(start, command, false, n)->Ok_0;
    hook_laws::lemma_events(start, command, false, n, ""@);
    lemma_order(start, command, false, n);
    tree::lemma_position(before->Object_0, "hooks"@);
    jsonc::lemma_with(before, "hooks"@, done, "hooks"@);
    assert(left == done);
    law_only_the_whole_entry_counts(None, command);
    assert forall|key: Seq<char>| key != "hooks"@ implies #[trigger] now.has(key) == before.has(
        key,
    ) by {
        jsonc::lemma_with(before, "hooks"@, done, key);
    }
    assert forall|key: Seq<char>| key != "hooks"@ implies #[trigger] now.child(key)
        == before.child(key) by {
        jsonc::lemma_with(before, "hooks"@, done, key);
    }
    assert forall|key: Seq<char>|
        #[trigger] left.has(key) == (names_event(key) || hooks.has(key)) by {
        hook_laws::lemma_events(start, command, false, n, key);
        lemma_events_are_named(key);
    }
    assert forall|key: Seq<char>| !names_event(key) implies #[trigger] left.child(key)
        == hooks.child(key) by {
        hook_laws::lemma_events(start, command, false, n, key);
        lemma_events_are_named(key);
    }
    assert forall|key: Seq<char>| names_event(key) && !hooks.has(key) implies #[trigger] left.child(
        key,
    ) == jsonc::Jsonc::List(seq![one]) by {
        hook_laws::lemma_events(start, command, false, n, key);
        lemma_events_are_named(key);
    }
    assert forall|key: Seq<char>| names_event(key) && hooks.has(key) implies hooks.child(
        key,
    ) is List && #[trigger] left.child(key) == jsonc::Jsonc::List(
        if hooks.child(key)->List_0.contains(one) {
            hooks.child(key)->List_0
        } else {
            hooks.child(key)->List_0.push(one)
        },
    ) by {
        hook_laws::lemma_events(start, command, false, n, key);
        lemma_events_are_named(key);
        lemma_list(hooks.child(key)->List_0, command);
    }
    after
}

/// A configuration in which there is nothing to do comes back as the same text: for adding, one in which
/// each of the four events has an array with the entry in it; for taking out, one in which none of them
/// has, or without hooks.
pub proof fn law_settled_hooks_come_back(input: Seq<char>, command: Seq<char>, remove: bool)
    requires
        jsonc::jsonc_parsed(input) is Ok,
        ({
            let config = jsonc::jsonc_tree(jsonc::jsonc_parsed(input)->Ok_0);
            let hooks = config.child("hooks"@);
            &&& config is Object
            &&& config.has("hooks"@) ==> hooks is Object
            &&& !remove ==> config.has("hooks"@)
            &&& forall|key: Seq<char>|
                names_event(key) && !remove ==> #[trigger] hooks.child(key) is List
                    && hooks.child(key)->List_0.contains(Some(entry(command)))
            &&& forall|key: Seq<char>|
                names_event(key) && remove && hooks.has(key) ==> #[trigger] hooks.child(key) is List
                    && !hooks.child(key)->List_0.contains(Some(entry(command)))
        }),
    ensures
        hook_config::nothing_to_do(input, command, remove),
{
    let config = jsonc::jsonc_tree(jsonc::jsonc_parsed(input)->Ok_0);
    let hooks = config.child("hooks"@);
    if config.has("hooks"@) {
        assert forall|i: int| 0 <= i < hook_config::events().len() implies {
            let event = #[trigger] hook_config::events()[i];
            &&& hooks.has(event) || remove
            &&& hooks.has(event) ==> hooks.child(event) is List && hook_config::has_hook(
                hooks.child(event)->List_0,
                command,
            ) == !remove
        } by {
            let event = hook_config::events()[i];
            assert(names_event(event));
            if !remove {
                assert(hooks.child(event) is List);
            }
            if hooks.has(event) {
                let list = hooks.child(event)->List_0;
                assert(hooks.child(event) is List);
                if hook_config::has_hook(list, command) {
                    let k = choose|k: int|
                        0 <= k < list.len() && hook_config::is_hook(#[trigger] list[k], command);
                    law_only_the_whole_entry_counts(list[k], command);
                    assert(list.contains(list[k]));
                }
                if list.contains(Some(entry(command))) {
                    let k = choose|k: int| 0 <= k < list.len() && list[k] == Some(entry(command));
                    law_only_the_whole_entry_counts(list[k], command);
                    assert(hook_config::is_hook(list[k], command));
                }
            }
        }
    }
}

} // verus!
