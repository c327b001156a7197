//! What holds of every edit of the agent's hook configuration.
use vstd::prelude::*;

use crate::hook_config;
use crate::hook_config::HooksFault;
use crate::json;
use crate::jsonc;
use crate::tree;

verus! {

// ---------------------------------------------------------------------------
// The entries of one event
// ---------------------------------------------------------------------------

/// The entry that is added is the entry that is looked for.
pub proof fn law_hook_is_found(command: Seq<char>)
    ensures
        hook_config::is_hook(Some(hook_config::hook_tree(command)), command),
{
    json::lemma_same_self(hook_config::hook_tree(command));
}

/// What taking out leaves holds no such entry.
proof fn lemma_none_left(list: Seq<Option<json::JsonTree>>, command: Seq<char>)
    ensures
        !hook_config::has_hook(hook_config::edited_list(list, command, true), command),
    decreases list.len(),
{
    reveal(Seq::filter);
    if list.len() > 0 {
        let front = hook_config::edited_list(list.drop_last(), command, true);
        let rest = hook_config::edited_list(list, command, true);
        lemma_none_left(list.drop_last(), command);
        assert forall|i: int| 0 <= i < rest.len() implies !hook_config::is_hook(
            #[trigger] rest[i],
            command,
        ) by {
            if i < front.len() {
                assert(rest[i] == front[i]);
            }
        }
    }
}

/// Two edits of the entries of one event.
proof fn lemma_list_twice(list: Seq<Option<json::JsonTree>>, command: Seq<char>, remove: bool)
    ensures
        hook_config::edited_list(
            hook_config::edited_list(list, command, remove),
            command,
            remove,
        ) == hook_config::edited_list(list, command, remove),
        !remove ==> hook_config::has_hook(
            hook_config::edited_list(list, command, remove),
            command,
        ),
        !remove && !hook_config::has_hook(list, command) ==> hook_config::edited_list(
            hook_config::edited_list(list, command, remove),
            command,
            true,
        ) == list,
{
    let once = hook_config::edited_list(list, command, remove);
    if remove {
        lemma_none_left(list, command);
        hook_config::lemma_all_kept(once, command);
    } else {
        law_hook_is_found(command);
        if !hook_config::has_hook(list, command) {
            assert(hook_config::is_hook(once[list.len() as int], command));
            reveal(Seq::filter);
            assert(once.drop_last() =~= list);
            hook_config::lemma_all_kept(list, command);
        }
    }
}

// ---------------------------------------------------------------------------
// The events
// ---------------------------------------------------------------------------

/// The events differ.
pub proof fn lemma_events_differ(i: int, j: int)
    requires
        0 <= i < hook_config::events().len(),
        0 <= j < hook_config::events().len(),
        i != j,
    ensures
        hook_config::events()[i] != hook_config::events()[j],
{
    reveal_strlit("SessionStart");
    reveal_strlit("PostCompaction");
    reveal_strlit("PostToolUse");
    reveal_strlit("UserPromptSubmit");
    let s = hook_config::events();
    assert(s[0].len() == 12 && s[1].len() == 14 && s[2].len() == 11 && s[3].len() == 16);
}

/// Whether `key` is one of the first `n` events.
pub open spec fn is_event(key: Seq<char>, n: nat) -> bool {
    exists|i: int|
        0 <= i < n && i < hook_config::events().len() && #[trigger] hook_config::events()[i] == key
}

/// What an edit of the first `n` events does to the hooks called `key`.
pub proof fn lemma_events(
    hooks: jsonc::Jsonc,
    command: Seq<char>,
    remove: bool,
    n: nat,
    key: Seq<char>,
)
    requires
        hooks is Object,
        n <= hook_config::events().len(),
        hook_config::edited_events(hooks, command, remove, n) is Ok,
    ensures
        ({
            let done = hook_config::edited_events(hooks, command, remove, n)->Ok_0;
            &&& done is Object
            &&& !is_event(key, n) ==> done.has(key) == hooks.has(key) && done.child(key)
                == hooks.child(key)
            &&& is_event(key, n) && hooks.has(key) ==> hooks.child(key) is List && done.has(key)
                && done.child(key) == jsonc::Jsonc::List(
                hook_config::edited_list(hooks.child(key)->List_0, command, remove),
            )
            &&& is_event(key, n) && !hooks.has(key) ==> done.has(key) == !remove && (!remove
                ==> done.child(key) == jsonc::Jsonc::List(
                seq![Some(hook_config::hook_tree(command))],
            ))
        }),
    decreases n,
{
    if n > 0 {
        let m = (n - 1) as nat;
        let event = hook_config::events()[n - 1];
        let before = hook_config::edited_events(hooks, command, remove, m)->Ok_0;
        lemma_events(hooks, command, remove, m, key);
        lemma_events(hooks, command, remove, m, event);
        if is_event(event, m) {
            let i = choose|i: int|
                0 <= i < m && i < hook_config::events().len()
                    && #[trigger] hook_config::events()[i] == event;
            lemma_events_differ(i, n - 1);
        }
        if is_event(key, n) && !is_event(key, m) {
            let i = choose|i: int|
                0 <= i < n && i < hook_config::events().len()
                    && #[trigger] hook_config::events()[i] == key;
            assert(i == n - 1);
        }
        if is_event(key, m) {
            let i = choose|i: int|
                0 <= i < m && i < hook_config::events().len()
                    && #[trigger] hook_config::events()[i] == key;
            assert(is_event(key, n));
            lemma_events_differ(i, n - 1);
        }
        if key == event {
            assert(is_event(key, n));
        }
        let edited = hook_config::edited_list(before.child(event)->List_0, command, remove);
        jsonc::lemma_with(before, event, jsonc::Jsonc::List(edited), key);
        jsonc::lemma_with(
            before,
            event,
            jsonc::Jsonc::List(seq![Some(hook_config::hook_tree(command))]),
            key,
        );
    }
}

/// Hooks that an edit would not change stay as they are, event by event.
proof fn lemma_settled(hooks: jsonc::Jsonc, command: Seq<char>, remove: bool, n: nat)
    requires
        hooks is Object,
        n <= hook_config::events().len(),
        forall|i: int|
            0 <= i < n ==> {
                let key = #[trigger] hook_config::events()[i];
                &&& hooks.has(key) || remove
                &&& hooks.has(key) ==> hooks.child(key) is List && hook_config::edited_list(
                    hooks.child(key)->List_0,
                    command,
                    remove,
                ) == hooks.child(key)->List_0
            },
    ensures
        hook_config::edited_events(hooks, command, remove, n) == Ok::<jsonc::Jsonc, HooksFault>(
            hooks,
        ),
    decreases n,
{
    if n > 0 {
        lemma_settled(hooks, command, remove, (n - 1) as nat);
        let key = hook_config::events()[n - 1];
        jsonc::lemma_with(hooks, key, hooks, key);
    }
}

/// Editing the hooks a second time changes nothing.
proof fn lemma_events_twice(hooks: jsonc::Jsonc, command: Seq<char>, remove: bool)
    requires
        hooks is Object,
        hook_config::edited_events(hooks, command, remove, hook_config::events().len()) is Ok,
    ensures
        ({
            let n = hook_config::events().len();
            let done = hook_config::edited_events(hooks, command, remove, n)->Ok_0;
            &&& done is Object
            &&& hook_config::edited_events(done, command, remove, n) == Ok::<
                jsonc::Jsonc,
                HooksFault,
            >(done)
        }),
{
    let n = hook_config::events().len();
    let done = hook_config::edited_events(hooks, command, remove, n)->Ok_0;
    assert forall|i: int| 0 <= i < n implies {
        let key = #[trigger] hook_config::events()[i];
        &&& done.has(key) || remove
        &&& done.has(key) ==> done.child(key) is List && hook_config::edited_list(
            done.child(key)->List_0,
            command,
            remove,
        ) == done.child(key)->List_0
    } by {
        let key = hook_config::events()[i];
        assert(is_event(key, n));
        lemma_events(hooks, command, remove, n, key);
        lemma_list_twice(hooks.child(key)->List_0, command, remove);
        let none = Seq::<Option<json::JsonTree>>::empty();
        lemma_list_twice(none, command, false);
        assert(none.push(Some(hook_config::hook_tree(command))) =~= seq![
            Some(hook_config::hook_tree(command)),
        ]);
    }
    lemma_events(hooks, command, remove, n, ""@);
    lemma_settled(done, command, remove, n);
}

/// Editing a configuration a second time, in the same way, changes nothing.
pub proof fn law_hook_edit_is_idempotent(config: jsonc::Jsonc, command: Seq<char>, remove: bool)
    requires
        hook_config::edited_tree(config, command, remove) is Ok,
    ensures
        ({
            let once = hook_config::edited_tree(config, command, remove)->Ok_0;
            hook_config::edited_tree(once, command, remove) == Ok::<jsonc::Jsonc, HooksFault>(once)
        }),
{
    let n = hook_config::events().len();
    let none = jsonc::Jsonc::Object(Seq::empty());
    if config.has("hooks"@) {
        let hooks = config.child("hooks"@);
        let done = hook_config::edited_events(hooks, command, remove, n)->Ok_0;
        lemma_events_twice(hooks, command, remove);
        jsonc::lemma_with(config, "hooks"@, done, "hooks"@);
        jsonc::lemma_with_twice(config, "hooks"@, done, done);
    } else if !remove {
        let done = hook_config::edited_events(none, command, remove, n)->Ok_0;
        lemma_events_twice(none, command, remove);
        jsonc::lemma_with(config, "hooks"@, done, "hooks"@);
        jsonc::lemma_with_twice(config, "hooks"@, done, done);
    }
}

/// Whether every event of the hooks has a list without the entry that runs `command`.
pub open spec fn without_hook(hooks: jsonc::Jsonc, command: Seq<char>) -> bool {
    forall|i: int|
        0 <= i < hook_config::events().len() ==> {
            let key = #[trigger] hook_config::events()[i];
            &&& hooks.has(key)
            &&& hooks.child(key) is List
            &&& !hook_config::has_hook(hooks.child(key)->List_0, command)
        }
}

/// Taking the entries out of the first `n` events, to which they were added, leaves them added to
/// the others.
proof fn lemma_undone(hooks: jsonc::Jsonc, command: Seq<char>, n: nat)
    requires
        hooks is Object,
        without_hook(hooks, command),
        n <= hook_config::events().len(),
    ensures
        ({
            let all = hook_config::events().len();
            &&& hook_config::edited_events(hooks, command, false, all) is Ok
            &&& hook_config::edited_events(
                hook_config::edited_events(hooks, command, false, all)->Ok_0,
                command,
                true,
                n,
            ) is Ok
            &&& same_but(
                hooks,
                hook_config::edited_events(
                    hook_config::edited_events(hooks, command, false, all)->Ok_0,
                    command,
                    true,
                    n,
                )->Ok_0,
                command,
                n,
            )
        }),
    decreases n,
{
    let all = hook_config::events().len();
    if n == 0 {
        lemma_added(hooks, command, all);
    } else {
        let m = (n - 1) as nat;
        let key = hook_config::events()[n - 1];
        lemma_undone(hooks, command, m);
        let added = hook_config::edited_events(hooks, command, false, all)->Ok_0;
        let before = hook_config::edited_events(added, command, true, m)->Ok_0;
        let s = hooks->Object_0;
        let t = before->Object_0;
        let p = tree::position(s, key);
        tree::lemma_position(s, key);
        assert forall|i: int| 0 <= i < p implies (#[trigger] t[i]).0 != key by {
            assert(s[i].0 != key);
        }
        tree::lemma_position_is(t, key, p);
        assert(pending(s, p, m)) by {
            assert(m <= n - 1 < all && tree::position(s, hook_config::events()[n - 1]) == p);
        }
        assert(hooks.has(key));
        lemma_list_twice(s[p].1->List_0, command, false);
        let after = hook_config::edited_events(added, command, true, n)->Ok_0->Object_0;
        assert forall|j: int| 0 <= j < s.len() implies (#[trigger] after[j]).0 == s[j].0
            && after[j].1 == (if pending(s, j, n) {
            jsonc::Jsonc::List(hook_config::edited_list(s[j].1->List_0, command, false))
        } else {
            s[j].1
        }) by {
            assert(t[j].0 == s[j].0);
            if j == p {
                if pending(s, j, n) {
                    let i = choose|i: int|
                        n <= i < all && tree::position(s, #[trigger] hook_config::events()[i]) == j;
                    tree::lemma_position(s, hook_config::events()[i]);
                    lemma_events_differ(i, n - 1);
                    assert(hooks.has(hook_config::events()[i]));
                }
            } else {
                if pending(s, j, m) {
                    let i = choose|i: int|
                        m <= i < all && tree::position(s, #[trigger] hook_config::events()[i]) == j;
                    assert(i != n - 1);
                    assert(pending(s, j, n));
                }
                if pending(s, j, n) {
                    let i = choose|i: int|
                        n <= i < all && tree::position(s, #[trigger] hook_config::events()[i]) == j;
                    assert(m <= i);
                    assert(pending(s, j, m));
                }
            }
        }
    }
}

/// Whether the member at `j` is that of an event after the first `n`.
pub open spec fn pending(s: Seq<(Seq<char>, jsonc::Jsonc)>, j: int, n: nat) -> bool {
    exists|i: int|
        n <= i < hook_config::events().len() && tree::position(
            s,
            #[trigger] hook_config::events()[i],
        ) == j
}

/// Whether `b` is `a` but for the entries added to the events after the first `n`.
pub open spec fn same_but(a: jsonc::Jsonc, b: jsonc::Jsonc, command: Seq<char>, n: nat) -> bool {
    &&& b is Object
    &&& b->Object_0.len() == a->Object_0.len()
    &&& forall|j: int|
        0 <= j < a->Object_0.len() ==> (#[trigger] b->Object_0[j]).0 == a->Object_0[j].0
            && b->Object_0[j].1 == (if pending(a->Object_0, j, n) {
            jsonc::Jsonc::List(hook_config::edited_list(a->Object_0[j].1->List_0, command, false))
        } else {
            a->Object_0[j].1
        })
}

/// Whether the member at `j` is that of one of the first `n` events.
pub open spec fn reached(s: Seq<(Seq<char>, jsonc::Jsonc)>, j: int, n: nat) -> bool {
    exists|i: int|
        0 <= i < n && i < hook_config::events().len() && tree::position(
            s,
            #[trigger] hook_config::events()[i],
        ) == j
}

/// What adding to the first `n` events, which all have lists, gives.
proof fn lemma_added(hooks: jsonc::Jsonc, command: Seq<char>, n: nat)
    requires
        hooks is Object,
        without_hook(hooks, command),
        n <= hook_config::events().len(),
    ensures
        hook_config::edited_events(hooks, command, false, n) is Ok,
        ({
            let s = hooks->Object_0;
            let done = hook_config::edited_events(hooks, command, false, n)->Ok_0;
            &&& done is Object
            &&& done->Object_0.len() == s.len()
            &&& forall|j: int|
                0 <= j < s.len() ==> (#[trigger] done->Object_0[j]).0 == s[j].0
                    && done->Object_0[j].1 == (if reached(s, j, n) {
                    jsonc::Jsonc::List(
                        hook_config::edited_list(s[j].1->List_0, command, false),
                    )
                } else {
                    s[j].1
                })
        }),
        n == hook_config::events().len() ==> same_but(
            hooks,
            hook_config::edited_events(hooks, command, false, n)->Ok_0,
            command,
            0,
        ),
    decreases n,
{
    let s = hooks->Object_0;
    if n > 0 {
        let m = (n - 1) as nat;
        let key = hook_config::events()[n - 1];
        lemma_added(hooks, command, m);
        let before = hook_config::edited_events(hooks, command, false, m)->Ok_0;
        let t = before->Object_0;
        let p = tree::position(s, key);
        tree::lemma_position(s, key);
        assert(hooks.has(key));
        assert forall|i: int| 0 <= i < p implies (#[trigger] t[i]).0 != key by {
            assert(s[i].0 != key);
        }
        assert(t[p].0 == s[p].0);
        tree::lemma_position_is(t, key, p);
        if reached(s, p, m) {
            let i = choose|i: int|
                0 <= i < m && i < hook_config::events().len() && tree::position(
                    s,
                    #[trigger] hook_config::events()[i],
                ) == p;
            tree::lemma_position(s, hook_config::events()[i]);
            lemma_events_differ(i, n - 1);
            assert(hooks.has(hook_config::events()[i]));
        }
        let after = hook_config::edited_events(hooks, command, false, n)->Ok_0->Object_0;
        assert forall|j: int| 0 <= j < s.len() implies (#[trigger] after[j]).0 == s[j].0
            && after[j].1 == (if reached(s, j, n) {
            jsonc::Jsonc::List(hook_config::edited_list(s[j].1->List_0, command, false))
        } else {
            s[j].1
        }) by {
            assert(t[j].0 == s[j].0);
            if j == p {
                assert(tree::position(s, hook_config::events()[n - 1]) == p);
                assert(reached(s, j, n));
            } else {
                if reached(s, j, n) {
                    let i = choose|i: int|
                        0 <= i < n && i < hook_config::events().len() && tree::position(
                            s,
                            #[trigger] hook_config::events()[i],
                        ) == j;
                    assert(i < m);
                    assert(reached(s, j, m));
                }
                if reached(s, j, m) {
                    let i = choose|i: int|
                        0 <= i < m && i < hook_config::events().len() && tree::position(
                            s,
                            #[trigger] hook_config::events()[i],
                        ) == j;
                    assert(reached(s, j, n));
                }
            }
        }
    }
    if n == hook_config::events().len() {
        let done = hook_config::edited_events(hooks, command, false, n)->Ok_0;
        assert forall|j: int| 0 <= j < s.len() implies (#[trigger] done->Object_0[j]).0 == s[j].0
            && done->Object_0[j].1 == (if pending(s, j, 0) {
            jsonc::Jsonc::List(hook_config::edited_list(s[j].1->List_0, command, false))
        } else {
            s[j].1
        }) by {
            if reached(s, j, n) {
                let i = choose|i: int|
                    0 <= i < n && i < hook_config::events().len() && tree::position(
                        s,
                        #[trigger] hook_config::events()[i],
                    ) == j;
                assert(pending(s, j, 0));
            }
        }
    }
}

/// Taking the entries out undoes adding them, where every event had a list without such an entry.
pub proof fn law_remove_undoes_add_of_hooks(config: jsonc::Jsonc, command: Seq<char>)
    requires
        config.has("hooks"@),
        config.child("hooks"@) is Object,
        without_hook(config.child("hooks"@), command),
    ensures
        hook_config::edited_tree(config, command, false) is Ok,
        hook_config::edited_tree(
            hook_config::edited_tree(config, command, false)->Ok_0,
            command,
            true,
        ) == Ok::<jsonc::Jsonc, HooksFault>(config),
{
    let n = hook_config::events().len();
    let hooks = config.child("hooks"@);
    lemma_undone(hooks, command, n);
    let added = hook_config::edited_events(hooks, command, false, n)->Ok_0;
    let back = hook_config::edited_events(added, command, true, n)->Ok_0;
    assert forall|j: int| 0 <= j < hooks->Object_0.len() implies back->Object_0[j]
        == hooks->Object_0[j] by {
        assert(!pending(hooks->Object_0, j, n));
        assert(back->Object_0[j].0 == hooks->Object_0[j].0);
    }
    assert(back->Object_0 =~= hooks->Object_0);
    lemma_added(hooks, command, n);
    jsonc::lemma_with(config, "hooks"@, added, "hooks"@);
    jsonc::lemma_with_twice(config, "hooks"@, added, hooks);
}

/// An edit leaves alone every member of the configuration but the hooks, and every member of the
/// hooks but the events.
pub proof fn law_hook_edit_is_local(
    config: jsonc::Jsonc,
    command: Seq<char>,
    remove: bool,
    key: Seq<char>,
)
    requires
        hook_config::edited_tree(config, command, remove) is Ok,
    ensures
        ({
            let after = hook_config::edited_tree(config, command, remove)->Ok_0;
            &&& key != "hooks"@ ==> after.has(key) == config.has(key) && after.child(key)
                == config.child(key)
            &&& !is_event(key, hook_config::events().len()) ==> after.child("hooks"@).has(key)
                == config.child("hooks"@).has(key) && after.child("hooks"@).child(key)
                == config.child("hooks"@).child(key)
        }),
{
    let n = hook_config::events().len();
    let none = jsonc::Jsonc::Object(Seq::empty());
    if config.has("hooks"@) {
        let hooks = config.child("hooks"@);
        let done = hook_config::edited_events(hooks, command, remove, n)->Ok_0;
        lemma_events(hooks, command, remove, n, key);
        jsonc::lemma_with(config, "hooks"@, done, key);
    } else if !remove {
        let done = hook_config::edited_events(none, command, remove, n)->Ok_0;
        lemma_events(none, command, remove, n, key);
        jsonc::lemma_with(config, "hooks"@, done, key);
    }
}

/// Every entry that is not the one that runs `command` stays, in its order; that one is there after
/// adding, and is not after taking out.
pub proof fn law_other_hooks_stay(
    config: jsonc::Jsonc,
    command: Seq<char>,
    remove: bool,
    event: Seq<char>,
)
    requires
        hook_config::edited_tree(config, command, remove) is Ok,
        is_event(event, hook_config::events().len()),
    ensures
        ({
            let others = |element: Option<json::JsonTree>| !hook_config::is_hook(element, command);
            let before = config.child("hooks"@).child(event);
            let after = hook_config::edited_tree(config, command, remove)->Ok_0.child(
                "hooks"@,
            ).child(event);
            &&& config.child("hooks"@).has(event) ==> before is List && after is List
                && after->List_0.filter(others) == before->List_0.filter(others)
            &&& !remove ==> after is List && hook_config::has_hook(after->List_0, command)
            &&& after is List && remove ==> !hook_config::has_hook(after->List_0, command)
        }),
{
    let n = hook_config::events().len();
    let none = jsonc::Jsonc::Object(Seq::empty());
    let others = |element: Option<json::JsonTree>| !hook_config::is_hook(element, command);
    let hooks = if config.has("hooks"@) {
        config.child("hooks"@)
    } else {
        none
    };
    law_hook_is_found(command);
    if config.has("hooks"@) || !remove {
        let done = hook_config::edited_events(hooks, command, remove, n)->Ok_0;
        lemma_events(hooks, command, remove, n, event);
        jsonc::lemma_with(config, "hooks"@, done, "hooks"@);
        let list = hooks.child(event)->List_0;
        lemma_list_twice(list, command, remove);
        lemma_none_left(list, command);
        lemma_list_twice(list, command, true);
        let one = seq![Some(hook_config::hook_tree(command))];
        assert(hook_config::is_hook(one[0], command));
        if !remove && !hook_config::has_hook(list, command) {
            reveal(Seq::filter);
            let more = list.push(Some(hook_config::hook_tree(command)));
            assert(more.drop_last() =~= list);
        }
    }
}

/// After an edit there is nothing left to do: a configuration that holds what an edit made comes back
/// as the same text when it is edited so again.
pub proof fn law_edited_hooks_are_settled(config: jsonc::Jsonc, command: Seq<char>, remove: bool)
    requires
        hook_config::edited_tree(config, command, remove) is Ok,
    ensures
        ({
            let after = hook_config::edited_tree(config, command, remove)->Ok_0;
            &&& after is Object
            &&& after.has("hooks"@) || remove
            &&& after.has("hooks"@) ==> after.child("hooks"@) is Object && hook_config::settled(
                after.child("hooks"@),
                command,
                remove,
                hook_config::events().len(),
            )
        }),
{
    let n = hook_config::events().len();
    let none = jsonc::Jsonc::Object(Seq::empty());
    let hooks = if config.has("hooks"@) {
        config.child("hooks"@)
    } else {
        none
    };
    if config.has("hooks"@) || !remove {
        let done = hook_config::edited_events(hooks, command, remove, n)->Ok_0;
        jsonc::lemma_with(config, "hooks"@, done, "hooks"@);
        lemma_events(hooks, command, remove, n, ""@);
        law_hook_is_found(command);
        assert forall|i: int| 0 <= i < n && i < hook_config::events().len() implies {
            let event = #[trigger] hook_config::events()[i];
            &&& done.has(event) || remove
            &&& done.has(event) ==> done.child(event) is List && hook_config::has_hook(
                done.child(event)->List_0,
                command,
            ) == !remove
        } by {
            let event = hook_config::events()[i];
            assert(is_event(event, n));
            lemma_events(hooks, command, remove, n, event);
            lemma_list_twice(hooks.child(event)->List_0, command, remove);
            lemma_none_left(hooks.child(event)->List_0, command);
            let one = seq![Some(hook_config::hook_tree(command))];
            assert(hook_config::is_hook(one[0], command));
        }
    }
}

/// Editing twice is editing once, on texts: where the text `edited` is read back as what an edit made of
/// a configuration, it comes back as it is when it is edited so again.
pub proof fn law_edited_hook_text_comes_back(
    config: jsonc::Jsonc,
    command: Seq<char>,
    remove: bool,
    edited: Seq<char>,
)
    requires
        hook_config::edited_tree(config, command, remove) is Ok,
        jsonc::jsonc_parsed(edited) is Ok,
        jsonc::jsonc_tree(jsonc::jsonc_parsed(edited)->Ok_0) == hook_config::edited_tree(
            config,
            command,
            remove,
        )->Ok_0,
    ensures
        hook_config::nothing_to_do(edited, command, remove),
{
    law_edited_hooks_are_settled(config, command, remove);
}

/// Adding gives each event its own entries, or none where it had none, and the entry that runs `command`
/// at their end unless that was among them.
pub proof fn law_each_event_gets_its_entry(
    config: jsonc::Jsonc,
    command: Seq<char>,
    event: Seq<char>,
)
    requires
        hook_config::edited_tree(config, command, false) is Ok,
        is_event(event, hook_config::events().len()),
    ensures
        ({
            let hooks = config.child("hooks"@);
            let before = if hooks.has(event) {
                hooks.child(event)->List_0
            } else {
                Seq::empty()
            };
            let after = hook_config::edited_tree(config, command, false)->Ok_0.child("hooks"@).child(
                event,
            );
            after == jsonc::Jsonc::List(
                if hook_config::has_hook(before, command) {
                    before
                } else {
                    before.push(Some(hook_config::hook_tree(command)))
                },
            )
        }),
{
    let n = hook_config::events().len();
    let none = jsonc::Jsonc::Object(Seq::empty());
    let hooks = if config.has("hooks"@) {
        config.child("hooks"@)
    } else {
        none
    };
    let done = hook_config::edited_events(hooks, command, false, n)->Ok_0;
    lemma_events(hooks, command, false, n, event);
    jsonc::lemma_with(config, "hooks"@, done, "hooks"@);
    let empty = Seq::<Option<json::JsonTree>>::empty();
    assert(empty.push(Some(hook_config::hook_tree(command))) =~= seq![
        Some(hook_config::hook_tree(command)),
    ]);
}

} // verus!
