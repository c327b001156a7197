//! What holds of every task and every binding.
use vstd::prelude::*;

use crate::display;
use crate::number;
use crate::state;
use crate::state::StateError;
use crate::text;

verus! {

// ---------------------------------------------------------------------------
// Generations of tasks
// ---------------------------------------------------------------------------

/// An identifier is never the word for no task.
pub proof fn law_id_is_not_none(id: Seq<char>)
    requires
        state::is_id(id),
    ensures
        id != "none"@,
{
    reveal_strlit("none");
}

/// Of two requests that expect the same task, only the first begins one: the second expects a task
/// that is no longer there, unless the new identifier is the old one.
pub proof fn law_second_begin_conflicts(
    s: state::SlotView,
    expected: Seq<char>,
    title: Seq<char>,
    id: Seq<char>,
    second: Seq<char>,
)
    requires
        state::begin_fault(s, expected, title) is None,
        id != expected,
    ensures
        state::begin_fault(state::begun(s, title, id), expected, second) == Some(
            StateError::Conflict,
        ),
{
}

/// A request for a first task comes too late once there was one, even when that is cleared.
pub proof fn law_delayed_first_begin_conflicts(
    s: state::SlotView,
    title: Seq<char>,
    id: Seq<char>,
    second: Seq<char>,
)
    requires
        state::is_id(id),
    ensures
        state::begin_fault(state::begun(s, title, id), "none"@, second) == Some(
            StateError::Conflict,
        ),
        state::begin_fault(state::cleared(state::begun(s, title, id)), "none"@, second) == Some(
            StateError::Conflict,
        ),
{
    law_id_is_not_none(id);
}

/// A cleared task takes no report and cannot be cleared again, but the next task must still name it.
pub proof fn law_cleared_task_stays_named(
    s: state::SlotView,
    percent: Option<u8>,
    activity: Seq<char>,
    title: Seq<char>,
)
    requires
        s.task is Some,
    ensures
        state::report_fault(state::cleared(s), s.task->0.id, percent, activity) is Some,
        !state::open_task(state::cleared(s).task, s.task->0.id),
        state::current(state::cleared(s).task) == s.task->0.id,
        state::begin_fault(state::cleared(s), s.task->0.id, title) == state::begin_fault(
            s,
            s.task->0.id,
            title,
        ),
{
}

/// Once a task has begun, nothing can be done under the name of the one before it.
pub proof fn law_old_task_is_obsolete(
    s: state::SlotView,
    title: Seq<char>,
    id: Seq<char>,
    old: Seq<char>,
    percent: Option<u8>,
    activity: Seq<char>,
    next: Seq<char>,
)
    requires
        old != id,
    ensures
        state::report_fault(state::begun(s, title, id), old, percent, activity) is Some,
        !state::open_task(state::begun(s, title, id).task, old),
        state::begin_fault(state::begun(s, title, id), old, next) == Some(StateError::Conflict),
{
}

/// A task that is done takes no more reports, and stays done.
pub proof fn law_done_task_takes_no_report(
    s: state::SlotView,
    activity: Seq<char>,
    at: i64,
    id: Seq<char>,
    percent: Option<u8>,
    more: Seq<char>,
)
    ensures
        state::report_fault(state::reported(s, Some(100u8), activity, at), id, percent, more)
            is Some,
        state::reported(s, Some(100u8), activity, at).task->0.activity == Some("Done"@),
{
}

/// A report changes nothing of a slot but how far its task has come, what is done and when that was
/// said; a task that begins changes nothing of a slot but its task.
pub proof fn law_requests_keep_the_binding(
    s: state::SlotView,
    title: Seq<char>,
    id: Seq<char>,
    percent: Option<u8>,
    activity: Seq<char>,
    at: i64,
)
    ensures
        ({
            let b = state::begun(s, title, id);
            let r = state::reported(s, percent, activity, at);
            &&& b == (state::SlotView { task: b.task, ..s })
            &&& r == (state::SlotView { task: r.task, ..s })
            &&& r.task->0.id == s.task->0.id
            &&& r.task->0.title == s.task->0.title
            &&& r.task->0.cleared == s.task->0.cleared
        }),
{
}

/// What is kept of a title or an activity fits its columns and holds nothing that may not stand on a
/// line.
pub proof fn law_stored_texts_fit(title: Seq<char>, activity: Seq<char>)
    ensures
        ({
            let t = display::cleaned(title, state::TITLE_COLUMNS as nat);
            let a = display::cleaned(activity, state::ACTIVITY_COLUMNS as nat);
            &&& display::width(t) <= state::TITLE_COLUMNS
            &&& display::width(a) <= state::ACTIVITY_COLUMNS
            &&& forall|i: int| 0 <= i < t.len() ==> display::shown(#[trigger] t[i])
            &&& forall|i: int| 0 <= i < a.len() ==> display::shown(#[trigger] a[i])
        }),
{
    display::law_line_fits(title, state::TITLE_COLUMNS as nat);
    display::law_line_fits(activity, state::ACTIVITY_COLUMNS as nat);
}

// ---------------------------------------------------------------------------
// What is shown
// ---------------------------------------------------------------------------

/// A report is shown until it has aged, and as stale from then on; that of a task that is done is
/// never stale.
pub proof fn law_report_ages(
    s: state::SlotView,
    percent: Option<u8>,
    activity: Seq<char>,
    at: i64,
    now: i64,
)
    requires
        s.task is Some,
        !s.task->0.cleared,
        !s.revoked,
    ensures
        ({
            let shown = state::token_texts(state::reported(s, percent, activity, at), now);
            &&& shown[0] is Some <==> percent is Some
            &&& percent == Some(100u8) ==> shown == seq![Some("100%"@), None, Some("Done"@)]
            &&& percent != Some(100u8) ==> (shown[1] == Some("stale"@) <==> now - at
                >= state::STALE_SECONDS)
            &&& percent != Some(100u8) ==> shown[2] == Some(
                display::cleaned(activity, state::ACTIVITY_COLUMNS as nat),
            )
        }),
{
    let shown = state::token_texts(state::reported(s, percent, activity, at), now);
    if percent == Some(100u8) {
        assert(shown =~= seq![Some("100%"@), None, Some("Done"@)]);
    }
}

/// Nothing is shown of a task before the first report, after it is cleared, or once the slot is
/// revoked; and there is then no summary.
pub proof fn law_nothing_is_shown(s: state::SlotView, title: Seq<char>, id: Seq<char>, now: i64)
    ensures
        state::token_texts(state::begun(s, title, id), now) == seq![
            None::<Seq<char>>,
            None,
            None,
        ],
        state::token_texts(state::cleared(s), now) == seq![None::<Seq<char>>, None, None],
        state::token_texts(state::SlotView { revoked: true, ..s }, now) == seq![
            None::<Seq<char>>,
            None,
            None,
        ],
        state::summary_text(seq![None::<Seq<char>>, None, None]) is None,
{
    let none = seq![None::<Seq<char>>, None, None];
    reveal_with_fuel(state::present, 4);
    assert(state::present(none) =~= Seq::<Seq<char>>::empty());
}

/// A summary fits its columns, however long the tokens are, and holds nothing that may not stand on a
/// line.
pub proof fn law_summary_fits(tokens: Seq<Option<Seq<char>>>)
    ensures
        match state::summary_text(tokens) {
            Some(s) => {
                &&& display::width(s) <= state::SUMMARY_COLUMNS
                &&& s.len() <= display::MAX_CHARS
                &&& forall|i: int| 0 <= i < s.len() ==> display::shown(#[trigger] s[i])
            },
            None => true,
        },
{
    display::law_line_fits(
        text::join(state::present(tokens), " · "@),
        state::SUMMARY_COLUMNS as nat,
    );
}

/// The digits of a small number are narrow, and there are no more than three.
proof fn lemma_percent(p: u8)
    ensures
        state::keeps(state::percent_text(p)),
        state::percent_text(p).len() <= 5,
{
    reveal_strlit("~");
    reveal_strlit("%");
    reveal_strlit("100%");
    if p != 100 {
        let n = p as nat;
        let d = number::decimal(p as int);
        assert(d.len() <= 3 && display::all_narrow(d)) by {
            reveal_with_fuel(number::numeral, 4);
            assert(n / 10 < 26 && n / 100 < 3 && n / 10 / 10 == n / 100);
            if n < 10 {
            } else if n < 100 {
                assert(n / 10 < 10);
            } else {
                assert(n / 10 / 10 < 10);
            }
        }
        let s = state::percent_text(p);
        assert(s.len() == d.len() + 2);
        assert(s[0] == '~' && s.last() == '%');
        assert forall|i: int| 0 <= i < s.len() implies display::narrow(#[trigger] s[i]) by {
            if 0 < i < s.len() - 1 {
                assert(s[i] == d[i - 1]);
            }
        }
    }
}

/// A line keeps the status of a slot in full, where there is one: however long the activity is, how
/// far the task has come and that this is stale stand at its start.
pub proof fn law_status_is_kept(s: state::SlotView, now: i64)
    ensures
        ({
            let shown = state::token_texts(s, now);
            shown[0] is Some || shown[1] is Some ==> state::keeps(state::status_text(shown))
        }),
{
    let shown = state::token_texts(s, now);
    let two = shown.take(2);
    let one = two.drop_last();
    reveal_strlit("stale");
    reveal_strlit(" · ");
    assert(one.drop_last() =~= Seq::empty());
    assert(state::present(one.drop_last()) =~= Seq::<Seq<char>>::empty());
    assert(one.last() == shown[0]);
    assert(two.last() == shown[1]);
    let word = "stale"@;
    assert(state::keeps(word));
    if shown[0] is Some {
        let p = s.task->0.percent->0;
        let a = state::percent_text(p);
        lemma_percent(p);
        assert(state::present(one) =~= seq![a]);
        if shown[1] is Some {
            let both = seq![a, word];
            assert(state::present(two) =~= both);
            assert(both.drop_last() =~= seq![a]);
            let t = a + " · "@ + word;
            reveal_with_fuel(text::join, 2);
            assert(text::join(both, " · "@) =~= t);
            assert(t[0] == a[0]);
            assert(t.last() == word.last());
            assert forall|i: int| 0 <= i < t.len() implies display::narrow(#[trigger] t[i]) by {
                if i < a.len() {
                    assert(t[i] == a[i]);
                } else if i < a.len() + 3 {
                    assert(t[i] == " · "@[i - a.len()]);
                } else {
                    assert(t[i] == word[i - a.len() - 3]);
                }
            }
        } else {
            assert(state::present(two) =~= seq![a]);
        }
    } else if shown[1] is Some {
        assert(state::present(one) =~= Seq::<Seq<char>>::empty());
        assert(state::present(two) =~= seq![word]);
    }
}

// ---------------------------------------------------------------------------
// Bindings
// ---------------------------------------------------------------------------

/// An agent that is bound stays bound: asked for again, its slot serves as it is.
pub proof fn law_binding_lasts(
    old: Option<state::SlotView>,
    identity: state::IdentityView,
    binding: Seq<char>,
)
    ensures
        state::serves(Some(state::bound_anew(old, identity, binding)), identity),
        state::binding_fault(
            Some(state::bound_anew(old, identity, binding)),
            identity,
            binding,
        ) is None,
{
}

/// A binding that was replaced is refused, whoever names it, and so is every binding of an agent that
/// was replaced: nothing of what came after can be read or changed.
pub proof fn law_old_binding_is_refused(
    s: state::SlotView,
    identity: state::IdentityView,
    binding: Seq<char>,
    named: Seq<char>,
    caller: state::IdentityView,
)
    requires
        named != binding || caller != identity,
    ensures
        state::binding_fault(
            Some(state::bound_anew(Some(s), identity, binding)),
            caller,
            named,
        ) == Some(StateError::WrongBinding),
{
}

/// A slot that was taken out of use is refused until its agent is bound anew, and then has its task
/// again.
pub proof fn law_revoked_slot_is_bound_anew(
    s: state::SlotView,
    named: Seq<char>,
    binding: Seq<char>,
)
    requires
        s.revoked,
    ensures
        state::binding_fault(Some(s), s.identity, named) == Some(StateError::WrongBinding),
        !state::serves(Some(s), s.identity),
        state::bound_anew(Some(s), s.identity, binding).task == s.task,
        state::binding_fault(
            Some(state::bound_anew(Some(s), s.identity, binding)),
            s.identity,
            binding,
        ) is None,
{
}

/// Another launch, session or agent is another identity, which the slot does not serve; nor does it
/// serve anyone once it is revoked.
pub proof fn law_binding_is_exclusive(
    old: Option<state::SlotView>,
    identity: state::IdentityView,
    binding: Seq<char>,
    other: state::IdentityView,
)
    requires
        other != identity,
    ensures
        !state::serves(Some(state::bound_anew(old, identity, binding)), other),
        !state::serves(
            Some(
                state::SlotView { revoked: true, ..state::bound_anew(old, identity, binding) },
            ),
            identity,
        ),
{
}

/// A task is carried over to another launch of the same agent in the same session, and to no other
/// session or agent.
pub proof fn law_task_follows_the_session(
    s: state::SlotView,
    identity: state::IdentityView,
    binding: Seq<char>,
)
    ensures
        ({
            let next = state::bound_anew(Some(s), identity, binding);
            let same = s.identity.session == identity.session && s.identity.agent
                == identity.agent;
            &&& same ==> next.task == s.task
            &&& !same ==> next.task is None
            &&& next.binding == binding
            &&& !next.revoked
        }),
{
}

// ---------------------------------------------------------------------------
// What each request does, and when
// ---------------------------------------------------------------------------

/// A report that is accepted takes effect as it was given, whatever stood before it: the percentage is
/// the one that was reported, be it lower, higher or unknown, and that number is shown at once.
pub proof fn law_report_takes_effect(
    s: state::SlotView,
    id: Seq<char>,
    percent: Option<u8>,
    activity: Seq<char>,
    at: i64,
    now: i64,
)
    requires
        state::report_fault(s, id, percent, activity) is None,
    ensures
        ({
            let after = state::reported(s, percent, activity, at);
            let t = after.task->0;
            let shown = state::token_texts(after, now);
            &&& after.task is Some
            &&& t.percent == percent
            &&& t.reported_at == Some(at)
            &&& percent == Some(100u8) ==> t.activity == Some("Done"@)
            &&& percent != Some(100u8) ==> t.activity == Some(display::cleaned(activity, 40))
            &&& t.id == s.task->0.id && t.title == s.task->0.title && !t.cleared
            &&& after.identity == s.identity && after.binding == s.binding && after.revoked
                == s.revoked && after.reminded_at == s.reminded_at && after.published == s.published
            &&& !s.revoked && percent is None ==> shown[0] is None
            &&& !s.revoked && percent == Some(100u8) ==> shown[0] == Some("100%"@)
            &&& !s.revoked && percent is Some && percent->0 != 100 ==> shown[0] == Some(
                "~"@ + number::decimal(percent->0 as int) + "%"@,
            )
            &&& !s.revoked ==> shown[2] == t.activity
        }),
{
}

/// A report is accepted exactly where its percentage is none or at most a hundred, something is left of
/// its activity, it names the current task, and that is neither cleared nor done. In particular it is
/// not refused for what was reported before, short of a hundred.
pub proof fn law_report_is_refused_only_for_cause(
    s: state::SlotView,
    id: Seq<char>,
    percent: Option<u8>,
    activity: Seq<char>,
)
    ensures
        state::report_fault(s, id, percent, activity) is None <==> {
            &&& percent is None || percent->0 <= 100
            &&& display::cleaned(activity, 40).len() > 0
            &&& s.task is Some
            &&& s.task->0.id == id
            &&& !s.task->0.cleared
            &&& s.task->0.percent != Some(100u8)
        },
        percent is Some && percent->0 > 100 ==> state::report_fault(s, id, percent, activity)
            == Some(StateError::Percent),
        (percent is None || percent->0 <= 100) && display::cleaned(activity, 40).len() == 0
            ==> state::report_fault(s, id, percent, activity) == Some(StateError::EmptyActivity),
        (percent is None || percent->0 <= 100) && display::cleaned(activity, 40).len() > 0 && (
        s.task is None || s.task->0.id != id || s.task->0.cleared) ==> state::report_fault(
            s,
            id,
            percent,
            activity,
        ) == Some(StateError::WrongTask),
        (percent is None || percent->0 <= 100) && display::cleaned(activity, 40).len() > 0
            && s.task is Some && s.task->0.id == id && !s.task->0.cleared && s.task->0.percent
            == Some(100u8) ==> state::report_fault(s, id, percent, activity) == Some(
            StateError::Completed,
        ),
{
}

/// A task that begins is a new one: it has its title, nothing was reported on it, and nothing is left of
/// the one before. Nothing else of the slot changes.
pub proof fn law_begin_takes_effect(s: state::SlotView, title: Seq<char>, id: Seq<char>)
    ensures
        ({
            let after = state::begun(s, title, id);
            let t = after.task->0;
            &&& after.task is Some
            &&& t.id == id
            &&& t.title == display::cleaned(title, 80)
            &&& t.percent is None && t.activity is None && t.reported_at is None && !t.cleared
            &&& after.identity == s.identity && after.binding == s.binding && after.revoked
                == s.revoked && after.reminded_at == s.reminded_at && after.published == s.published
        }),
{
}

/// A task begins exactly where the one that is there is named, or "none" where there is none, and
/// something is left of its title; whether the one that is there is cleared or done does not matter.
pub proof fn law_begin_is_refused_only_for_cause(
    s: state::SlotView,
    expected: Seq<char>,
    title: Seq<char>,
)
    ensures
        ({
            let named = (s.task is None && expected == "none"@) || (s.task is Some && s.task->0.id
                == expected);
            let fault = state::begin_fault(s, expected, title);
            &&& fault is None <==> named && display::cleaned(title, 80).len() > 0
            &&& !named ==> fault == Some(StateError::Conflict)
            &&& named && display::cleaned(title, 80).len() == 0 ==> fault == Some(
                StateError::EmptyTitle,
            )
        }),
{
}

/// Clearing marks the task, and changes nothing else of it or of the slot; only the current task that is
/// not cleared yet can be.
pub proof fn law_clear_takes_effect(s: state::SlotView, id: Seq<char>)
    ensures
        state::open_task(s.task, id) <==> s.task is Some && s.task->0.id == id
            && !s.task->0.cleared,
        s.task is Some ==> ({
            let after = state::cleared(s);
            let t = after.task->0;
            let b = s.task->0;
            &&& after.task is Some
            &&& t.cleared
            &&& t.id == b.id && t.title == b.title && t.percent == b.percent && t.activity
                == b.activity && t.reported_at == b.reported_at
            &&& after.identity == s.identity && after.binding == s.binding && after.revoked
                == s.revoked && after.reminded_at == s.reminded_at && after.published == s.published
        }),
{
}

/// What is shown of any slot at any time: nothing where it is revoked, has no task, or one that is
/// cleared or was not reported on; otherwise the number that was reported, marked as an estimate short
/// of a hundred, the word "stale" exactly from five minutes on unless the task is done, and the
/// activity.
pub proof fn law_what_is_shown(s: state::SlotView, now: i64)
    ensures
        ({
            let shown = state::token_texts(s, now);
            let t = s.task->0;
            let hidden = s.revoked || s.task is None || t.cleared || t.reported_at is None;
            &&& shown.len() == 3
            &&& hidden ==> shown[0] is None && shown[1] is None && shown[2] is None
            &&& !hidden && t.percent is None ==> shown[0] is None
            &&& !hidden && t.percent == Some(100u8) ==> shown[0] == Some("100%"@)
            &&& !hidden && t.percent is Some && t.percent->0 != 100 ==> shown[0] == Some(
                "~"@ + number::decimal(t.percent->0 as int) + "%"@,
            )
            &&& !hidden && t.percent != Some(100u8) && now - t.reported_at->0 >= 300 ==> shown[1]
                == Some("stale"@)
            &&& !hidden && (t.percent == Some(100u8) || now - t.reported_at->0 < 300)
                ==> shown[1] is None
            &&& !hidden ==> shown[2] == t.activity
        }),
{
}

/// The summary of three tokens: those that are there, in their order, with a middle dot between each
/// two, as a line of eighty columns; none where that is nothing.
pub proof fn law_summary_joins_what_is_there(
    a: Option<Seq<char>>,
    b: Option<Seq<char>>,
    c: Option<Seq<char>>,
)
    ensures
        ({
            let dot = " · "@;
            let line = match (a, b, c) {
                (None, None, None) => Seq::empty(),
                (Some(x), None, None) => x,
                (None, Some(x), None) => x,
                (None, None, Some(x)) => x,
                (Some(x), Some(y), None) => x + dot + y,
                (Some(x), None, Some(y)) => x + dot + y,
                (None, Some(x), Some(y)) => x + dot + y,
                (Some(x), Some(y), Some(z)) => x + dot + y + dot + z,
            };
            &&& line.len() == 0 ==> state::summary_text(seq![a, b, c]) is None
            &&& line.len() > 0 ==> state::summary_text(seq![a, b, c]) == Some(
                display::cleaned(line, 80),
            )
        }),
{
    let all = seq![a, b, c];
    let two = all.drop_last();
    let one = two.drop_last();
    assert(one.drop_last() =~= Seq::empty());
    assert(two =~= seq![a, b]);
    assert(one =~= seq![a]);
    reveal_with_fuel(state::present, 4);
    reveal_with_fuel(text::join, 4);
    let parts = state::present(all);
    if parts.len() == 3 {
        assert(parts.drop_last() =~= seq![parts[0], parts[1]]);
        assert(parts.drop_last().drop_last() =~= seq![parts[0]]);
    } else if parts.len() == 2 {
        assert(parts.drop_last() =~= seq![parts[0]]);
    }
}

/// A slot may be used exactly by the agent that it was made for, equal in every part, under its binding,
/// and not once it is revoked.
pub proof fn law_who_may_use_a_slot(
    s: state::SlotView,
    identity: state::IdentityView,
    binding: Seq<char>,
)
    ensures
        ({
            let i = s.identity;
            let same = i.endpoint == identity.endpoint && i.terminal == identity.terminal
                && i.session == identity.session && i.agent == identity.agent && i.pid
                == identity.pid && i.started == identity.started;
            &&& state::binding_fault(Some(s), identity, binding) is None <==> same && !s.revoked
                && s.binding == binding
            &&& state::serves(Some(s), identity) <==> same && !s.revoked
            &&& state::binding_fault(None, identity, binding) == Some(StateError::NoAgent)
        }),
{
}

/// A slot that is bound anew starts afresh: under its new binding, in use, never reminded and never
/// published, for the agent that asked.
pub proof fn law_new_slot_starts_afresh(
    old: Option<state::SlotView>,
    identity: state::IdentityView,
    binding: Seq<char>,
)
    ensures
        ({
            let s = state::bound_anew(old, identity, binding);
            &&& s.identity == identity
            &&& s.binding == binding
            &&& !s.revoked
            &&& s.reminded_at == 0
            &&& s.published.len() == 0
            &&& s.task == (if old is Some && old->0.identity.session == identity.session
                && old->0.identity.agent == identity.agent {
                old->0.task
            } else {
                None
            })
        }),
{
}

/// What an agent gets when it is bound: what is kept, as it is, where that is its own, equal in every part,
/// and in use; otherwise a slot of its own under a binding that was drawn.
pub proof fn law_agent_gets_its_own_slot(
    old: Option<state::SlotView>,
    identity: state::IdentityView,
    slot: state::SlotView,
    new: bool,
)
    requires
        state::bootstrapped(old, identity, slot, new),
    ensures
        ({
            let own = old is Some && !old->0.revoked && old->0.identity == identity;
            &&& new <==> !own
            &&& own ==> slot == old->0
            &&& new ==> state::is_id(slot.binding) && slot.reminded_at == 0
                && slot.published.len() == 0
            &&& slot.identity == identity
            &&& !slot.revoked
            &&& old is Some && old->0.identity.session == identity.session
                && old->0.identity.agent == identity.agent ==> slot.task == old->0.task
            &&& old is None || old->0.identity.session != identity.session
                || old->0.identity.agent != identity.agent ==> slot.task is None
        }),
{
}

} // verus!
