//! What is sent of each terminal, and when, in terms of what is kept for it.
use vstd::prelude::*;

use crate::json;
use crate::number;
use crate::publisher;
use crate::publisher::{Next, Plan, Progress, PublisherError, Serving, Turn};
use crate::state;
use crate::state_laws;
use crate::text;

verus! {

/// What is done about a terminal. Nothing where nothing is kept for it; what is kept goes where it has no
/// pane any more. Otherwise its slot is kept as it is, but out of use from then on where everything is
/// cleared or its agent no longer runs; and what is shown of it then is sent, and noted as published,
/// unless that is what was published last.
pub proof fn law_what_is_done_about_a_terminal(
    found: Option<state::SlotView>,
    open: bool,
    clear: bool,
    live: bool,
    now: i64,
    r: Plan,
)
    requires
        publisher::published(found, open, clear, live, now, r),
    ensures
        r is Skip <==> found is None,
        r is Remove <==> found is Some && !open,
        found is Some && open ==> ({
            let s = found->0;
            let kept = if r is Keep {
                r->Keep_0@
            } else {
                r->Send_0@
            };
            &&& r is Keep || r is Send
            &&& kept.revoked == (s.revoked || clear || !live)
            &&& kept.identity == s.identity && kept.binding == s.binding && kept.task == s.task
                && kept.reminded_at == s.reminded_at
            &&& kept.published == publisher::rendered_text(
                state::token_texts(kept, now),
                state::summary_text(state::token_texts(kept, now)),
            )
            &&& r is Keep <==> kept.published == s.published
            &&& r is Send ==> state::option_views(r->Send_1.tokens@) == state::token_texts(
                kept,
                now,
            ) && text::option_view(r->Send_1.summary) == state::summary_text(
                state::token_texts(kept, now),
            )
        }),
{
    if found is Some && open {
        let s = found->0;
        let after = publisher::revoked_if(s, clear || !live);
        let kept = if r is Keep {
            r->Keep_0@
        } else {
            r->Send_0@
        };
        assert(state::token_texts(kept, now) == state::token_texts(after, now));
    }
}

/// What is sent of a terminal is what is to be seen of its task at that time: the number that was reported
/// last, marked as an estimate short of a hundred, the word "stale" from five minutes on, and the
/// activity, and nothing once its slot is out of use.
pub proof fn law_sent_is_what_is_shown(
    s: state::SlotView,
    clear: bool,
    live: bool,
    now: i64,
    r: Plan,
)
    requires
        publisher::published(Some(s), true, clear, live, now, r),
        r is Send,
    ensures
        ({
            let sent = state::option_views(r->Send_1.tokens@);
            let t = s.task->0;
            let hidden = s.revoked || clear || !live || s.task is None || t.cleared
                || t.reported_at is None;
            &&& sent.len() == 3
            &&& hidden ==> sent[0] is None && sent[1] is None && sent[2] is None && r->Send_1.summary
                is None
            &&& !hidden ==> sent[2] == t.activity
            &&& !hidden && t.percent is None ==> sent[0] is None
            &&& !hidden && t.percent == Some(100u8) ==> sent[0] == Some("100%"@)
            &&& !hidden && t.percent is Some && t.percent->0 != 100 ==> sent[0] == Some(
                "~"@ + number::decimal(t.percent->0 as int) + "%"@,
            )
            &&& !hidden && t.percent != Some(100u8) && now - t.reported_at->0 >= 300 ==> sent[1]
                == Some("stale"@)
            &&& !hidden && (t.percent == Some(100u8) || now - t.reported_at->0 < 300)
                ==> sent[1] is None
        }),
{
    law_what_is_done_about_a_terminal(Some(s), true, clear, live, now, r);
    let kept = r->Send_0@;
    state_laws::law_what_is_shown(kept, now);
    let shown = state::token_texts(kept, now);
    if shown[0] is None && shown[1] is None && shown[2] is None {
        state_laws::law_summary_joins_what_is_there(None, None, None);
        assert(shown =~= seq![None::<Seq<char>>, None, None]);
    }
}

/// The arguments of a report, one by one.
pub proof fn law_arguments_of_a_report(
    pane: Seq<char>,
    sequence: int,
    percent: Option<Seq<char>>,
    freshness: Option<Seq<char>>,
    activity: Option<Seq<char>>,
    summary: Option<Seq<char>>,
)
    ensures
        ({
            let args = publisher::report_args(
                pane,
                sequence,
                seq![percent, freshness, activity],
                summary,
            );
            &&& args.len() == 15
            &&& args[0] == "pane"@ && args[1] == "report-metadata"@ && args[2] == pane
            &&& args[3] == "--source"@ && args[4] == "agent-progress"@
            &&& args[5] == "--seq"@ && args[6] == number::decimal(sequence)
            &&& percent is Some ==> args[7] == "--token"@ && args[8] == "agent_progress_percent"@
                + "="@ + percent->0
            &&& percent is None ==> args[7] == "--clear-token"@ && args[8]
                == "agent_progress_percent"@
            &&& freshness is Some ==> args[9] == "--token"@ && args[10]
                == "agent_progress_freshness"@ + "="@ + freshness->0
            &&& freshness is None ==> args[9] == "--clear-token"@ && args[10]
                == "agent_progress_freshness"@
            &&& activity is Some ==> args[11] == "--token"@ && args[12] == "agent_progress_activity"@
                + "="@ + activity->0
            &&& activity is None ==> args[11] == "--clear-token"@ && args[12]
                == "agent_progress_activity"@
            &&& summary is Some ==> args[13] == "--token"@ && args[14] == "agent_progress_summary"@
                + "="@ + summary->0
            &&& summary is None ==> args[13] == "--clear-token"@ && args[14]
                == "agent_progress_summary"@
        }),
{
}

/// The pane of a terminal is the first one that names it; there is none only where no pane does.
pub proof fn law_first_pane_of_a_terminal(panes: Seq<json::JsonTree>, terminal: Seq<char>)
    ensures
        match publisher::first_pane(panes, terminal) {
            Some(pane) => pane.member("terminal_id"@) == json::JsonTree::Text(terminal)
                && exists|i: int|
                0 <= i < panes.len() && panes[i] == pane && forall|k: int|
                    0 <= k < i ==> (#[trigger] panes[k]).member("terminal_id"@)
                        != json::JsonTree::Text(terminal),
            None => forall|k: int|
                0 <= k < panes.len() ==> (#[trigger] panes[k]).member("terminal_id"@)
                    != json::JsonTree::Text(terminal),
        },
    decreases panes.len(),
{
    if panes.len() > 0 {
        let rest = panes.drop_first();
        law_first_pane_of_a_terminal(rest, terminal);
        if publisher::shows(panes[0], terminal) {
            assert(panes[0] == publisher::first_pane(panes, terminal)->0);
        } else {
            match publisher::first_pane(rest, terminal) {
                Some(pane) => {
                    let i = choose|i: int|
                        0 <= i < rest.len() && rest[i] == pane && forall|k: int|
                            0 <= k < i ==> (#[trigger] rest[k]).member("terminal_id"@)
                                != json::JsonTree::Text(terminal);
                    assert(panes[i + 1] == pane);
                    assert forall|k: int| 0 <= k < i + 1 implies (#[trigger] panes[k]).member(
                        "terminal_id"@,
                    ) != json::JsonTree::Text(terminal) by {
                        if k > 0 {
                            assert(rest[k - 1] == panes[k]);
                        }
                    }
                },
                None => {
                    assert forall|k: int| 0 <= k < panes.len() implies (#[trigger] panes[k]).member(
                        "terminal_id"@,
                    ) != json::JsonTree::Text(terminal) by {
                        if k > 0 {
                            assert(rest[k - 1] == panes[k]);
                        }
                    }
                },
            }
        }
    }
}

/// A publisher works in a round exactly where it is to end, the database has changed since it last
/// published, or that was fifteen seconds ago or more; it clears exactly where it is to end.
pub proof fn law_when_a_publisher_works(s: Serving, ending: bool, version: i64, elapsed: u64)
    ensures
        s.turn(ending, version, elapsed) == Turn::Clear <==> ending,
        s.turn(ending, version, elapsed) == Turn::Publish <==> !ending && (version != s.version
            || elapsed >= 15),
{
}

/// After a success a publisher has published the version and has failed no more; after a failure it has
/// failed once more, is no further, and waits for two, four and eight seconds, and fails for good the
/// fourth time in a row.
pub proof fn law_how_a_publisher_fails(s: Serving, version: i64)
    requires
        s.running(),
    ensures
        s.having_served(true, version) == (
            (Serving { version, failures: 0 }),
            Next::Continue,
        ),
        ({
            let (after, next) = s.having_served(false, version);
            &&& after.version == s.version
            &&& after.failures == s.failures + 1
            &&& s.failures == 0 ==> next == Next::Pause(2)
            &&& s.failures == 1 ==> next == Next::Pause(4)
            &&& s.failures == 2 ==> next == Next::Pause(8)
            &&& s.failures == 3 ==> next == Next::Fail
        }),
        s.failures <= 3,
{
    reveal_with_fuel(publisher::pause, 5);
}

/// A publisher that was started is waited for until it holds the lock, but not once it has ended, and for
/// less than two seconds; one that was asked to end until it does not, for less than twelve.
pub proof fn law_how_long_a_publisher_is_waited_for(waited: u64, locked: bool, exited: bool)
    ensures
        publisher::start_after(waited, locked, exited) == Progress::Wait <==> waited < 2000
            && !locked && !exited,
        publisher::start_after(waited, locked, exited) == Progress::Done <==> waited < 2000
            && locked,
        publisher::start_after(waited, locked, exited) == Progress::Failed(
            PublisherError::Exited,
        ) <==> waited < 2000 && !locked && exited,
        publisher::start_after(waited, locked, exited) == Progress::Failed(
            PublisherError::NotStarted,
        ) <==> waited >= 2000,
        publisher::stop_after(waited, locked) == Progress::Wait <==> waited < 12000 && locked,
        publisher::stop_after(waited, locked) == Progress::Done <==> waited < 12000 && !locked,
        publisher::stop_after(waited, locked) == Progress::Failed(PublisherError::NotStopped)
            <==> waited >= 12000,
{
}

/// The panes are those that Herdr lists, all of them and in its order.
pub proof fn law_panes_are_those_listed(snapshot: json::JsonTree)
    ensures
        ({
            let listed = snapshot.member("snapshot"@).member("panes"@);
            &&& listed is List ==> publisher::panes_in(snapshot) == Some(listed->List_0)
            &&& !(listed is List) ==> publisher::panes_in(snapshot) is None
        }),
{
}

} // verus!
