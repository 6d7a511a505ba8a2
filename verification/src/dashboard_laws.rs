//! What the dashboard shows, told by the agents and by the spans of its lines.

use vstd::prelude::*;

use crate::agent_laws::goes_on;
use crate::clock::{Instant, NANOS_PER_SEC};
use crate::dashboard::{
    agent_at, dashboard_lines, detail_line, every_agent_is_on_the_dashboard, no_agents, previewed,
    running_stats, short_thread_id, status_span, SubagentStats,
};
use crate::display_laws::{coat, dated, lemma_dated, lemma_passed, passed, reads};
use crate::panel::formats;
use crate::sort::lemma_filter_push;
use crate::status::PanelAgentStatus;
use crate::styled::{line_views, Color, Line, Span, SpanView};
use crate::text::{decimal, is_white_space, lemma_blank};

verus! {

/// Whether a span names a status, in its colour.
pub open spec fn names_state(span: SpanView, status: PanelAgentStatus) -> bool {
    match status {
        PanelAgentStatus::PendingInit => reads(
            span,
            "starting"@,
            coat(Some(Color::Cyan), false, false, false),
        ),
        PanelAgentStatus::Running => reads(
            span,
            "running"@,
            coat(Some(Color::Cyan), true, false, false),
        ),
        PanelAgentStatus::Interrupted => reads(
            span,
            "interrupted"@,
            coat(Some(Color::Magenta), false, false, false),
        ),
        PanelAgentStatus::Completed(_) => reads(
            span,
            "completed"@,
            coat(Some(Color::Green), false, false, false),
        ),
        PanelAgentStatus::Errored(_) => reads(
            span,
            "errored"@,
            coat(Some(Color::Red), false, false, false),
        ),
        PanelAgentStatus::Shutdown => reads(span, "closed"@, coat(None, false, true, false)),
        PanelAgentStatus::NotFound => reads(
            span,
            "not found"@,
            coat(Some(Color::Red), false, false, false),
        ),
    }
}

/// The label on the dashboard names the status.
pub proof fn the_dashboard_names_a_status(status: PanelAgentStatus, label: Span)
    requires
        call_ensures(status_span, (&status,), label),
    ensures
        names_state(label@, status),
{
}

/// The short form of a thread's identity is its first eight characters, or all of it.
pub proof fn eight_characters_stand_for_a_thread(thread_id: &str, short: String)
    requires
        call_ensures(short_thread_id, (thread_id,), short),
    ensures
        thread_id@.len() <= 8 ==> short@ == thread_id@,
        thread_id@.len() > 8 ==> short@.len() == 8 && forall|k: int|
            0 <= k < 8 ==> #[trigger] short@[k] == thread_id@[k],
{
}

/// Whether `line` says who an agent is.
pub open spec fn says_who(stat: SubagentStats, line: Seq<SpanView>) -> bool {
    let n: int = if stat.role is Some { 4 } else { 3 };
    &&& line.len() == n + 2
    &&& reads(line[0], "  "@, coat(None, false, false, false))
    &&& reads(line[1], "#"@ + decimal(stat.ordinal as int) + " "@, coat(None, false, true, false))
    &&& reads(line[2], stat.name@, coat(None, true, false, false))
    &&& stat.role is Some ==> reads(
        line[3],
        " ["@ + stat.role->0@ + "]"@,
        coat(Some(Color::Magenta), false, true, false),
    )
    &&& reads(line[n], " "@, coat(None, false, false, false))
    &&& names_state(line[n + 1], stat.status)
}

/// Whether `line` says what an agent has done: its age, its turns, its events, for how many whole seconds
/// it has been silent where those are five or more, and its thread.
pub open spec fn says_what<E: Fn(u64) -> String>(
    fmt_elapsed_compact: E,
    stat: SubagentStats,
    now: Instant,
    line: Seq<SpanView>,
) -> bool {
    let dim = coat(None, false, true, false);
    &&& reads(line[0], "     "@, coat(None, false, false, false))
    &&& line[1].paint == dim
    &&& exists|elapsed: Seq<char>| #[trigger]
        dated(fmt_elapsed_compact, stat.spawned_at, now, elapsed) && line[1].text == "age "@
            + elapsed
    &&& reads(line[2], " · "@ + decimal(stat.turns_completed as int) + " turn(s)"@, dim)
    &&& reads(line[3], " · "@ + decimal(stat.activity_count as int) + " event(s)"@, dim)
    &&& forall|silence: int| #[trigger]
        passed(stat.latest_update_at, now, silence, 1_000_000_000) ==> if silence >= 5 {
            line.len() == 6 && reads(
                line[4],
                " · last update "@ + decimal(silence) + "s ago"@,
                dim,
            )
        } else {
            line.len() == 5
        }
    &&& line.len() == 5 || line.len() == 6
    &&& reads(
        line.last(),
        " · thread "@ + if stat.thread_id@.len() <= 8 {
            stat.thread_id@
        } else {
            stat.thread_id@.take(8)
        },
        dim,
    )
}

/// Whether an agent has done something that can be read.
pub open spec fn has_preview(stat: SubagentStats) -> bool {
    exists|k: int|
        0 <= k < stat.latest_preview@.len() && !is_white_space(#[trigger] stat.latest_preview@[k])
}

/// The line of the dashboard on which the block of the agent at `i` starts: three lines are ahead of the
/// first, and each block takes three, and one more where the agent has a preview.
pub open spec fn block_line(stats: Seq<SubagentStats>, i: int) -> int
    decreases i,
{
    if i <= 0 {
        3
    } else {
        block_line(stats, i - 1) + 3 + if has_preview(stats[i - 1]) {
            1int
        } else {
            0int
        }
    }
}

/// How many of the agents are starting or at work.
pub open spec fn going_on(stats: Seq<SubagentStats>) -> int
    decreases stats.len(),
{
    if stats.len() == 0 {
        0
    } else {
        going_on(stats.drop_last()) + if goes_on(stats.last().status) {
            1int
        } else {
            0int
        }
    }
}

proof fn lemma_going_on(stats: Seq<SubagentStats>)
    ensures
        going_on(stats) == stats.filter(running_stats()).len(),
    decreases stats.len(),
{
    reveal(Seq::filter);
    if stats.len() > 0 {
        lemma_going_on(stats.drop_last());
    }
}

proof fn lemma_previewed(stat: SubagentStats)
    ensures
        previewed()(stat) <==> has_preview(stat),
{
    lemma_blank(stat.latest_preview@);
}

proof fn lemma_block_line(stats: Seq<SubagentStats>, i: int)
    requires
        0 <= i <= stats.len(),
    ensures
        agent_at(stats, i) == block_line(stats, i),
    decreases i,
{
    if i == 0 {
        reveal(Seq::filter);
        assert(stats.take(0).filter(previewed()).len() == 0);
    } else {
        lemma_block_line(stats, i - 1);
        lemma_previewed(stats[i - 1]);
        lemma_filter_push(stats.take(i - 1), stats[i - 1], previewed());
        assert(stats.take(i - 1).push(stats[i - 1]) =~= stats.take(i));
    }
}

/// What the lines of the dashboard are where there are agents.
pub open spec fn dashboard_told<E: Fn(u64) -> String>(
    fmt_elapsed_compact: E,
    stats: Seq<SubagentStats>,
    now: Instant,
    lines: Seq<Line>,
) -> bool {
    let n = stats.len() as int;
    let plain = coat(None, false, false, false);
    let dim = coat(None, false, true, false);
    &&& lines.len() == block_line(stats, n) + 1
    &&& lines[0]@.len() == 0
    &&& lines[1]@.len() == 3
    &&& reads(lines[1]@[0], "  "@, plain)
    &&& reads(
        lines[1]@[1],
        decimal(n) + " agent(s) this session"@,
        coat(None, true, false, false),
    )
    &&& reads(lines[1]@[2], " · "@ + decimal(going_on(stats)) + " running"@, dim)
    &&& lines[2]@.len() == 0
    &&& forall|i: int|
        0 <= i < n ==> {
            let at = #[trigger] block_line(stats, i);
            &&& 3 <= at && block_line(stats, i + 1) < lines.len()
            &&& says_who(stats[i], lines[at]@)
            &&& says_what(fmt_elapsed_compact, stats[i], now, lines[at + 1]@)
            &&& has_preview(stats[i]) ==> {
                &&& lines[at + 2]@.len() == 3
                &&& reads(lines[at + 2]@[0], "     "@, plain)
                &&& reads(lines[at + 2]@[1], "» "@, dim)
                &&& reads(
                    lines[at + 2]@[2],
                    stats[i].latest_preview@,
                    coat(None, false, true, true),
                )
            }
            &&& lines[block_line(stats, i + 1) - 1]@.len() == 0
        }
    &&& lines.last()@.len() == 2
    &&& reads(lines.last()@[0], "  "@, plain)
    &&& reads(
        lines.last()@[1],
        "Alt+←/→ switches the transcript between agents · /agent opens the picker"@,
        dim,
    )
}

/// The detail line of an agent says what it has done.
pub proof fn lemma_says_what<E: Fn(u64) -> String>(
    fmt_elapsed_compact: E,
    stat: SubagentStats,
    now: Instant,
    elapsed: Seq<char>,
)
    requires
        formats(
            fmt_elapsed_compact,
            now.nanos_after(stat.spawned_at) / NANOS_PER_SEC as nat,
            elapsed,
        ),
    ensures
        says_what(fmt_elapsed_compact, stat, now, detail_line(stat, elapsed, now)),
{
    let line = detail_line(stat, elapsed, now);
    let idle = (now.nanos_after(stat.latest_update_at) / NANOS_PER_SEC as nat) as int;
    lemma_dated(fmt_elapsed_compact, stat.spawned_at, now, elapsed);
    lemma_passed(stat.latest_update_at, now, NANOS_PER_SEC as nat);
    assert forall|silence: int| #[trigger]
        passed(stat.latest_update_at, now, silence, 1_000_000_000) implies silence == idle by {
    }
    assert(line[1].text == "age "@ + elapsed);
}

proof fn lemma_block_line_grows(stats: Seq<SubagentStats>, i: int, j: int)
    requires
        0 <= i <= j,
    ensures
        block_line(stats, i) <= block_line(stats, j),
    decreases j - i,
{
    if i < j {
        lemma_block_line_grows(stats, i, j - 1);
    }
}

/// The dashboard counts the agents and those that are starting or at work, and shows each of them in turn:
/// who it is, what it has done, what it did last.
pub proof fn the_dashboard_tells_of_each_agent<E: Fn(u64) -> String>(
    stats: Vec<SubagentStats>,
    now: Instant,
    fmt_elapsed_compact: E,
    lines: Vec<Line>,
)
    requires
        stats@.len() > 0,
        call_ensures(dashboard_lines::<E>, (&stats, now, &fmt_elapsed_compact), lines),
    ensures
        dashboard_told(fmt_elapsed_compact, stats@, now, lines@),
{
    let all = stats@;
    let n = all.len() as int;
    let views = line_views(lines@);
    every_agent_is_on_the_dashboard(fmt_elapsed_compact, all, now, views);
    lemma_going_on(all);
    lemma_block_line(all, n);
    assert(all.take(n) =~= all);
    assert(views[0] == views.take(3)[0] && views[1] == views.take(3)[1] && views[2] == views.take(
        3,
    )[2]);
    assert(lines@[0]@ == views[0] && lines@[1]@ == views[1] && lines@[2]@ == views[2]);
    assert(lines@.last()@ == views.last());
    assert forall|i: int| 0 <= i < n implies {
        let at = #[trigger] block_line(all, i);
        &&& 3 <= at && block_line(all, i + 1) < lines@.len()
        &&& says_who(all[i], lines@[at]@)
        &&& says_what(fmt_elapsed_compact, all[i], now, lines@[at + 1]@)
        &&& has_preview(all[i]) ==> {
            &&& lines@[at + 2]@.len() == 3
            &&& reads(lines@[at + 2]@[0], "     "@, coat(None, false, false, false))
            &&& reads(lines@[at + 2]@[1], "» "@, coat(None, false, true, false))
            &&& reads(
                lines@[at + 2]@[2],
                all[i].latest_preview@,
                coat(None, false, true, true),
            )
        }
        &&& lines@[block_line(all, i + 1) - 1]@.len() == 0
    } by {
        lemma_block_line(all, i);
        lemma_previewed(all[i]);
        lemma_block_line_grows(all, i + 1, n);
        lemma_block_line_grows(all, 0, i);
        let at = agent_at(all, i);
        assert(lines@[at]@ == views[at] && lines@[at + 1]@ == views[at + 1]);
        assert(lines@[at + 2]@ == views[at + 2] && lines@[at + 3]@ == views[at + 3]);
        let elapsed = choose|elapsed: Seq<char>| #[trigger]
            formats(
                fmt_elapsed_compact,
                now.nanos_after(all[i].spawned_at) / NANOS_PER_SEC as nat,
                elapsed,
            ) && views[at + 1] == detail_line(all[i], elapsed, now);
        lemma_says_what(fmt_elapsed_compact, all[i], now, elapsed);
    }
}

/// Where there are no agents the dashboard says so.
pub proof fn the_dashboard_tells_of_no_agents<E: Fn(u64) -> String>(
    stats: Vec<SubagentStats>,
    now: Instant,
    fmt_elapsed_compact: E,
    lines: Vec<Line>,
)
    requires
        stats@.len() == 0,
        call_ensures(dashboard_lines::<E>, (&stats, now, &fmt_elapsed_compact), lines),
    ensures
        lines@.len() == 4,
        lines@[0]@.len() == 0,
        lines@[1]@.len() == 1,
        reads(
            lines@[1]@[0],
            "  No subagents have run in this session yet."@,
            coat(None, false, true, false),
        ),
        lines@[2]@.len() == 0,
        lines@[3]@.len() == 1,
        reads(
            lines@[3]@[0],
            "  Agents appear here as soon as the model spawns them."@,
            coat(None, false, true, false),
        ),
{
    let views = line_views(lines@);
    assert(views == no_agents());
    assert(views.len() == lines@.len());
    assert(lines@[0]@ == views[0] && lines@[1]@ == views[1]);
    assert(lines@[2]@ == views[2] && lines@[3]@ == views[3]);
}

} // verus!
