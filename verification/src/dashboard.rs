//! The dashboard: every agent of the session, running or ended, with what is known of it.

use vstd::prelude::*;
use vstd::string::*;

use crate::clock::{Instant, NANOS_PER_SEC};
use crate::panel::{formats, takes_any_secs};
use crate::sort::lemma_filter_push;
use crate::status::{PanelAgentStatus, StatusView};
use crate::styled::{
    colored, joined, line_views, painted, plain, span, span_views, Color, Line, Span, SpanView,
};
use crate::text::{blank, decimal, is_blank, prefix, signed_text, take_chars, unsigned_text};
use crate::thread_id::ThreadId;

verus! {

/// The title of the dashboard.
pub const DASHBOARD_TITLE: &'static str = "Agents";

/// What the dashboard shows of one agent.
#[derive(Debug)]
pub struct SubagentStats {
    pub thread_id: ThreadId,
    pub ordinal: i32,
    pub name: String,
    pub role: Option<String>,
    pub status: PanelAgentStatus,
    pub spawned_at: Instant,
    pub latest_update_at: Instant,
    pub latest_preview: String,
    pub turns_completed: u64,
    pub activity_count: u64,
}

/// The start of a thread's identity.
pub fn short_thread_id(thread_id: &str) -> (short: String)
    ensures
        short@ == prefix(thread_id@, 8),
{
    take_chars(thread_id, 8).to_owned()
}

/// The label of a status.
pub open spec fn dashboard_label(status: StatusView) -> SpanView {
    match status {
        StatusView::PendingInit => painted("starting"@, colored(Color::Cyan)),
        StatusView::Running => painted("running"@, colored(Color::Cyan).bold()),
        StatusView::Interrupted => painted("interrupted"@, colored(Color::Magenta)),
        StatusView::Completed(_) => painted("completed"@, colored(Color::Green)),
        StatusView::Errored(_) => painted("errored"@, colored(Color::Red)),
        StatusView::Shutdown => painted("closed"@, plain().dim()),
        StatusView::NotFound => painted("not found"@, colored(Color::Red)),
    }
}

/// The label of a status.
pub fn status_span(status: &PanelAgentStatus) -> (label: Span)
    ensures
        label@ == dashboard_label(status@),
{
    match status {
        PanelAgentStatus::PendingInit => span("starting", colored(Color::Cyan)),
        PanelAgentStatus::Running => span("running", colored(Color::Cyan).bold()),
        PanelAgentStatus::Interrupted => span("interrupted", colored(Color::Magenta)),
        PanelAgentStatus::Completed(_) => span("completed", colored(Color::Green)),
        PanelAgentStatus::Errored(_) => span("errored", colored(Color::Red)),
        PanelAgentStatus::Shutdown => span("closed", plain().dim()),
        PanelAgentStatus::NotFound => span("not found", colored(Color::Red)),
    }
}

/// What the dashboard says where there are no agents.
pub open spec fn no_agents() -> Seq<Seq<SpanView>> {
    seq![
        Seq::empty(),
        seq![painted("  No subagents have run in this session yet."@, plain().dim())],
        Seq::empty(),
        seq![painted("  Agents appear here as soon as the model spawns them."@, plain().dim())],
    ]
}

/// Accepts the agents that are starting or at work.
pub open spec fn running_stats() -> spec_fn(SubagentStats) -> bool {
    |stat: SubagentStats| stat.status@.is_running()
}

/// How many agents there are, and how many of them run.
pub open spec fn summary(stats: Seq<SubagentStats>) -> Seq<Seq<SpanView>> {
    seq![
        Seq::empty(),
        seq![
            painted("  "@, plain()),
            painted(decimal(stats.len() as int) + " agent(s) this session"@, plain().bold()),
            painted(
                " · "@ + decimal(stats.filter(running_stats()).len() as int) + " running"@,
                plain().dim(),
            ),
        ],
        Seq::empty(),
    ]
}

/// Who an agent is: ordinal, name, role where it has one, status.
pub open spec fn identity_line(stat: SubagentStats) -> Seq<SpanView> {
    let lead = seq![
        painted("  "@, plain()),
        painted("#"@ + decimal(stat.ordinal as int) + " "@, plain().dim()),
        painted(stat.name@, plain().bold()),
    ];
    let role = match stat.role {
        Some(role) => seq![painted(" ["@ + role@ + "]"@, colored(Color::Magenta).dim())],
        None => Seq::empty(),
    };
    lead + role + seq![painted(" "@, plain()), dashboard_label(stat.status@)]
}

/// What an agent has done: age, turns, events, how long it has been silent where that is five
/// seconds or more, thread.
pub open spec fn detail_line(stat: SubagentStats, elapsed: Seq<char>, now: Instant) -> Seq<SpanView> {
    let idle = now.nanos_after(stat.latest_update_at) / NANOS_PER_SEC as nat;
    let lead = seq![
        painted("     "@, plain()),
        painted("age "@ + elapsed, plain().dim()),
        painted(" · "@ + decimal(stat.turns_completed as int) + " turn(s)"@, plain().dim()),
        painted(" · "@ + decimal(stat.activity_count as int) + " event(s)"@, plain().dim()),
    ];
    let silence = if idle >= 5 {
        seq![painted(" · last update "@ + decimal(idle as int) + "s ago"@, plain().dim())]
    } else {
        Seq::empty()
    };
    lead + silence + seq![painted(" · thread "@ + prefix(stat.thread_id@, 8), plain().dim())]
}

/// What an agent did last.
pub open spec fn preview_line(stat: SubagentStats) -> Seq<SpanView> {
    seq![
        painted("     "@, plain()),
        painted("» "@, plain().dim()),
        painted(stat.latest_preview@, plain().italic().dim()),
    ]
}

/// The block of one agent. The preview is left out where it is blank.
pub open spec fn block(stat: SubagentStats, elapsed: Seq<char>, now: Instant) -> Seq<
    Seq<SpanView>,
> {
    let preview = if is_blank(stat.latest_preview@) {
        Seq::empty()
    } else {
        seq![preview_line(stat)]
    };
    seq![identity_line(stat), detail_line(stat, elapsed, now)] + preview + seq![Seq::empty()]
}

/// The blocks of the agents, one after the other.
pub open spec fn blocks(
    stats: Seq<SubagentStats>,
    elapsed: Seq<Seq<char>>,
    now: Instant,
) -> Seq<Seq<SpanView>>
    decreases stats.len(),
{
    if stats.len() == 0 {
        Seq::empty()
    } else {
        blocks(stats.drop_last(), elapsed.drop_last(), now) + block(
            stats.last(),
            elapsed.last(),
            now,
        )
    }
}

/// What the dashboard ends with.
pub open spec fn hints() -> Seq<SpanView> {
    seq![
        painted("  "@, plain()),
        painted(
            "Alt+←/→ switches the transcript between agents · /agent opens the picker"@,
            plain().dim(),
        ),
    ]
}

/// Whether `elapsed` are the ages of the agents at `now`.
pub open spec fn ages<E: Fn(u64) -> String>(
    fmt_elapsed_compact: E,
    stats: Seq<SubagentStats>,
    now: Instant,
    elapsed: Seq<Seq<char>>,
) -> bool {
    &&& elapsed.len() == stats.len()
    &&& forall|i: int|
        0 <= i < stats.len() ==> formats(
            fmt_elapsed_compact,
            now.nanos_after(stats[i].spawned_at) / NANOS_PER_SEC as nat,
            #[trigger] elapsed[i],
        )
}

/// Whether `lines` are the dashboard at `now`.
pub open spec fn shows_dashboard<E: Fn(u64) -> String>(
    fmt_elapsed_compact: E,
    stats: Seq<SubagentStats>,
    now: Instant,
    lines: Seq<Seq<SpanView>>,
) -> bool {
    if stats.len() == 0 {
        lines == no_agents()
    } else {
        exists|elapsed: Seq<Seq<char>>| #[trigger]
            ages(fmt_elapsed_compact, stats, now, elapsed) && lines == summary(stats) + blocks(
                stats,
                elapsed,
                now,
            ) + seq![hints()]
    }
}

fn surrounded(left: &str, inner: &str, right: &str) -> (text: String)
    ensures
        text@ == left@ + inner@ + right@,
{
    let mut text = joined(left, inner);
    text.append(right);
    text
}

fn count_running(stats: &Vec<SubagentStats>) -> (count: usize)
    ensures
        count == stats@.filter(running_stats()).len(),
{
    let mut count: usize = 0;
    let mut i: usize = 0;
    assert(stats@.take(0).filter(running_stats()).len() == 0) by {
        reveal(Seq::filter);
    }
    while i < stats.len()
        invariant
            i <= stats@.len(),
            count <= i,
            count == stats@.take(i as int).filter(running_stats()).len(),
        decreases stats@.len() - i,
    {
        proof {
            lemma_filter_push(stats@.take(i as int), stats@[i as int], running_stats());
            assert(stats@.take(i as int).push(stats@[i as int]) =~= stats@.take(i + 1));
        }
        if stats[i].status.is_running() {
            count += 1;
        }
        i += 1;
    }
    assert(stats@.take(i as int) =~= stats@);
    count
}

fn empty_line() -> (line: Line)
    ensures
        line@ == Seq::<SpanView>::empty(),
{
    let spans: Vec<Span> = Vec::new();
    assert(span_views(spans@) =~= Seq::empty());
    Line { spans }
}

impl SubagentStats {
    fn identity(&self) -> (line: Line)
        ensures
            line@ == identity_line(*self),
    {
        let mut spans = vec![
            span("  ", plain()),
            span(surrounded("#", signed_text(self.ordinal).as_str(), " ").as_str(), plain().dim()),
            span(self.name.as_str(), plain().bold()),
        ];
        if let Some(role) = &self.role {
            spans.push(
                span(surrounded(" [", role.as_str(), "]").as_str(), colored(Color::Magenta).dim()),
            );
        }
        spans.push(span(" ", plain()));
        spans.push(status_span(&self.status));
        assert(span_views(spans@) =~= identity_line(*self));
        Line { spans }
    }

    fn detail(&self, elapsed: &str, now: Instant) -> (line: Line)
        ensures
            line@ == detail_line(*self, elapsed@, now),
    {
        let idle = now.secs_since(self.latest_update_at);
        let turns = surrounded(" · ", unsigned_text(self.turns_completed).as_str(), " turn(s)");
        let events = surrounded(" · ", unsigned_text(self.activity_count).as_str(), " event(s)");
        let mut spans = vec![
            span("     ", plain()),
            span(joined("age ", elapsed).as_str(), plain().dim()),
            span(turns.as_str(), plain().dim()),
            span(events.as_str(), plain().dim()),
        ];
        if idle >= 5 {
            let silence = surrounded(" · last update ", unsigned_text(idle).as_str(), "s ago");
            spans.push(span(silence.as_str(), plain().dim()));
        }
        let thread = joined(" · thread ", short_thread_id(self.thread_id.as_str()).as_str());
        spans.push(span(thread.as_str(), plain().dim()));
        assert(span_views(spans@) =~= detail_line(*self, elapsed@, now));
        Line { spans }
    }

    fn preview(&self) -> (line: Line)
        ensures
            line@ == preview_line(*self),
    {
        let spans = vec![
            span("     ", plain()),
            span("» ", plain().dim()),
            span(self.latest_preview.as_str(), plain().italic().dim()),
        ];
        assert(span_views(spans@) =~= preview_line(*self));
        Line { spans }
    }
}

fn note(text: &str) -> (line: Line)
    ensures
        line@ == seq![painted(text@, plain().dim())],
{
    let spans = vec![span(text, plain().dim())];
    assert(span_views(spans@) =~= seq![painted(text@, plain().dim())]);
    Line { spans }
}

/// The lines of the dashboard at `now`.
pub fn dashboard_lines<E: Fn(u64) -> String>(
    stats: &Vec<SubagentStats>,
    now: Instant,
    fmt_elapsed_compact: &E,
) -> (lines: Vec<Line>)
    requires
        takes_any_secs(*fmt_elapsed_compact),
    ensures
        shows_dashboard(*fmt_elapsed_compact, stats@, now, line_views(lines@)),
{
    let mut lines: Vec<Line> = Vec::new();
    if stats.is_empty() {
        lines.push(empty_line());
        lines.push(note("  No subagents have run in this session yet."));
        lines.push(empty_line());
        lines.push(note("  Agents appear here as soon as the model spawns them."));
        assert(line_views(lines@) =~= no_agents());
        return lines;
    }
    let running = count_running(stats);
    lines.push(empty_line());
    let total = joined(unsigned_text(stats.len() as u64).as_str(), " agent(s) this session");
    let at_work = surrounded(" · ", unsigned_text(running as u64).as_str(), " running");
    let spans = vec![
        span("  ", plain()),
        span(total.as_str(), plain().bold()),
        span(at_work.as_str(), plain().dim()),
    ];
    assert(span_views(spans@) =~= summary(stats@)[1]);
    lines.push(Line { spans });
    lines.push(empty_line());
    assert(line_views(lines@) =~= summary(stats@));

    let ghost mut elapsed_texts: Seq<Seq<char>> = Seq::empty();
    let mut i: usize = 0;
    assert(blocks(stats@.take(0), elapsed_texts, now) =~= Seq::empty());
    assert(summary(stats@) + Seq::<Seq<SpanView>>::empty() =~= summary(stats@));
    while i < stats.len()
        invariant
            i <= stats@.len(),
            takes_any_secs(*fmt_elapsed_compact),
            ages(*fmt_elapsed_compact, stats@.take(i as int), now, elapsed_texts),
            line_views(lines@) == summary(stats@) + blocks(
                stats@.take(i as int),
                elapsed_texts,
                now,
            ),
        decreases stats@.len() - i,
    {
        let ghost before = lines@;
        let ghost texts = elapsed_texts;
        let stat = &stats[i];
        let elapsed = fmt_elapsed_compact(now.secs_since(stat.spawned_at));
        proof {
            assert(formats(
                *fmt_elapsed_compact,
                now.nanos_after(stat.spawned_at) / NANOS_PER_SEC as nat,
                elapsed@,
            ));
            elapsed_texts = elapsed_texts.push(elapsed@);
            assert(elapsed_texts.drop_last() =~= texts);
            assert(stats@.take(i + 1).drop_last() =~= stats@.take(i as int));
            assert forall|j: int| 0 <= j < i + 1 implies formats(
                *fmt_elapsed_compact,
                now.nanos_after(stats@.take(i + 1)[j].spawned_at) / NANOS_PER_SEC as nat,
                #[trigger] elapsed_texts[j],
            ) by {
                if j < i {
                    assert(texts[j] == elapsed_texts[j]);
                    assert(stats@.take(i as int)[j] == stats@.take(i + 1)[j]);
                }
            }
        }
        lines.push(stat.identity());
        lines.push(stat.detail(elapsed.as_str(), now));
        if !blank(stat.latest_preview.as_str()) {
            lines.push(stat.preview());
        }
        lines.push(empty_line());
        assert(line_views(lines@) =~= line_views(before) + block(*stat, elapsed@, now));
        assert(line_views(lines@) =~= summary(stats@) + blocks(
            stats@.take(i + 1),
            elapsed_texts,
            now,
        ));
        i += 1;
    }
    let hint = vec![
        span("  ", plain()),
        span(
            "Alt+←/→ switches the transcript between agents · /agent opens the picker",
            plain().dim(),
        ),
    ];
    assert(span_views(hint@) =~= hints());
    let ghost before = lines@;
    lines.push(Line { spans: hint });
    assert(stats@.take(i as int) =~= stats@);
    assert(line_views(lines@) =~= line_views(before) + seq![hints()]);
    lines
}

/// Accepts the agents that have a preview to show.
pub open spec fn previewed() -> spec_fn(SubagentStats) -> bool {
    |stat: SubagentStats| !is_blank(stat.latest_preview@)
}

/// The line of the dashboard on which the block of the agent at `i` starts: behind the summary, three
/// lines for each agent before it, and one more for each of those that has a preview.
pub open spec fn agent_at(stats: Seq<SubagentStats>, i: int) -> int {
    3 + 3 * i + stats.take(i).filter(previewed()).len()
}

proof fn lemma_blocks_len(stats: Seq<SubagentStats>, elapsed: Seq<Seq<char>>, now: Instant)
    requires
        elapsed.len() == stats.len(),
    ensures
        blocks(stats, elapsed, now).len() == 3 * stats.len() + stats.filter(previewed()).len(),
    decreases stats.len(),
{
    reveal(Seq::filter);
    if stats.len() > 0 {
        lemma_blocks_len(stats.drop_last(), elapsed.drop_last(), now);
    }
}

proof fn lemma_block_at(
    stats: Seq<SubagentStats>,
    elapsed: Seq<Seq<char>>,
    now: Instant,
    i: int,
    k: int,
)
    requires
        elapsed.len() == stats.len(),
        0 <= i < stats.len(),
        0 <= k < block(stats[i], elapsed[i], now).len(),
    ensures
        agent_at(stats, i) - 3 + k < blocks(stats, elapsed, now).len(),
        blocks(stats, elapsed, now)[agent_at(stats, i) - 3 + k] == block(
            stats[i],
            elapsed[i],
            now,
        )[k],
    decreases stats.len(),
{
    let rest = stats.drop_last();
    let rest_elapsed = elapsed.drop_last();
    let front = blocks(rest, rest_elapsed, now);
    assert(rest.take(i) =~= stats.take(i));
    if i < stats.len() - 1 {
        lemma_block_at(rest, rest_elapsed, now, i, k);
    } else {
        lemma_blocks_len(rest, rest_elapsed, now);
        assert(rest =~= stats.take(i));
    }
}

proof fn lemma_agents_ascend(stats: Seq<SubagentStats>, i: int, j: int)
    requires
        0 <= i < j <= stats.len(),
    ensures
        agent_at(stats, i) + 3 <= agent_at(stats, j),
    decreases j - i,
{
    lemma_filter_push(stats.take(j - 1), stats[j - 1], previewed());
    assert(stats.take(j - 1).push(stats[j - 1]) =~= stats.take(j));
    if i < j - 1 {
        lemma_agents_ascend(stats, i, j - 1);
    }
}

/// Every agent stands on the dashboard, running or ended, in the order of the agents: who it is,
/// directly behind that what it has done, directly behind that its preview where it has one, and an
/// empty line. Nothing but that, the summary and the hints does.
pub proof fn every_agent_is_on_the_dashboard<E: Fn(u64) -> String>(
    fmt_elapsed_compact: E,
    stats: Seq<SubagentStats>,
    now: Instant,
    lines: Seq<Seq<SpanView>>,
)
    requires
        stats.len() > 0,
        shows_dashboard(fmt_elapsed_compact, stats, now, lines),
    ensures
        lines.len() == 4 + 3 * stats.len() + stats.filter(previewed()).len(),
        lines.take(3) == summary(stats),
        lines.last() == hints(),
        agent_at(stats, 0) == 3,
        forall|i: int, j: int|
            0 <= i < j < stats.len() ==> #[trigger] agent_at(stats, i) + 3 <= #[trigger] agent_at(
                stats,
                j,
            ),
        forall|i: int|
            0 <= i < stats.len() ==> {
                let at = #[trigger] agent_at(stats, i);
                &&& 3 <= at && at + 3 < lines.len()
                &&& lines[at] == identity_line(stats[i])
                &&& exists|elapsed: Seq<char>| #[trigger]
                    formats(
                        fmt_elapsed_compact,
                        now.nanos_after(stats[i].spawned_at) / NANOS_PER_SEC as nat,
                        elapsed,
                    ) && lines[at + 1] == detail_line(stats[i], elapsed, now)
                &&& if previewed()(stats[i]) {
                    lines[at + 2] == preview_line(stats[i]) && lines[at + 3] == Seq::<
                        SpanView,
                    >::empty()
                } else {
                    lines[at + 2] == Seq::<SpanView>::empty()
                }
            },
{
    let elapsed = choose|elapsed: Seq<Seq<char>>| #[trigger]
        ages(fmt_elapsed_compact, stats, now, elapsed) && lines == summary(stats) + blocks(
            stats,
            elapsed,
            now,
        ) + seq![hints()];
    let body = blocks(stats, elapsed, now);
    lemma_blocks_len(stats, elapsed, now);
    assert(lines.take(3) =~= summary(stats));
    assert(stats.take(0).filter(previewed()).len() == 0) by {
        reveal(Seq::filter);
    }
    assert forall|i: int, j: int| 0 <= i < j < stats.len() implies #[trigger] agent_at(stats, i) + 3
        <= #[trigger] agent_at(stats, j) by {
        lemma_agents_ascend(stats, i, j);
    }
    assert forall|i: int| 0 <= i < stats.len() implies {
        let at = #[trigger] agent_at(stats, i);
        &&& 3 <= at && at + 3 < lines.len()
        &&& lines[at] == identity_line(stats[i])
        &&& exists|text: Seq<char>| #[trigger]
            formats(
                fmt_elapsed_compact,
                now.nanos_after(stats[i].spawned_at) / NANOS_PER_SEC as nat,
                text,
            ) && lines[at + 1] == detail_line(stats[i], text, now)
        &&& if previewed()(stats[i]) {
            lines[at + 2] == preview_line(stats[i]) && lines[at + 3] == Seq::<SpanView>::empty()
        } else {
            lines[at + 2] == Seq::<SpanView>::empty()
        }
    } by {
        let at = agent_at(stats, i);
        let piece = block(stats[i], elapsed[i], now);
        lemma_block_at(stats, elapsed, now, i, 0);
        lemma_block_at(stats, elapsed, now, i, 1);
        lemma_block_at(stats, elapsed, now, i, 2);
        if previewed()(stats[i]) {
            lemma_block_at(stats, elapsed, now, i, 3);
            assert(lines[at + 3] == body[at]);
        }
        assert(lines[at] == body[at - 3]);
        assert(lines[at + 1] == body[at - 2]);
        assert(lines[at + 2] == body[at - 1]);
        assert(formats(
            fmt_elapsed_compact,
            now.nanos_after(stats[i].spawned_at) / NANOS_PER_SEC as nat,
            elapsed[i],
        ));
    }
}

} // verus!
