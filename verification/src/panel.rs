//! The pinned panel: a header, and one row for each agent that is starting or at work.
//!
//! Writing a number of seconds as a duration is the host's business, as shortening a text is: a
//! function that shows durations takes the host's `fmt_elapsed_compact`.

use vstd::prelude::*;
use vstd::string::*;

use crate::agent::{shortens, takes_any_text};
use crate::clock::{Instant, NANOS_PER_SEC, NANOS_PER_TENTH};
use crate::sort::{by_rank, sort_by_rank, sorting_ranks_the_same_items, Ranked};
use crate::status::{PanelAgentStatus, StatusView};
use crate::styled::{
    colored, joined, line_views, painted, plain, span, span_views, Color, Line, MotionMode, Paint,
    Span, SpanView,
};
use crate::text::{decimal, signed_text, trim, trimmed};

verus! {

/// How long an update makes a row shimmer, in nanoseconds.
pub const SUBAGENT_SHIMMER_WINDOW: u64 = 1_000_000_000;

/// A row of the panel.
#[derive(Debug, PartialEq, Eq)]
pub struct SubagentPanelAgent {
    pub ordinal: i32,
    pub name: String,
    pub status: PanelAgentStatus,
    pub is_watchdog: bool,
    pub preview: String,
    pub spawned_at: Instant,
    pub latest_update_at: Instant,
}

/// What the panel shows.
#[derive(Debug, PartialEq, Eq)]
pub struct SubagentPanelState {
    pub started_at: Instant,
    pub total_agents: i32,
    pub running_count: i32,
    pub running_agents: Vec<SubagentPanelAgent>,
}

/// The panel as it is pinned.
#[derive(Debug, PartialEq, Eq)]
pub struct SubagentStatusCell {
    pub state: SubagentPanelState,
    pub motion_mode: MotionMode,
    /// Whether the state takes the place of the one that the panel mounted before shows, or opens a
    /// new panel.
    pub updates_mounted: bool,
}

/// Whether `fmt_elapsed_compact`, handed `secs`, may give back `text`.
pub open spec fn formats<E: Fn(u64) -> String>(
    fmt_elapsed_compact: E,
    secs: nat,
    text: Seq<char>,
) -> bool {
    exists|handed: u64, given: String|
        handed == secs && given@ == text && #[trigger] call_ensures(
            fmt_elapsed_compact,
            (handed,),
            given,
        )
}

/// Whether `fmt_elapsed_compact` takes every number of seconds.
pub open spec fn takes_any_secs<E: Fn(u64) -> String>(fmt_elapsed_compact: E) -> bool {
    forall|secs: u64| #[trigger] call_requires(fmt_elapsed_compact, (secs,))
}

impl Ranked for SubagentPanelAgent {
    open spec fn precedes(self, other: Self) -> bool {
        self.ordinal < other.ordinal
    }

    proof fn asymmetric(a: Self, b: Self) {
    }

    proof fn comparable(a: Self, b: Self, c: Self) {
    }

    fn before(&self, other: &Self) -> (yes: bool) {
        self.ordinal < other.ordinal
    }
}

impl Clone for SubagentPanelAgent {
    fn clone(&self) -> (copy: Self)
        ensures
            copy == *self,
    {
        SubagentPanelAgent {
            ordinal: self.ordinal,
            name: self.name.clone(),
            status: self.status.clone(),
            is_watchdog: self.is_watchdog,
            preview: self.preview.clone(),
            spawned_at: self.spawned_at,
            latest_update_at: self.latest_update_at,
        }
    }
}

impl Clone for SubagentPanelState {
    fn clone(&self) -> (copy: Self)
        ensures
            copy.started_at == self.started_at,
            copy.total_agents == self.total_agents,
            copy.running_count == self.running_count,
            copy.running_agents@ == self.running_agents@,
    {
        let running_agents = self.running_agents.clone();
        assert(running_agents@ =~= self.running_agents@);
        SubagentPanelState {
            started_at: self.started_at,
            total_agents: self.total_agents,
            running_count: self.running_count,
            running_agents,
        }
    }
}

impl Clone for SubagentStatusCell {
    fn clone(&self) -> (copy: Self)
        ensures
            copy.state.started_at == self.state.started_at,
            copy.state.total_agents == self.state.total_agents,
            copy.state.running_count == self.state.running_count,
            copy.state.running_agents@ == self.state.running_agents@,
            copy.motion_mode == self.motion_mode,
            copy.updates_mounted == self.updates_mounted,
    {
        SubagentStatusCell {
            state: self.state.clone(),
            motion_mode: self.motion_mode,
            updates_mounted: self.updates_mounted,
        }
    }
}

/// How many units of preview a row has room for on a terminal of `width` columns.
pub open spec fn preview_budget(width: int) -> int {
    if width - 32 < 40 {
        40
    } else if width - 32 > 160 {
        160
    } else {
        width - 32
    }
}

/// How many units of preview a row has room for on a terminal of `width` columns.
pub fn running_preview_budget(width: u16) -> (budget: usize)
    ensures
        budget == preview_budget(width as int),
{
    let room: usize = (width as usize).saturating_sub(32);
    if room < 40 {
        40
    } else if room > 160 {
        160
    } else {
        room
    }
}

/// The label of a row's status.
pub open spec fn status_label(status: StatusView, is_watchdog: bool) -> SpanView {
    match status {
        StatusView::PendingInit => if is_watchdog {
            painted("idle"@, plain().dim())
        } else {
            painted("running"@, colored(Color::Cyan).bold())
        },
        StatusView::Running => painted("running"@, colored(Color::Cyan).bold()),
        StatusView::Interrupted => painted("interrupted"@, colored(Color::Magenta)),
        StatusView::Completed(_) => painted("completed"@, colored(Color::Green)),
        StatusView::Errored(_) => painted("errored"@, colored(Color::Red)),
        StatusView::Shutdown => painted("shutdown"@, plain().dim()),
        StatusView::NotFound => painted("not found"@, colored(Color::Red)),
    }
}

/// The label of a row's status.
pub fn status_span(agent: &SubagentPanelAgent) -> (label: Span)
    ensures
        label@ == status_label(agent.status@, agent.is_watchdog),
{
    match &agent.status {
        PanelAgentStatus::PendingInit if agent.is_watchdog => span("idle", plain().dim()),
        PanelAgentStatus::PendingInit | PanelAgentStatus::Running => span(
            "running",
            colored(Color::Cyan).bold(),
        ),
        PanelAgentStatus::Interrupted => span("interrupted", colored(Color::Magenta)),
        PanelAgentStatus::Completed(_) => span("completed", colored(Color::Green)),
        PanelAgentStatus::Errored(_) => span("errored", colored(Color::Red)),
        PanelAgentStatus::Shutdown => span("shutdown", plain().dim()),
        PanelAgentStatus::NotFound => span("not found", colored(Color::Red)),
    }
}

/// Whether a row shimmers: the agent runs, is no idle watchdog, and was updated within the window.
pub open spec fn shimmers(agent: SubagentPanelAgent, now: Instant) -> bool {
    &&& agent.status@.is_running()
    &&& !(agent.is_watchdog && agent.status@ is PendingInit)
    &&& now.nanos_after(agent.latest_update_at) <= SUBAGENT_SHIMMER_WINDOW
}

/// Whether a row shimmers.
pub fn should_shimmer(agent: &SubagentPanelAgent, now: Instant) -> (yes: bool)
    ensures
        yes == shimmers(*agent, now),
{
    if agent.is_watchdog && matches!(agent.status, PanelAgentStatus::PendingInit) {
        return false;
    }
    agent.status.is_running() && now.nanos_since(agent.latest_update_at) <= SUBAGENT_SHIMMER_WINDOW
}

/// `count` of a thing named `singular`.
pub open spec fn pluralized(count: int, singular: Seq<char>) -> Seq<char> {
    if count == 1 {
        "1 "@ + singular
    } else {
        decimal(count) + " "@ + singular + "s"@
    }
}

/// `count` of a thing named `singular`.
pub fn subagent_pluralize(count: i32, singular: &str) -> (text: String)
    ensures
        text@ == pluralized(count as int, singular@),
{
    if count == 1 {
        joined("1 ", singular)
    } else {
        let mut text = signed_text(count);
        text.append(" ");
        text.append(singular);
        text.append("s");
        text
    }
}

/// How many agents there are, and how many of them run.
pub open spec fn count_label(total: int, running: int) -> Seq<char> {
    if total <= 0 || running <= 0 {
        "no subagents running"@
    } else if running >= total {
        pluralized(total, "subagent"@) + " running"@
    } else {
        pluralized(total, "subagent"@) + ", "@ + decimal(running) + " running"@
    }
}

/// How many agents there are, and how many of them run.
pub fn subagent_count_label(total: i32, running: i32) -> (label: String)
    ensures
        label@ == count_label(total as int, running as int),
{
    if total <= 0 || running <= 0 {
        return "no subagents running".to_owned();
    }
    let mut label = subagent_pluralize(total, "subagent");
    if running >= total {
        label.append(" running");
        return label;
    }
    label.append(", ");
    label.append(signed_text(running).as_str());
    label.append(" running");
    label
}

/// The header of the panel: how long it has been up, and how many agents it shows.
pub open spec fn header_line(state: SubagentPanelState, elapsed: Seq<char>) -> Seq<SpanView> {
    let total = if state.total_agents >= state.running_count {
        state.total_agents
    } else {
        state.running_count
    };
    let suffix = "("@ + elapsed + " • "@ + count_label(total as int, state.running_count as int)
        + " • esc to interrupt)"@;
    seq![
        painted("• "@, plain().dim()),
        painted("Subagents"@, plain().bold()),
        painted(" "@, plain()),
        painted(suffix, plain().dim()),
    ]
}

/// The row of `agent`: its ordinal, the mark of a watchdog, its name, its status, its age and the
/// preview of its latest activity.
pub open spec fn row_line(
    agent: SubagentPanelAgent,
    elapsed: Seq<char>,
    preview: Seq<char>,
    shimmer: bool,
    motion_mode: MotionMode,
) -> Seq<SpanView> {
    let lead = seq![
        painted("  • "@, plain().dim()),
        painted("[#"@ + decimal(agent.ordinal as int) + "] "@, plain().dim()),
    ];
    let mark = if agent.is_watchdog {
        seq![painted("[watchdog] "@, colored(Color::Magenta).dim())]
    } else {
        Seq::empty()
    };
    let tail = seq![
        painted(agent.name@, plain()),
        painted(" "@, plain()),
        status_label(agent.status@, agent.is_watchdog),
        painted(" · "@ + elapsed, plain().dim()),
        painted(" — "@, plain().dim()),
        if shimmer {
            SpanView { text: preview, paint: Paint::Shimmer(motion_mode) }
        } else {
            painted(preview, plain().dim())
        },
    ];
    lead + mark + tail
}

/// Whether `line` is a header of the panel at `now`.
pub open spec fn shows_header<E: Fn(u64) -> String>(
    fmt_elapsed_compact: E,
    state: SubagentPanelState,
    now: Instant,
    line: Seq<SpanView>,
) -> bool {
    exists|elapsed: Seq<char>|
        line == header_line(state, elapsed) && #[trigger] formats(
            fmt_elapsed_compact,
            now.nanos_after(state.started_at) / NANOS_PER_SEC as nat,
            elapsed,
        )
}

/// Whether `line` is a row of `agent` at `now`, on a terminal of `width` columns.
pub open spec fn shows_row<T: Fn(&str, usize) -> String, E: Fn(u64) -> String>(
    truncate_text: T,
    fmt_elapsed_compact: E,
    agent: SubagentPanelAgent,
    width: u16,
    motion_mode: MotionMode,
    now: Instant,
    line: Seq<SpanView>,
) -> bool {
    exists|elapsed: Seq<char>, preview: Seq<char>|
        line == row_line(agent, elapsed, preview, shimmers(agent, now), motion_mode)
            && #[trigger] formats(
            fmt_elapsed_compact,
            now.nanos_after(agent.spawned_at) / NANOS_PER_SEC as nat,
            elapsed,
        ) && #[trigger] shortens(
            truncate_text,
            trimmed(agent.preview@),
            preview_budget(width as int) as usize,
            preview,
        )
}

/// Whether `lines` are the panel at `now`: nothing where it has no agents, else the header and the
/// rows of the agents by ordinal.
pub open spec fn shows_panel<T: Fn(&str, usize) -> String, E: Fn(u64) -> String>(
    truncate_text: T,
    fmt_elapsed_compact: E,
    cell: SubagentStatusCell,
    width: u16,
    now: Instant,
    lines: Seq<Seq<SpanView>>,
) -> bool {
    let agents = cell.state.running_agents@;
    if agents.len() == 0 {
        lines.len() == 0
    } else {
        &&& lines.len() == agents.len() + 1
        &&& shows_header(fmt_elapsed_compact, cell.state, now, lines[0])
        &&& forall|i: int|
            0 <= i < agents.len() ==> shows_row(
                truncate_text,
                fmt_elapsed_compact,
                #[trigger] by_rank(agents)[i],
                width,
                cell.motion_mode,
                now,
                lines[i + 1],
            )
    }
}

impl SubagentPanelState {
    /// Whether some row shimmers.
    pub open spec fn animates(self, now: Instant) -> bool {
        exists|i: int|
            0 <= i < self.running_agents@.len() && shimmers(#[trigger] self.running_agents@[i], now)
    }

    /// Whether some row shimmers.
    pub fn has_animating_agents(&self, now: Instant) -> (yes: bool)
        ensures
            yes == self.animates(now),
    {
        let mut i: usize = 0;
        while i < self.running_agents.len()
            invariant
                i <= self.running_agents@.len(),
                forall|j: int| 0 <= j < i ==> !shimmers(#[trigger] self.running_agents@[j], now),
            decreases self.running_agents@.len() - i,
        {
            if should_shimmer(&self.running_agents[i], now) {
                return true;
            }
            i += 1;
        }
        false
    }

    fn header<E: Fn(u64) -> String>(&self, now: Instant, fmt_elapsed_compact: &E) -> (line: Line)
        requires
            takes_any_secs(*fmt_elapsed_compact),
        ensures
            shows_header(*fmt_elapsed_compact, *self, now, line@),
    {
        let elapsed = fmt_elapsed_compact(now.secs_since(self.started_at));
        assert(formats(
            *fmt_elapsed_compact,
            now.nanos_after(self.started_at) / NANOS_PER_SEC as nat,
            elapsed@,
        ));
        let total = if self.total_agents >= self.running_count {
            self.total_agents
        } else {
            self.running_count
        };
        let mut suffix = joined("(", elapsed.as_str());
        suffix.append(" • ");
        suffix.append(subagent_count_label(total, self.running_count).as_str());
        suffix.append(" • esc to interrupt)");
        let spans = vec![
            span("• ", plain().dim()),
            span("Subagents", plain().bold()),
            span(" ", plain()),
            span(suffix.as_str(), plain().dim()),
        ];
        assert(span_views(spans@) =~= header_line(*self, elapsed@));
        Line { spans }
    }
}

impl SubagentPanelAgent {
    fn row<T: Fn(&str, usize) -> String, E: Fn(u64) -> String>(
        &self,
        width: u16,
        motion_mode: MotionMode,
        now: Instant,
        truncate_text: &T,
        fmt_elapsed_compact: &E,
    ) -> (line: Line)
        requires
            takes_any_text(*truncate_text),
            takes_any_secs(*fmt_elapsed_compact),
        ensures
            shows_row(
                *truncate_text,
                *fmt_elapsed_compact,
                *self,
                width,
                motion_mode,
                now,
                line@,
            ),
    {
        let preview = truncate_text(trim(self.preview.as_str()), running_preview_budget(width));
        assert(shortens(
            *truncate_text,
            trimmed(self.preview@),
            preview_budget(width as int) as usize,
            preview@,
        ));
        let elapsed = fmt_elapsed_compact(now.secs_since(self.spawned_at));
        assert(formats(
            *fmt_elapsed_compact,
            now.nanos_after(self.spawned_at) / NANOS_PER_SEC as nat,
            elapsed@,
        ));
        let mut number = joined("[#", signed_text(self.ordinal).as_str());
        number.append("] ");
        let mut spans = vec![span("  • ", plain().dim()), span(number.as_str(), plain().dim())];
        if self.is_watchdog {
            spans.push(span("[watchdog] ", colored(Color::Magenta).dim()));
        }
        spans.push(span(self.name.as_str(), plain()));
        spans.push(span(" ", plain()));
        spans.push(status_span(self));
        spans.push(span(joined(" · ", elapsed.as_str()).as_str(), plain().dim()));
        spans.push(span(" — ", plain().dim()));
        let shimmer = should_shimmer(self, now);
        let ghost shown = preview@;
        if shimmer {
            spans.push(Span { content: preview, paint: Paint::Shimmer(motion_mode) });
        } else {
            spans.push(span(preview.as_str(), plain().dim()));
        }
        assert(span_views(spans@) =~= row_line(*self, elapsed@, shown, shimmer, motion_mode));
        Line { spans }
    }
}

impl SubagentStatusCell {
    /// The lines of the panel at `now`, on a terminal of `width` columns.
    pub fn display_lines<T: Fn(&str, usize) -> String, E: Fn(u64) -> String>(
        &self,
        width: u16,
        now: Instant,
        truncate_text: &T,
        fmt_elapsed_compact: &E,
    ) -> (lines: Vec<Line>)
        requires
            takes_any_text(*truncate_text),
            takes_any_secs(*fmt_elapsed_compact),
        ensures
            shows_panel(
                *truncate_text,
                *fmt_elapsed_compact,
                *self,
                width,
                now,
                line_views(lines@),
            ),
    {
        let mut lines: Vec<Line> = Vec::new();
        if self.state.running_agents.is_empty() {
            return lines;
        }
        lines.push(self.state.header(now, fmt_elapsed_compact));
        let unsorted = self.state.running_agents.clone();
        assert(unsorted@ =~= self.state.running_agents@);
        let agents = sort_by_rank(unsorted);
        proof {
            sorting_ranks_the_same_items(self.state.running_agents@);
        }
        let mut i: usize = 0;
        while i < agents.len()
            invariant
                i <= agents@.len(),
                takes_any_text(*truncate_text),
                takes_any_secs(*fmt_elapsed_compact),
                lines@.len() == i + 1,
                shows_header(*fmt_elapsed_compact, self.state, now, lines@[0]@),
                forall|j: int|
                    0 <= j < i ==> shows_row(
                        *truncate_text,
                        *fmt_elapsed_compact,
                        #[trigger] agents@[j],
                        width,
                        self.motion_mode,
                        now,
                        lines@[j + 1]@,
                    ),
            decreases agents@.len() - i,
        {
            lines.push(agents[i].row(width, self.motion_mode, now, truncate_text, fmt_elapsed_compact));
            i += 1;
        }
        lines
    }

    /// The lines of the panel at `now`, on a terminal of unbounded width.
    pub fn raw_lines<T: Fn(&str, usize) -> String, E: Fn(u64) -> String>(
        &self,
        now: Instant,
        truncate_text: &T,
        fmt_elapsed_compact: &E,
    ) -> (lines: Vec<Line>)
        requires
            takes_any_text(*truncate_text),
            takes_any_secs(*fmt_elapsed_compact),
        ensures
            shows_panel(
                *truncate_text,
                *fmt_elapsed_compact,
                *self,
                u16::MAX,
                now,
                line_views(lines@),
            ),
    {
        self.display_lines(u16::MAX, now, truncate_text, fmt_elapsed_compact)
    }

    /// The animation frame at `now`, where anything moves: tenths of a second since the panel
    /// started.
    pub fn transcript_animation_tick(&self, now: Instant) -> (tick: Option<u64>)
        ensures
            match tick {
                Some(tick) => {
                    &&& self.motion_mode != MotionMode::Reduced
                    &&& self.state.animates(now)
                    &&& tick == now.nanos_after(self.state.started_at) / NANOS_PER_TENTH as nat
                },
                None => self.motion_mode == MotionMode::Reduced || !self.state.animates(now),
            },
    {
        if matches!(self.motion_mode, MotionMode::Reduced) {
            return None;
        }
        if !self.state.has_animating_agents(now) {
            return None;
        }
        Some(now.nanos_since(self.state.started_at) / NANOS_PER_TENTH)
    }
}

} // verus!
