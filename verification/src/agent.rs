//! What the panel knows of one agent, and the previews it shows of it.
//!
//! Shortening a text to a budget is the host's business: a function that shortens texts takes the
//! host's `truncate_text`, and its contract speaks of what that function was handed and gave back.

use vstd::prelude::*;
use vstd::string::*;

use crate::clock::Instant;
use crate::status::{PanelAgentStatus, StatusView};
use crate::text::{
    decimal, first_line, headline, opt_text, same_text, signed_text, trim, trimmed,
};

verus! {

/// The budget of the preview of an agent's prompt.
pub const SUBAGENT_PROMPT_PREVIEW_BUDGET: usize = 120;

/// The budget of the preview of an agent's latest activity.
pub const SUBAGENT_UPDATE_PREVIEW_BUDGET: usize = 160;

/// Whether `truncate_text`, handed `text` and `budget`, may give back `short`.
pub open spec fn shortens<T: Fn(&str, usize) -> String>(
    truncate_text: T,
    text: Seq<char>,
    budget: usize,
    short: Seq<char>,
) -> bool {
    exists|handed: &str, given: String|
        handed@ == text && given@ == short && #[trigger] call_ensures(
            truncate_text,
            (handed, budget),
            given,
        )
}

/// Whether `truncate_text` takes every text and budget.
pub open spec fn takes_any_text<T: Fn(&str, usize) -> String>(truncate_text: T) -> bool {
    forall|text: &str, budget: usize| #[trigger] call_requires(truncate_text, (text, budget))
}

/// Whether a role is that of a watchdog.
pub open spec fn is_watchdog_role(role: Option<Seq<char>>) -> bool {
    role == Some("watchdog"@)
}

/// Whether a role is that of a watchdog.
pub fn watchdog_role(role: &Option<String>) -> (yes: bool)
    ensures
        yes == is_watchdog_role(opt_text(*role)),
{
    match role {
        Some(role) => same_text(role.as_str(), "watchdog"),
        None => false,
    }
}

/// Whether `name` may be the name that is derived from an agent's prompt: the preview of the prompt,
/// or a numbered name where the preview is empty.
pub open spec fn derives_name<T: Fn(&str, usize) -> String>(
    truncate_text: T,
    prompt: Seq<char>,
    ordinal: int,
    name: Seq<char>,
) -> bool {
    ||| name.len() > 0 && shortens(
        truncate_text,
        headline(prompt),
        SUBAGENT_PROMPT_PREVIEW_BUDGET,
        name,
    )
    ||| name == "agent-"@ + decimal(ordinal) && shortens(
        truncate_text,
        headline(prompt),
        SUBAGENT_PROMPT_PREVIEW_BUDGET,
        Seq::empty(),
    )
}

/// Whether `preview` may be what a status has to say: nothing while the agent runs, its message,
/// trimmed and shortened, where it has one, and the name of the status otherwise.
pub open spec fn previews_status<T: Fn(&str, usize) -> String>(
    truncate_text: T,
    status: StatusView,
    preview: Option<Seq<char>>,
) -> bool {
    match status {
        StatusView::Completed(Some(message)) => preview is Some && shortens(
            truncate_text,
            trimmed(message),
            SUBAGENT_UPDATE_PREVIEW_BUDGET,
            preview->0,
        ),
        StatusView::Errored(message) => preview is Some && shortens(
            truncate_text,
            trimmed(message),
            SUBAGENT_UPDATE_PREVIEW_BUDGET,
            preview->0,
        ),
        StatusView::Completed(None) => preview == Some("completed"@),
        StatusView::Interrupted => preview == Some("interrupted"@),
        StatusView::Shutdown => preview == Some("shutdown"@),
        StatusView::NotFound => preview == Some("not found"@),
        StatusView::PendingInit => preview is None,
        StatusView::Running => preview is None,
    }
}

/// The first line of a prompt that is not blank, trimmed and shortened.
pub fn prompt_preview<T: Fn(&str, usize) -> String>(prompt: &str, truncate_text: &T) -> (preview:
    String)
    requires
        takes_any_text(*truncate_text),
    ensures
        shortens(
            *truncate_text,
            headline(prompt@),
            SUBAGENT_PROMPT_PREVIEW_BUDGET,
            preview@,
        ),
{
    truncate_text(first_line(prompt), SUBAGENT_PROMPT_PREVIEW_BUDGET)
}

/// The name of an agent that has no nickname.
pub fn derive_subagent_name<T: Fn(&str, usize) -> String>(
    prompt: &str,
    ordinal: i32,
    truncate_text: &T,
) -> (name: String)
    requires
        takes_any_text(*truncate_text),
    ensures
        derives_name(*truncate_text, prompt@, ordinal as int, name@),
{
    let preview = prompt_preview(prompt, truncate_text);
    if preview.as_str().is_empty() {
        assert(preview@ == Seq::<char>::empty());
        let mut name = "agent-".to_owned();
        name.append(signed_text(ordinal).as_str());
        return name;
    }
    preview
}

/// What a status has to say of itself.
pub fn status_preview<T: Fn(&str, usize) -> String>(
    status: &PanelAgentStatus,
    truncate_text: &T,
) -> (preview: Option<String>)
    requires
        takes_any_text(*truncate_text),
    ensures
        previews_status(*truncate_text, status@, opt_text(preview)),
{
    match status {
        PanelAgentStatus::Completed(Some(message)) | PanelAgentStatus::Errored(message) => Some(
            truncate_text(trim(message.as_str()), SUBAGENT_UPDATE_PREVIEW_BUDGET),
        ),
        PanelAgentStatus::Completed(None) => Some("completed".to_owned()),
        PanelAgentStatus::Interrupted => Some("interrupted".to_owned()),
        PanelAgentStatus::Shutdown => Some("shutdown".to_owned()),
        PanelAgentStatus::NotFound => Some("not found".to_owned()),
        PanelAgentStatus::PendingInit | PanelAgentStatus::Running => None,
    }
}

/// What the panel knows of one agent.
#[derive(Debug)]
pub struct SubagentInfo {
    pub ordinal: i32,
    pub name: String,
    pub role: Option<String>,
    pub prompt_preview: String,
    pub status: PanelAgentStatus,
    pub spawned_at: Instant,
    pub latest_preview: String,
    pub latest_update_at: Instant,
}

/// Whether `info` is what a new agent is registered as.
pub open spec fn registers<T: Fn(&str, usize) -> String>(
    truncate_text: T,
    ordinal: i32,
    prompt: Seq<char>,
    now: Instant,
    info: SubagentInfo,
) -> bool {
    &&& info.ordinal == ordinal
    &&& shortens(
        truncate_text,
        headline(prompt),
        SUBAGENT_PROMPT_PREVIEW_BUDGET,
        info.prompt_preview@,
    )
    &&& info.spawned_at == now
}

/// Whether both are of the same agent: same ordinal, same prompt, same birth.
pub open spec fn same_agent(before: SubagentInfo, after: SubagentInfo) -> bool {
    &&& after.ordinal == before.ordinal
    &&& after.prompt_preview == before.prompt_preview
    &&& after.spawned_at == before.spawned_at
}

/// Whether `info` has the status `status`, taken at `now`, and previews it: what the status has to
/// say of itself, or the prompt where it says nothing.
pub open spec fn shows_status<T: Fn(&str, usize) -> String>(
    truncate_text: T,
    status: StatusView,
    now: Instant,
    info: SubagentInfo,
) -> bool {
    &&& info.status@ == status
    &&& info.latest_update_at == now
    &&& if status.is_running() {
        info.latest_preview@ == info.prompt_preview@
    } else {
        previews_status(truncate_text, status, Some(info.latest_preview@))
    }
}

/// Whether `after` is `before` with its status updated.
pub open spec fn status_updated<T: Fn(&str, usize) -> String>(
    truncate_text: T,
    before: SubagentInfo,
    status: StatusView,
    now: Instant,
    after: SubagentInfo,
) -> bool {
    &&& same_agent(before, after)
    &&& after.name == before.name
    &&& after.role == before.role
    &&& shows_status(truncate_text, status, now, after)
}

/// Whether `after` is `before` with an activity noted: the preview of the activity, shortened, or
/// the old one where the activity has none.
pub open spec fn activity_noted<T: Fn(&str, usize) -> String>(
    truncate_text: T,
    before: SubagentInfo,
    preview: Seq<char>,
    now: Instant,
    after: SubagentInfo,
) -> bool {
    &&& same_agent(before, after)
    &&& after.status == before.status
    &&& after.latest_update_at == now
    &&& if preview.len() == 0 {
        after.latest_preview == before.latest_preview
    } else {
        shortens(truncate_text, preview, SUBAGENT_UPDATE_PREVIEW_BUDGET, after.latest_preview@)
    }
}

impl SubagentInfo {
    /// Whether the agent is a watchdog.
    pub open spec fn watches(self) -> bool {
        is_watchdog_role(opt_text(self.role))
    }

    /// Whether the agent counts as running. A watchdog that has only been started is idle.
    pub open spec fn counts_as_running(self) -> bool {
        if self.watches() {
            self.status@ is Running
        } else {
            self.status@.is_running()
        }
    }

    /// A newly registered agent.
    pub fn new<T: Fn(&str, usize) -> String>(
        ordinal: i32,
        name: String,
        role: Option<String>,
        prompt: &str,
        now: Instant,
        truncate_text: &T,
    ) -> (info: Self)
        requires
            takes_any_text(*truncate_text),
        ensures
            registers(*truncate_text, ordinal, prompt@, now, info),
            info.name == name,
            info.role == role,
            info.status == PanelAgentStatus::PendingInit,
            info.latest_preview == info.prompt_preview,
            info.latest_update_at == now,
    {
        let preview = prompt_preview(prompt, truncate_text);
        SubagentInfo {
            ordinal,
            name,
            role,
            prompt_preview: preview.clone(),
            status: PanelAgentStatus::PendingInit,
            spawned_at: now,
            latest_preview: preview,
            latest_update_at: now,
        }
    }

    /// Whether the agent is a watchdog.
    pub fn is_watchdog(&self) -> (yes: bool)
        ensures
            yes == self.watches(),
    {
        watchdog_role(&self.role)
    }

    /// Whether the panel has a row for the agent.
    pub fn is_visible_in_panel(&self) -> (visible: bool)
        ensures
            visible == self.status@.is_running(),
    {
        self.status.is_running()
    }

    /// Whether the agent counts as running.
    pub fn is_running_for_panel(&self) -> (running: bool)
        ensures
            running == self.counts_as_running(),
    {
        if self.is_watchdog() {
            return matches!(self.status, PanelAgentStatus::Running);
        }
        self.status.is_running()
    }

    /// Gives the agent a new status.
    pub fn update_status<T: Fn(&str, usize) -> String>(
        &mut self,
        status: PanelAgentStatus,
        now: Instant,
        truncate_text: &T,
    )
        requires
            takes_any_text(*truncate_text),
        ensures
            status_updated(*truncate_text, *old(self), status@, now, *final(self)),
            final(self).status == status,
    {
        let preview = status_preview(&status, truncate_text);
        self.latest_preview = match preview {
            Some(preview) => preview,
            None => self.prompt_preview.clone(),
        };
        self.status = status;
        self.latest_update_at = now;
    }

    /// Notes that the agent has been active.
    pub fn note_activity<T: Fn(&str, usize) -> String>(
        &mut self,
        preview: String,
        now: Instant,
        truncate_text: &T,
    )
        requires
            takes_any_text(*truncate_text),
        ensures
            activity_noted(*truncate_text, *old(self), preview@, now, *final(self)),
            final(self).name == old(self).name,
            final(self).role == old(self).role,
    {
        if !preview.as_str().is_empty() {
            self.latest_preview = truncate_text(preview.as_str(), SUBAGENT_UPDATE_PREVIEW_BUDGET);
        }
        self.latest_update_at = now;
    }
}

} // verus!
