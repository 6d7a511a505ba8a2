//! What statuses and agents tell, in terms of what was reported of them.

use vstd::prelude::*;

use crate::agent::{
    derive_subagent_name, prompt_preview, shortens, status_preview, watchdog_role, SubagentInfo,
};
use crate::clock::Instant;
use crate::status::{CollabAgentState, PanelAgentStatus};
use crate::text::{headline, lemma_blank_inside, trimmed};
use crate::text_laws::{a_headline_heads, decimals_read_back, heads, is_core, is_numeral};

verus! {

/// Whether `inner` is `text` without the white space around it.
pub open spec fn cores(text: Seq<char>, inner: Seq<char>) -> bool {
    exists|i: int, j: int| is_core(text, inner, i, j)
}

/// Whether the host's function may have made `short` of the first line of `prompt` that is not blank,
/// within a hundred and twenty units.
pub open spec fn shortened_headline<T: Fn(&str, usize) -> String>(
    truncate_text: T,
    prompt: Seq<char>,
    short: Seq<char>,
) -> bool {
    exists|handed: &str, given: String|
        heads(prompt, handed@) && given@ == short && #[trigger] call_ensures(
            truncate_text,
            (handed, 120usize),
            given,
        )
}

/// Whether the host's function may have made `short` of a message, without the white space around it,
/// within a hundred and sixty units.
pub open spec fn shortened_message<T: Fn(&str, usize) -> String>(
    truncate_text: T,
    message: Seq<char>,
    short: Seq<char>,
) -> bool {
    exists|handed: &str, given: String|
        cores(message, handed@) && given@ == short && #[trigger] call_ensures(
            truncate_text,
            (handed, 160usize),
            given,
        )
}

/// Whether the host's function may have made `short` of what an activity says of itself, within a hundred
/// and sixty units.
pub open spec fn shortened_activity<T: Fn(&str, usize) -> String>(
    truncate_text: T,
    activity: Seq<char>,
    short: Seq<char>,
) -> bool {
    exists|handed: &str, given: String|
        handed@ == activity && given@ == short && #[trigger] call_ensures(
            truncate_text,
            (handed, 160usize),
            given,
        )
}

/// Shortening the headline of a prompt shortens what heads the prompt.
pub proof fn lemma_shortened_headline<T: Fn(&str, usize) -> String>(
    truncate_text: T,
    prompt: Seq<char>,
    short: Seq<char>,
)
    requires
        shortens(truncate_text, headline(prompt), 120, short),
    ensures
        shortened_headline(truncate_text, prompt, short),
{
    a_headline_heads(prompt);
    let (handed, given) = choose|handed: &str, given: String|
        handed@ == headline(prompt) && given@ == short && #[trigger] call_ensures(
            truncate_text,
            (handed, 120usize),
            given,
        );
    assert(call_ensures(truncate_text, (handed, 120usize), given));
}

/// Shortening a trimmed message shortens its core.
pub proof fn lemma_shortened_message<T: Fn(&str, usize) -> String>(
    truncate_text: T,
    message: Seq<char>,
    short: Seq<char>,
)
    requires
        shortens(truncate_text, trimmed(message), 160, short),
    ensures
        shortened_message(truncate_text, message, short),
{
    let (i, j) = lemma_blank_inside(message);
    assert(is_core(message, trimmed(message), i, j));
    let (handed, given) = choose|handed: &str, given: String|
        handed@ == trimmed(message) && given@ == short && #[trigger] call_ensures(
            truncate_text,
            (handed, 160usize),
            given,
        );
    assert(call_ensures(truncate_text, (handed, 160usize), given));
}

/// Shortening what an activity says hands just that over.
pub proof fn lemma_shortened_activity<T: Fn(&str, usize) -> String>(
    truncate_text: T,
    activity: Seq<char>,
    short: Seq<char>,
)
    requires
        shortens(truncate_text, activity, 160, short),
    ensures
        shortened_activity(truncate_text, activity, short),
{
    let (handed, given) = choose|handed: &str, given: String|
        handed@ == activity && given@ == short && #[trigger] call_ensures(
            truncate_text,
            (handed, 160usize),
            given,
        );
    assert(call_ensures(truncate_text, (handed, 160usize), given));
}

/// Whether two statuses are of one kind and carry the same words.
pub open spec fn alike(one: PanelAgentStatus, two: PanelAgentStatus) -> bool {
    match (one, two) {
        (PanelAgentStatus::PendingInit, PanelAgentStatus::PendingInit) => true,
        (PanelAgentStatus::Running, PanelAgentStatus::Running) => true,
        (PanelAgentStatus::Interrupted, PanelAgentStatus::Interrupted) => true,
        (PanelAgentStatus::Completed(a), PanelAgentStatus::Completed(b)) => match (a, b) {
            (Some(a), Some(b)) => a@ == b@,
            (None, None) => true,
            _ => false,
        },
        (PanelAgentStatus::Errored(a), PanelAgentStatus::Errored(b)) => a@ == b@,
        (PanelAgentStatus::Shutdown, PanelAgentStatus::Shutdown) => true,
        (PanelAgentStatus::NotFound, PanelAgentStatus::NotFound) => true,
        _ => false,
    }
}

/// The views of two statuses are the same exactly when the statuses are alike.
pub proof fn statuses_are_told_apart(one: PanelAgentStatus, two: PanelAgentStatus)
    ensures
        one@ == two@ <==> alike(one, two),
{
}

/// Whether `status` says of an agent what was reported of it. An error has a message in any case.
pub open spec fn stands_for(state: CollabAgentState, status: PanelAgentStatus) -> bool {
    match status {
        PanelAgentStatus::PendingInit => state.status is PendingInit,
        PanelAgentStatus::Running => state.status is Running,
        PanelAgentStatus::Interrupted => state.status is Interrupted,
        PanelAgentStatus::Completed(Some(text)) => state.status is Completed && state.message is Some
            && state.message->0@ == text@,
        PanelAgentStatus::Completed(None) => state.status is Completed && state.message is None,
        PanelAgentStatus::Errored(text) => state.status is Errored && if state.message is Some {
            state.message->0@ == text@
        } else {
            text@ == "Agent failed"@
        },
        PanelAgentStatus::Shutdown => state.status is Shutdown,
        PanelAgentStatus::NotFound => state.status is NotFound,
    }
}

/// A reported state becomes the status that stands for it.
pub proof fn a_report_keeps_what_it_says(state: CollabAgentState, status: PanelAgentStatus)
    requires
        call_ensures(PanelAgentStatus::from_collab_state, (&state,), status),
    ensures
        stands_for(state, status),
{
}

/// Whether an agent of this status is starting or at work.
pub open spec fn goes_on(status: PanelAgentStatus) -> bool {
    status is PendingInit || status is Running
}

/// An agent runs while it is starting or at work, and in no other state.
pub proof fn agents_run_until_they_end(status: PanelAgentStatus, running: bool)
    requires
        call_ensures(PanelAgentStatus::is_running, (&status,), running),
    ensures
        running <==> goes_on(status),
{
}

/// Whether a role is that of a watchdog.
pub open spec fn guards(role: Option<String>) -> bool {
    role is Some && role->0@ == "watchdog"@
}

/// Only the role of that name makes a watchdog.
pub proof fn the_role_makes_the_watchdog(role: Option<String>, yes: bool)
    requires
        call_ensures(watchdog_role, (&role,), yes),
    ensures
        yes <==> guards(role),
{
}

/// A watchdog is told by its role; an agent is visible while it goes on, and counts as running unless it is
/// a watchdog that has only been started.
pub proof fn visible_agents_run_but_for_idle_watchdogs(
    info: SubagentInfo,
    watchdog: bool,
    visible: bool,
    running: bool,
)
    requires
        call_ensures(SubagentInfo::is_watchdog, (&info,), watchdog),
        call_ensures(SubagentInfo::is_visible_in_panel, (&info,), visible),
        call_ensures(SubagentInfo::is_running_for_panel, (&info,), running),
    ensures
        watchdog <==> guards(info.role),
        visible <==> goes_on(info.status),
        running <==> visible && !(watchdog && info.status is PendingInit),
{
}

/// The preview of a prompt is made of the line that heads it.
pub proof fn a_prompt_is_previewed_by_its_headline<T: Fn(&str, usize) -> String>(
    prompt: &str,
    truncate_text: T,
    preview: String,
)
    requires
        call_ensures(prompt_preview::<T>, (prompt, &truncate_text), preview),
    ensures
        shortened_headline(truncate_text, prompt@, preview@),
{
    lemma_shortened_headline(truncate_text, prompt@, preview@);
}

/// Whether `name` may be made of a prompt: what is left of its headline, or a number where nothing is.
pub open spec fn names<T: Fn(&str, usize) -> String>(
    truncate_text: T,
    prompt: Seq<char>,
    ordinal: int,
    name: Seq<char>,
) -> bool {
    ||| name.len() > 0 && shortened_headline(truncate_text, prompt, name)
    ||| {
        &&& shortened_headline(truncate_text, prompt, Seq::empty())
        &&& "agent-"@.len() < name.len()
        &&& name.take("agent-"@.len() as int) == "agent-"@
        &&& ordinal >= 0 ==> is_numeral(name.skip("agent-"@.len() as int), ordinal)
        &&& ordinal < 0 ==> name["agent-"@.len() as int] == '-' && is_numeral(
            name.skip("agent-"@.len() as int).skip(1),
            -ordinal,
        )
    }
}

/// A name that is derived from a prompt names it.
pub proof fn lemma_names<T: Fn(&str, usize) -> String>(
    truncate_text: T,
    prompt: Seq<char>,
    ordinal: int,
    name: Seq<char>,
)
    requires
        crate::agent::derives_name(truncate_text, prompt, ordinal, name),
    ensures
        names(truncate_text, prompt, ordinal, name),
{
    if name.len() > 0 && shortens(truncate_text, headline(prompt), 120, name) {
        lemma_shortened_headline(truncate_text, prompt, name);
    } else {
        lemma_shortened_headline(truncate_text, prompt, Seq::empty());
        decimals_read_back(ordinal);
        assert(name.take("agent-"@.len() as int) =~= "agent-"@);
        assert(name.skip("agent-"@.len() as int) =~= crate::text::decimal(ordinal));
    }
}

/// An agent without a nickname is named after its prompt, or by its number where the prompt gives nothing.
pub proof fn a_prompt_gives_the_name<T: Fn(&str, usize) -> String>(
    prompt: &str,
    ordinal: i32,
    truncate_text: T,
    name: String,
)
    requires
        call_ensures(derive_subagent_name::<T>, (prompt, ordinal, &truncate_text), name),
    ensures
        names(truncate_text, prompt@, ordinal as int, name@),
        name@.len() > 0,
{
    lemma_names(truncate_text, prompt@, ordinal as int, name@);
    if ordinal < 0 {
        decimals_read_back(ordinal as int);
    }
}

/// Whether `preview` may be what the end of an agent has to say.
pub open spec fn says<T: Fn(&str, usize) -> String>(
    truncate_text: T,
    status: PanelAgentStatus,
    preview: Seq<char>,
) -> bool {
    match status {
        PanelAgentStatus::PendingInit => false,
        PanelAgentStatus::Running => false,
        PanelAgentStatus::Interrupted => preview == "interrupted"@,
        PanelAgentStatus::Completed(Some(message)) => shortened_message(
            truncate_text,
            message@,
            preview,
        ),
        PanelAgentStatus::Completed(None) => preview == "completed"@,
        PanelAgentStatus::Errored(message) => shortened_message(truncate_text, message@, preview),
        PanelAgentStatus::Shutdown => preview == "shutdown"@,
        PanelAgentStatus::NotFound => preview == "not found"@,
    }
}

/// What a status previews is what it has to say.
pub proof fn lemma_says<T: Fn(&str, usize) -> String>(
    truncate_text: T,
    status: PanelAgentStatus,
    preview: Seq<char>,
)
    requires
        crate::agent::previews_status(truncate_text, status@, Some(preview)),
    ensures
        says(truncate_text, status, preview),
{
    match status {
        PanelAgentStatus::Completed(Some(message)) => {
            lemma_shortened_message(truncate_text, message@, preview);
        },
        PanelAgentStatus::Errored(message) => {
            lemma_shortened_message(truncate_text, message@, preview);
        },
        _ => {},
    }
}

/// An agent that goes on has nothing to say of its end, and one that has ended has.
pub proof fn an_end_has_something_to_say<T: Fn(&str, usize) -> String>(
    status: PanelAgentStatus,
    truncate_text: T,
    preview: Option<String>,
)
    requires
        call_ensures(status_preview::<T>, (&status, &truncate_text), preview),
    ensures
        preview is None <==> goes_on(status),
        preview is Some ==> says(truncate_text, status, preview->0@),
{
    if preview is Some {
        lemma_says(truncate_text, status, preview->0@);
    }
}

/// Whether `info` shows `status` since `now`: the prompt while the agent goes on, else what its end has to
/// say.
pub open spec fn tells<T: Fn(&str, usize) -> String>(
    truncate_text: T,
    info: SubagentInfo,
    status: PanelAgentStatus,
    now: Instant,
) -> bool {
    &&& alike(info.status, status)
    &&& info.latest_update_at == now
    &&& if goes_on(status) {
        info.latest_preview@ == info.prompt_preview@
    } else {
        says(truncate_text, status, info.latest_preview@)
    }
}

/// An agent that shows a status tells it.
pub proof fn lemma_tells<T: Fn(&str, usize) -> String>(
    truncate_text: T,
    info: SubagentInfo,
    status: PanelAgentStatus,
    now: Instant,
)
    requires
        crate::agent::shows_status(truncate_text, status@, now, info),
    ensures
        tells(truncate_text, info, status, now),
{
    statuses_are_told_apart(info.status, status);
    if !goes_on(status) {
        lemma_says(truncate_text, status, info.latest_preview@);
    }
}

/// A new agent is what it was registered with: starting, and previewed by its prompt.
pub proof fn a_new_agent_is_starting<T: Fn(&str, usize) -> String>(
    ordinal: i32,
    name: String,
    role: Option<String>,
    prompt: &str,
    now: Instant,
    truncate_text: T,
    info: SubagentInfo,
)
    requires
        call_ensures(
            SubagentInfo::new::<T>,
            (ordinal, name, role, prompt, now, &truncate_text),
            info,
        ),
    ensures
        info.ordinal == ordinal,
        info.name@ == name@,
        info.role == role,
        info.status is PendingInit,
        info.spawned_at == now,
        info.latest_update_at == now,
        info.latest_preview@ == info.prompt_preview@,
        shortened_headline(truncate_text, prompt@, info.prompt_preview@),
{
    lemma_shortened_headline(truncate_text, prompt@, info.prompt_preview@);
}

/// A new status changes what an agent tells, and not who it is.
pub proof fn a_status_changes_what_an_agent_tells<T: Fn(&str, usize) -> String>(
    info: &mut SubagentInfo,
    status: PanelAgentStatus,
    now: Instant,
    truncate_text: T,
)
    requires
        call_ensures(SubagentInfo::update_status::<T>, (info, status, now, &truncate_text), ()),
    ensures
        tells(truncate_text, *final(info), status, now),
        final(info).ordinal == old(info).ordinal,
        final(info).name@ == old(info).name@,
        final(info).role == old(info).role,
        final(info).prompt_preview@ == old(info).prompt_preview@,
        final(info).spawned_at == old(info).spawned_at,
{
    lemma_tells(truncate_text, *final(info), status, now);
}

/// An activity changes when an agent was last heard of and what of, and nothing else.
pub proof fn an_activity_changes_the_preview<T: Fn(&str, usize) -> String>(
    info: &mut SubagentInfo,
    preview: String,
    now: Instant,
    truncate_text: T,
)
    requires
        call_ensures(SubagentInfo::note_activity::<T>, (info, preview, now, &truncate_text), ()),
    ensures
        final(info).latest_update_at == now,
        preview@.len() == 0 ==> final(info).latest_preview@ == old(info).latest_preview@,
        preview@.len() > 0 ==> shortened_activity(
            truncate_text,
            preview@,
            final(info).latest_preview@,
        ),
        final(info).ordinal == old(info).ordinal,
        final(info).name@ == old(info).name@,
        final(info).role == old(info).role,
        final(info).status == old(info).status,
        final(info).prompt_preview@ == old(info).prompt_preview@,
        final(info).spawned_at == old(info).spawned_at,
{
    if preview@.len() > 0 {
        lemma_shortened_activity(truncate_text, preview@, final(info).latest_preview@);
    }
}

} // verus!
