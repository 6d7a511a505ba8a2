//! What holds of the registry over several calls.

use vstd::prelude::*;

use crate::agent::{is_watchdog_role, same_agent};
use crate::clock::Instant;
use crate::registry::{
    active, clamped, lemma_filter_all, lemma_filter_distinct, lemma_filter_filter, liveness_applied,
    other_than, restated, spawned, RegistryView,
};
use crate::sort::lemma_filter_push;
use crate::status::StatusView;

verus! {

/// An agent that is spawned again stays the agent it was, in the place it had.
pub proof fn a_respawn_keeps_the_agent<T: Fn(&str, usize) -> String>(
    truncate_text: T,
    before: RegistryView,
    thread: Seq<char>,
    nickname: Option<Seq<char>>,
    role: Option<Seq<char>>,
    prompt: Seq<char>,
    status: StatusView,
    now: Instant,
    after: RegistryView,
)
    requires
        before.wf(),
        before.agents.contains_key(thread),
        spawned(truncate_text, before, thread, nickname, role, prompt, status, now, after),
    ensures
        same_agent(before.agents[thread], after.agents[thread]),
        after.order == (if is_watchdog_role(role) {
            before.pruned(thread).order
        } else {
            before.order
        }),
{
}

/// An agent that is seen again stays the agent it was, in the place it had.
pub proof fn an_activity_keeps_the_agent<T: Fn(&str, usize) -> String>(
    truncate_text: T,
    before: RegistryView,
    thread: Seq<char>,
    agent_path: Seq<char>,
    nickname: Option<Seq<char>>,
    role: Option<Seq<char>>,
    preview: Seq<char>,
    now: Instant,
    after: RegistryView,
)
    requires
        before.wf(),
        before.agents.contains_key(thread),
        active(truncate_text, before, thread, agent_path, nickname, role, preview, now, after),
    ensures
        same_agent(before.agents[thread], after.agents[thread]),
        after.agents[thread].status == before.agents[thread].status,
        after.order == before.order,
{
}

/// A new agent that is no watchdog comes last and is numbered next.
pub proof fn a_spawn_is_numbered_next<T: Fn(&str, usize) -> String>(
    truncate_text: T,
    before: RegistryView,
    thread: Seq<char>,
    nickname: Option<Seq<char>>,
    role: Option<Seq<char>>,
    prompt: Seq<char>,
    status: StatusView,
    now: Instant,
    after: RegistryView,
)
    requires
        before.wf(),
        !before.agents.contains_key(thread),
        !is_watchdog_role(role),
        spawned(truncate_text, before, thread, nickname, role, prompt, status, now, after),
    ensures
        after.order == before.order.push(thread),
        after.agents[thread].ordinal == clamped(before.order.len() as int + 1),
        after.agents[thread].spawned_at == now,
{
}

/// An agent that is first seen by its activity comes last and is numbered next.
pub proof fn an_activity_is_numbered_next<T: Fn(&str, usize) -> String>(
    truncate_text: T,
    before: RegistryView,
    thread: Seq<char>,
    agent_path: Seq<char>,
    nickname: Option<Seq<char>>,
    role: Option<Seq<char>>,
    preview: Seq<char>,
    now: Instant,
    after: RegistryView,
)
    requires
        before.wf(),
        !before.agents.contains_key(thread),
        active(truncate_text, before, thread, agent_path, nickname, role, preview, now, after),
    ensures
        after.order == before.order.push(thread),
        after.agents[thread].ordinal == clamped(before.order.len() as int + 1),
        after.agents[thread].spawned_at == now,
        after.agents[thread].status@ == StatusView::PendingInit,
{
}

/// Where a watchdog is spawned it is the only watchdog, and the other agents are left alone.
pub proof fn one_watchdog_remains<T: Fn(&str, usize) -> String>(
    truncate_text: T,
    before: RegistryView,
    thread: Seq<char>,
    nickname: Option<Seq<char>>,
    role: Option<Seq<char>>,
    prompt: Seq<char>,
    status: StatusView,
    now: Instant,
    after: RegistryView,
)
    requires
        before.wf(),
        is_watchdog_role(role),
        spawned(truncate_text, before, thread, nickname, role, prompt, status, now, after),
    ensures
        after.agents.contains_key(thread),
        forall|t: Seq<char>| #[trigger]
            after.agents.contains_key(t) ==> (after.agents[t].watches() <==> t == thread),
        forall|t: Seq<char>| #[trigger]
            before.agents.contains_key(t) && t != thread && !before.agents[t].watches()
                ==> after.agents.contains_key(t) && after.agents[t] == before.agents[t],
{
    let base = before.pruned(thread);
    assert forall|t: Seq<char>| #[trigger] after.agents.contains_key(t) implies (
    after.agents[t].watches() <==> t == thread) by {
        if t != thread {
            assert(base.agents.contains_key(t));
            assert(!before.superseded(thread, t));
        }
    }
    assert forall|t: Seq<char>| #[trigger]
        before.agents.contains_key(t) && t != thread && !before.agents[t].watches() implies (
    after.agents.contains_key(t) && after.agents[t] == before.agents[t]) by {
        assert(!before.superseded(thread, t));
        assert(base.agents.contains_key(t));
    }
}

/// Closing the agent that was tracked last gives back what was tracked before it.
proof fn lemma_closing_undoes_tracking(
    before: RegistryView,
    thread: Seq<char>,
    after: RegistryView,
)
    requires
        before.wf(),
        !before.agents.contains_key(thread),
        after == before.tracking(thread, after.agents[thread]),
    ensures
        after.closed(thread) == before,
{
    assert(after.agents.remove(thread) =~= before.agents);
    lemma_filter_push(before.order, thread, other_than(thread));
    assert forall|i: int| 0 <= i < before.order.len() implies other_than(thread)(
        #[trigger] before.order[i],
    ) by {
        assert(before.order.contains(before.order[i]));
    }
    lemma_filter_all(before.order, other_than(thread));
    assert(after.closed(thread) =~= before);
}

/// Closing undoes the spawn of a new agent, other than of a watchdog.
pub proof fn closing_undoes_a_spawn<T: Fn(&str, usize) -> String>(
    truncate_text: T,
    before: RegistryView,
    thread: Seq<char>,
    nickname: Option<Seq<char>>,
    role: Option<Seq<char>>,
    prompt: Seq<char>,
    status: StatusView,
    now: Instant,
    after: RegistryView,
)
    requires
        before.wf(),
        !before.agents.contains_key(thread),
        !is_watchdog_role(role),
        spawned(truncate_text, before, thread, nickname, role, prompt, status, now, after),
    ensures
        after.closed(thread) == before,
{
    lemma_closing_undoes_tracking(before, thread, after);
}

/// Closing undoes the activity by which an agent was first seen.
pub proof fn closing_undoes_an_activity<T: Fn(&str, usize) -> String>(
    truncate_text: T,
    before: RegistryView,
    thread: Seq<char>,
    agent_path: Seq<char>,
    nickname: Option<Seq<char>>,
    role: Option<Seq<char>>,
    preview: Seq<char>,
    now: Instant,
    after: RegistryView,
)
    requires
        before.wf(),
        !before.agents.contains_key(thread),
        active(truncate_text, before, thread, agent_path, nickname, role, preview, now, after),
    ensures
        after.closed(thread) == before,
{
    lemma_closing_undoes_tracking(before, thread, after);
}

/// A closed agent is tracked no more, and closing it again changes nothing.
pub proof fn closing_once_is_enough(registry: RegistryView, thread: Seq<char>)
    requires
        registry.wf(),
    ensures
        !registry.closed(thread).agents.contains_key(thread),
        !registry.closed(thread).order.contains(thread),
        registry.closed(thread).closed(thread) == registry.closed(thread),
{
    let once = registry.closed(thread);
    lemma_filter_distinct(registry.order, other_than(thread));
    lemma_filter_filter(registry.order, other_than(thread), other_than(thread), other_than(thread));
    assert(once.agents.remove(thread) =~= once.agents);
    assert(once.closed(thread) =~= once);
}

/// Closing leaves the other agents alone.
pub proof fn closing_leaves_the_others(
    registry: RegistryView,
    thread: Seq<char>,
    other: Seq<char>,
)
    requires
        registry.wf(),
        other != thread,
        registry.agents.contains_key(other),
    ensures
        registry.closed(thread).agents.contains_key(other),
        registry.closed(thread).agents[other] == registry.agents[other],
        registry.closed(thread).order.contains(other),
{
    lemma_filter_distinct(registry.order, other_than(thread));
}

/// In which order two agents are closed makes no difference.
pub proof fn closings_commute(registry: RegistryView, one: Seq<char>, two: Seq<char>)
    requires
        registry.wf(),
    ensures
        registry.closed(one).closed(two) == registry.closed(two).closed(one),
{
    let neither = |t: Seq<char>| t != one && t != two;
    lemma_filter_filter(registry.order, other_than(one), other_than(two), neither);
    lemma_filter_filter(registry.order, other_than(two), other_than(one), neither);
    assert(registry.agents.remove(one).remove(two) =~= registry.agents.remove(two).remove(one));
    assert(registry.closed(one).closed(two) =~= registry.closed(two).closed(one));
}

/// What is reported of a thread that is not tracked changes nothing.
pub proof fn an_unknown_thread_changes_nothing<T: Fn(&str, usize) -> String>(
    truncate_text: T,
    before: RegistryView,
    thread: Seq<char>,
    status: StatusView,
    running: bool,
    now: Instant,
    restated_after: RegistryView,
    liveness_after: RegistryView,
)
    requires
        before.wf(),
        !before.agents.contains_key(thread),
        restated(truncate_text, before, thread, status, now, restated_after),
        liveness_applied(truncate_text, before, thread, running, now, liveness_after),
    ensures
        restated_after == before,
        liveness_after == before,
{
}

/// A thread that comes to rest does not take away a status that says how its agent ended.
pub proof fn rest_keeps_how_an_agent_ended<T: Fn(&str, usize) -> String>(
    truncate_text: T,
    before: RegistryView,
    thread: Seq<char>,
    now: Instant,
    after: RegistryView,
)
    requires
        before.wf(),
        before.agents.contains_key(thread),
        !before.agents[thread].status@.is_running(),
        liveness_applied(truncate_text, before, thread, false, now, after),
    ensures
        after == before,
{
}

/// A thread that comes to rest completes an agent that was starting or at work, and coming to rest
/// once more changes nothing.
pub proof fn rest_completes_once<T: Fn(&str, usize) -> String>(
    truncate_text: T,
    before: RegistryView,
    thread: Seq<char>,
    now: Instant,
    mid: RegistryView,
    later: Instant,
    after: RegistryView,
)
    requires
        before.wf(),
        before.agents.contains_key(thread),
        liveness_applied(truncate_text, before, thread, false, now, mid),
        liveness_applied(truncate_text, mid, thread, false, later, after),
    ensures
        before.agents[thread].status@.is_running() ==> mid.agents[thread].status@
            == StatusView::Completed(None),
        after == mid,
{
}

/// A thread that runs makes its agent run, however the agent had ended, and no other agent changes.
pub proof fn work_revives<T: Fn(&str, usize) -> String>(
    truncate_text: T,
    before: RegistryView,
    thread: Seq<char>,
    now: Instant,
    after: RegistryView,
)
    requires
        before.wf(),
        before.agents.contains_key(thread),
        liveness_applied(truncate_text, before, thread, true, now, after),
    ensures
        after.agents[thread].status@ == StatusView::Running,
        same_agent(before.agents[thread], after.agents[thread]),
        after.order == before.order,
        forall|t: Seq<char>| #[trigger]
            before.agents.contains_key(t) && t != thread ==> after.agents[t] == before.agents[t],
{
}

/// A status report touches no agent but the one that it is about.
pub proof fn a_report_leaves_the_others<T: Fn(&str, usize) -> String>(
    truncate_text: T,
    before: RegistryView,
    thread: Seq<char>,
    status: StatusView,
    now: Instant,
    after: RegistryView,
)
    requires
        before.wf(),
        restated(truncate_text, before, thread, status, now, after),
    ensures
        after.order == before.order,
        after.agents.dom() == before.agents.dom(),
        forall|t: Seq<char>| #[trigger]
            before.agents.contains_key(t) && t != thread ==> after.agents[t] == before.agents[t],
{
    assert(after.agents.dom() =~= before.agents.dom());
}

/// Of two status reports on an agent only the later one counts.
pub proof fn the_later_report_counts<T: Fn(&str, usize) -> String>(
    truncate_text: T,
    before: RegistryView,
    thread: Seq<char>,
    first: StatusView,
    now: Instant,
    mid: RegistryView,
    second: StatusView,
    later: Instant,
    after: RegistryView,
)
    requires
        before.wf(),
        restated(truncate_text, before, thread, first, now, mid),
        restated(truncate_text, mid, thread, second, later, after),
    ensures
        restated(truncate_text, before, thread, second, later, after),
{
    if before.agents.contains_key(thread) {
        assert(after.agents =~= before.agents.insert(thread, after.agents[thread]));
        assert(after =~= before.tracking(thread, after.agents[thread]));
    }
}

} // verus!
