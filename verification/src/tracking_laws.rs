//! What each operation of the registry does to the agents, told agent by agent.

use vstd::prelude::*;

use crate::agent::SubagentInfo;
use crate::agent_laws::{
    goes_on, guards, lemma_names, lemma_shortened_activity, lemma_shortened_headline, lemma_tells,
    names, shortened_activity, shortened_headline, tells,
};
use crate::clock::Instant;
use crate::registry::{lemma_filter_distinct, other_than, RegistryView, SubagentPanelRegistry};
use crate::sort::lemma_filter_push;
use crate::status::PanelAgentStatus;
use crate::styled::MotionMode;
use crate::text::{is_white_space, lemma_blank};
use crate::thread_id::ThreadId;

verus! {

/// Whether `one` stands before `two` in `order`.
pub open spec fn stands_before<A>(order: Seq<A>, one: A, two: A) -> bool {
    exists|i: int, j: int|
        0 <= i < j < order.len() && #[trigger] order[i] == one && #[trigger] order[j] == two
}

/// Whether every thread that `after` still tracks stands there as it stood in `before`.
pub open spec fn keeps_the_order(before: RegistryView, after: RegistryView) -> bool {
    forall|i: int, j: int|
        0 <= i < j < before.order.len() && after.agents.contains_key(#[trigger] before.order[i])
            && after.agents.contains_key(#[trigger] before.order[j]) ==> stands_before(
            after.order,
            before.order[i],
            before.order[j],
        )
}

proof fn lemma_filter_before<A>(items: Seq<A>, keep: spec_fn(A) -> bool, i: int, j: int)
    requires
        0 <= i < j < items.len(),
        keep(items[i]),
        keep(items[j]),
    ensures
        stands_before(items.filter(keep), items[i], items[j]),
    decreases items.len(),
{
    let rest = items.drop_last();
    let kept = rest.filter(keep);
    let all = items.filter(keep);
    lemma_filter_push(rest, items.last(), keep);
    assert(rest.push(items.last()) =~= items);
    if j < rest.len() {
        lemma_filter_before(rest, keep, i, j);
        let (p, q) = choose|p: int, q: int|
            0 <= p < q < kept.len() && #[trigger] kept[p] == rest[i] && #[trigger] kept[q]
                == rest[j];
        assert(all[p] == items[i] && all[q] == items[j]);
    } else {
        lemma_filter_distinct(rest, keep);
        assert(rest[i] == items[i]);
        assert(rest.contains(items[i]));
        assert(kept.contains(items[i]));
        let p = choose|p: int| 0 <= p < kept.len() && kept[p] == items[i];
        assert(all[p] == items[i] && all[kept.len() as int] == items[j]);
    }
}

proof fn lemma_push_before<A>(order: Seq<A>, item: A, one: A, two: A)
    requires
        stands_before(order, one, two),
    ensures
        stands_before(order.push(item), one, two),
{
    let (p, q) = choose|p: int, q: int|
        0 <= p < q < order.len() && #[trigger] order[p] == one && #[trigger] order[q] == two;
    assert(order.push(item)[p] == one && order.push(item)[q] == two);
}

/// Whether a nickname holds more than white space.
pub open spec fn readable(nickname: Option<String>) -> bool {
    nickname is Some && exists|k: int|
        0 <= k < nickname->0@.len() && !is_white_space(#[trigger] nickname->0@[k])
}

proof fn lemma_readable(nickname: Option<String>)
    ensures
        crate::registry::nicknamed(crate::text::opt_text(nickname)) <==> readable(nickname),
{
    if nickname is Some {
        lemma_blank(nickname->0@);
    }
}

/// The lesser of a number and the greatest that fits thirty-two bits.
pub open spec fn at_most_max(n: int) -> int {
    if n < 0x7fff_ffff {
        n
    } else {
        0x7fff_ffff
    }
}

proof fn lemma_tracked_order(before: RegistryView, base: RegistryView, after: RegistryView, thread: Seq<char>)
    requires
        keeps_the_order(before, base),
        after == base.tracking(thread, after.agents[thread]),
        before.wf(),
        base.wf(),
        forall|t: Seq<char>| #[trigger]
            base.agents.contains_key(t) ==> before.agents.contains_key(t),
        before.agents.contains_key(thread) ==> base.agents.contains_key(thread),
    ensures
        keeps_the_order(before, after),
        !before.agents.contains_key(thread) ==> after.order.len() > 0 && after.order.last()
            == thread,
{
    assert forall|i: int, j: int|
        0 <= i < j < before.order.len() && after.agents.contains_key(#[trigger] before.order[i])
            && after.agents.contains_key(#[trigger] before.order[j]) implies stands_before(
        after.order,
        before.order[i],
        before.order[j],
    ) by {
        assert(before.order.contains(before.order[i]) && before.order.contains(before.order[j]));
        assert(before.agents.contains_key(before.order[i]));
        assert(before.agents.contains_key(before.order[j]));
        assert(base.agents.contains_key(before.order[i]));
        assert(base.agents.contains_key(before.order[j]));
        if !base.agents.contains_key(thread) {
            lemma_push_before(base.order, thread, before.order[i], before.order[j]);
        }
    }
}

proof fn lemma_pruned_order(before: RegistryView, keep: Seq<char>)
    requires
        before.wf(),
    ensures
        keeps_the_order(before, before.pruned(keep)),
        before.pruned(keep).wf(),
{
    let after = before.pruned(keep);
    crate::registry::lemma_pruned_wf(before, keep);
    assert forall|i: int, j: int|
        0 <= i < j < before.order.len() && after.agents.contains_key(#[trigger] before.order[i])
            && after.agents.contains_key(#[trigger] before.order[j]) implies stands_before(
        after.order,
        before.order[i],
        before.order[j],
    ) by {
        lemma_filter_before(
            before.order,
            |t: Seq<char>| !before.superseded(keep, t),
            i,
            j,
        );
    }
}

proof fn lemma_same_order(before: RegistryView)
    ensures
        keeps_the_order(before, before),
{
}

/// A spawn gives its agent the status, the role and the name that came with it. An agent that was tracked
/// keeps its number, its prompt and its birth; a new one comes last, and its number is how many there are
/// now. The spawn of a watchdog takes the other watchdogs out. No other agent changes.
pub proof fn a_spawn_is_recorded<T: Fn(&str, usize) -> String>(
    registry: &mut SubagentPanelRegistry,
    thread_id: ThreadId,
    nickname: Option<String>,
    role: Option<String>,
    prompt: &str,
    status: PanelAgentStatus,
    now: Instant,
    truncate_text: T,
)
    requires
        old(registry)@.wf(),
        call_ensures(
            SubagentPanelRegistry::on_spawn::<T>,
            (registry, &thread_id, nickname, role, prompt, status, now, &truncate_text),
            (),
        ),
    ensures
        spawn_told(
            old(registry)@,
            final(registry)@,
            thread_id@,
            nickname,
            role,
            prompt@,
            status,
            now,
            truncate_text,
        ),
{
    lemma_spawn_told(
        old(registry)@,
        final(registry)@,
        thread_id@,
        nickname,
        role,
        prompt@,
        status,
        now,
        truncate_text,
    );
}

/// What a spawn leads to, told agent by agent.
pub open spec fn spawn_told<T: Fn(&str, usize) -> String>(
    before: RegistryView,
    after: RegistryView,
    thread: Seq<char>,
    nickname: Option<String>,
    role: Option<String>,
    prompt: Seq<char>,
    status: PanelAgentStatus,
    now: Instant,
    truncate_text: T,
) -> bool {
    let info = after.agents[thread];
    &&& after.agents.contains_key(thread)
    &&& tells(truncate_text, info, status, now)
    &&& info.role is Some <==> role is Some
    &&& role is Some ==> info.role->0@ == role->0@
    &&& if readable(nickname) {
        info.name@ == nickname->0@
    } else {
        names(truncate_text, prompt, info.ordinal as int, info.name@)
    }
    &&& if before.agents.contains_key(thread) {
        &&& info.ordinal == before.agents[thread].ordinal
        &&& info.prompt_preview@ == before.agents[thread].prompt_preview@
        &&& info.spawned_at == before.agents[thread].spawned_at
    } else {
        &&& after.order.len() > 0 && after.order.last() == thread
        &&& info.ordinal == at_most_max(after.order.len() as int)
        &&& shortened_headline(truncate_text, prompt, info.prompt_preview@)
        &&& info.spawned_at == now
    }
    &&& forall|t: Seq<char>|
        #![trigger before.agents.contains_key(t)]
        #![trigger after.agents.contains_key(t)]
        t != thread ==> (after.agents.contains_key(t) <==> before.agents.contains_key(t) && !(
        guards(role) && guards(before.agents[t].role)))
    &&& forall|t: Seq<char>| #[trigger]
        after.agents.contains_key(t) && t != thread ==> after.agents[t] == before.agents[t]
    &&& keeps_the_order(before, after)
    &&& after.mounted == before.mounted
    &&& after.motion_mode == before.motion_mode
}

/// What is recorded of a spawn is told agent by agent.
pub proof fn lemma_spawn_told<T: Fn(&str, usize) -> String>(
    before: RegistryView,
    after: RegistryView,
    thread: Seq<char>,
    nickname: Option<String>,
    role: Option<String>,
    prompt: Seq<char>,
    status: PanelAgentStatus,
    now: Instant,
    truncate_text: T,
)
    requires
        before.wf(),
        crate::registry::spawned(
            truncate_text,
            before,
            thread,
            crate::text::opt_text(nickname),
            crate::text::opt_text(role),
            prompt,
            status@,
            now,
            after,
        ),
    ensures
        spawn_told(before, after, thread, nickname, role, prompt, status, now, truncate_text),
{
    let info = after.agents[thread];
    let base = if guards(role) {
        before.pruned(thread)
    } else {
        before
    };
    lemma_readable(nickname);
    lemma_tells(truncate_text, info, status, now);
    lemma_pruned_order(before, thread);
    lemma_same_order(before);
    assert(!before.superseded(thread, thread));
    lemma_tracked_order(before, base, after, thread);
    if !readable(nickname) {
        lemma_names(truncate_text, prompt, info.ordinal as int, info.name@);
    }
    if !before.agents.contains_key(thread) {
        lemma_shortened_headline(truncate_text, prompt, info.prompt_preview@);
    }
    assert forall|t: Seq<char>|
        #![trigger before.agents.contains_key(t)]
        #![trigger after.agents.contains_key(t)]
        t != thread implies (after.agents.contains_key(t) <==> before.agents.contains_key(t) && !(
    guards(role) && guards(before.agents[t].role))) by {
        assert(after.agents.contains_key(t) <==> base.agents.contains_key(t));
        if guards(role) {
            assert(base.agents.contains_key(t) <==> before.agents.contains_key(t)
                && !before.superseded(thread, t));
        }
    }
}

/// What an activity leads to, told agent by agent.
pub open spec fn activity_told<T: Fn(&str, usize) -> String>(
    before: RegistryView,
    after: RegistryView,
    thread: Seq<char>,
    agent_path: Seq<char>,
    nickname: Option<String>,
    role: Option<String>,
    preview: Seq<char>,
    now: Instant,
    truncate_text: T,
) -> bool {
    let info = after.agents[thread];
    let known = before.agents.contains_key(thread);
    &&& after.agents.contains_key(thread)
    &&& info.latest_update_at == now
    &&& info.name@ == if readable(nickname) {
        nickname->0@
    } else {
        agent_path
    }
    &&& role is Some ==> info.role is Some && info.role->0@ == role->0@
    &&& preview.len() > 0 ==> shortened_activity(truncate_text, preview, info.latest_preview@)
    &&& if known {
        &&& info.ordinal == before.agents[thread].ordinal
        &&& info.prompt_preview@ == before.agents[thread].prompt_preview@
        &&& info.spawned_at == before.agents[thread].spawned_at
        &&& info.status == before.agents[thread].status
        &&& role is None ==> (info.role is Some <==> before.agents[thread].role is Some)
        &&& role is None && info.role is Some ==> info.role->0@ == before.agents[thread].role->0@
        &&& preview.len() == 0 ==> info.latest_preview@ == before.agents[thread].latest_preview@
        &&& after.order == before.order
    } else {
        &&& after.order == before.order.push(thread)
        &&& info.ordinal == at_most_max(before.order.len() as int + 1)
        &&& shortened_headline(truncate_text, agent_path, info.prompt_preview@)
        &&& info.spawned_at == now
        &&& info.status is PendingInit
        &&& role is None ==> info.role is None
        &&& preview.len() == 0 ==> info.latest_preview@ == info.prompt_preview@
    }
    &&& forall|t: Seq<char>|
        #![trigger before.agents.contains_key(t)]
        #![trigger after.agents.contains_key(t)]
        t != thread ==> (after.agents.contains_key(t) <==> before.agents.contains_key(t))
    &&& forall|t: Seq<char>| #[trigger]
        after.agents.contains_key(t) && t != thread ==> after.agents[t] == before.agents[t]
    &&& after.mounted == before.mounted
    &&& after.motion_mode == before.motion_mode
}

/// What is recorded of an activity is told agent by agent.
pub proof fn lemma_activity_told<T: Fn(&str, usize) -> String>(
    before: RegistryView,
    after: RegistryView,
    thread: Seq<char>,
    agent_path: Seq<char>,
    nickname: Option<String>,
    role: Option<String>,
    preview: Seq<char>,
    now: Instant,
    truncate_text: T,
)
    requires
        before.wf(),
        crate::registry::active(
            truncate_text,
            before,
            thread,
            agent_path,
            crate::text::opt_text(nickname),
            crate::text::opt_text(role),
            preview,
            now,
            after,
        ),
    ensures
        activity_told(
            before,
            after,
            thread,
            agent_path,
            nickname,
            role,
            preview,
            now,
            truncate_text,
        ),
{
    let info = after.agents[thread];
    lemma_readable(nickname);
    if preview.len() > 0 {
        lemma_shortened_activity(truncate_text, preview, info.latest_preview@);
    }
    if !before.agents.contains_key(thread) {
        lemma_shortened_headline(truncate_text, agent_path, info.prompt_preview@);
        crate::agent_laws::statuses_are_told_apart(info.status, PanelAgentStatus::PendingInit);
    }
}

/// An activity names its agent and previews itself. An agent that was tracked keeps its number, its prompt,
/// its birth and its status, and its role where none came; a new one comes last and is starting. No other
/// agent changes.
pub proof fn an_activity_is_recorded<T: Fn(&str, usize) -> String>(
    registry: &mut SubagentPanelRegistry,
    thread_id: ThreadId,
    agent_path: &str,
    nickname: Option<String>,
    role: Option<String>,
    preview: String,
    now: Instant,
    truncate_text: T,
)
    requires
        old(registry)@.wf(),
        call_ensures(
            SubagentPanelRegistry::upsert_activity::<T>,
            (registry, &thread_id, agent_path, nickname, role, preview, now, &truncate_text),
            (),
        ),
    ensures
        activity_told(
            old(registry)@,
            final(registry)@,
            thread_id@,
            agent_path@,
            nickname,
            role,
            preview@,
            now,
            truncate_text,
        ),
{
    lemma_activity_told(
        old(registry)@,
        final(registry)@,
        thread_id@,
        agent_path@,
        nickname,
        role,
        preview@,
        now,
        truncate_text,
    );
}

/// Whether `after` is who `before` was: number, name, role, prompt and birth.
pub open spec fn stays_the_agent(before: SubagentInfo, after: SubagentInfo) -> bool {
    &&& after.ordinal == before.ordinal
    &&& after.name@ == before.name@
    &&& after.role == before.role
    &&& after.prompt_preview@ == before.prompt_preview@
    &&& after.spawned_at == before.spawned_at
}

/// What a status report leads to, told agent by agent.
pub open spec fn report_told<T: Fn(&str, usize) -> String>(
    before: RegistryView,
    after: RegistryView,
    thread: Seq<char>,
    status: PanelAgentStatus,
    now: Instant,
    truncate_text: T,
) -> bool {
    &&& before.agents.contains_key(thread) ==> tells(
        truncate_text,
        after.agents[thread],
        status,
        now,
    ) && stays_the_agent(before.agents[thread], after.agents[thread])
    &&& after.agents.dom() == before.agents.dom()
    &&& forall|t: Seq<char>| #[trigger]
        before.agents.contains_key(t) && t != thread ==> after.agents[t] == before.agents[t]
    &&& after.order == before.order
    &&& after.mounted == before.mounted
    &&& after.motion_mode == before.motion_mode
}

/// What is recorded of a status report is told agent by agent.
pub proof fn lemma_report_told<T: Fn(&str, usize) -> String>(
    before: RegistryView,
    after: RegistryView,
    thread: Seq<char>,
    status: PanelAgentStatus,
    now: Instant,
    truncate_text: T,
)
    requires
        crate::registry::restated(truncate_text, before, thread, status@, now, after),
    ensures
        report_told(before, after, thread, status, now, truncate_text),
{
    assert(after.agents.dom() =~= before.agents.dom());
    if before.agents.contains_key(thread) {
        lemma_tells(truncate_text, after.agents[thread], status, now);
    }
}

/// A status report changes what its agent tells, where it is tracked, and no other agent.
pub proof fn a_report_is_recorded<T: Fn(&str, usize) -> String>(
    registry: &mut SubagentPanelRegistry,
    thread_id: ThreadId,
    status: PanelAgentStatus,
    now: Instant,
    truncate_text: T,
)
    requires
        old(registry)@.wf(),
        call_ensures(
            SubagentPanelRegistry::update_status::<T>,
            (registry, &thread_id, status, now, &truncate_text),
            (),
        ),
    ensures
        report_told(old(registry)@, final(registry)@, thread_id@, status, now, truncate_text),
{
    lemma_report_told(old(registry)@, final(registry)@, thread_id@, status, now, truncate_text);
}

/// A thread that runs makes its agent run, one that comes to rest completes an agent that was starting or
/// at work, and an agent that had ended stays as it ended.
pub proof fn a_thread_moves_its_agent<T: Fn(&str, usize) -> String>(
    registry: &mut SubagentPanelRegistry,
    thread_id: ThreadId,
    running: bool,
    now: Instant,
    truncate_text: T,
)
    requires
        old(registry)@.wf(),
        call_ensures(
            SubagentPanelRegistry::set_thread_running::<T>,
            (registry, &thread_id, running, now, &truncate_text),
            (),
        ),
    ensures
        running ==> report_told(
            old(registry)@,
            final(registry)@,
            thread_id@,
            PanelAgentStatus::Running,
            now,
            truncate_text,
        ),
        !running && old(registry)@.agents.contains_key(thread_id@) && goes_on(
            old(registry)@.agents[thread_id@].status,
        ) ==> report_told(
            old(registry)@,
            final(registry)@,
            thread_id@,
            PanelAgentStatus::Completed(None),
            now,
            truncate_text,
        ),
        !running && !(old(registry)@.agents.contains_key(thread_id@) && goes_on(
            old(registry)@.agents[thread_id@].status,
        )) ==> final(registry)@ == old(registry)@,
        !old(registry)@.agents.contains_key(thread_id@) ==> final(registry)@ == old(registry)@,
{
    let before = old(registry)@;
    let after = final(registry)@;
    if running {
        lemma_report_told(
            before,
            after,
            thread_id@,
            PanelAgentStatus::Running,
            now,
            truncate_text,
        );
    } else if before.agents.contains_key(thread_id@) && goes_on(before.agents[thread_id@].status) {
        lemma_report_told(
            before,
            after,
            thread_id@,
            PanelAgentStatus::Completed(None),
            now,
            truncate_text,
        );
    }
}

/// What a closing leads to, told agent by agent.
pub open spec fn closing_told(before: RegistryView, after: RegistryView, thread: Seq<char>) -> bool {
    &&& forall|t: Seq<char>|
        #![trigger before.agents.contains_key(t)]
        #![trigger after.agents.contains_key(t)]
        after.agents.contains_key(t) <==> before.agents.contains_key(t) && t != thread
    &&& forall|t: Seq<char>| #[trigger]
        after.agents.contains_key(t) ==> after.agents[t] == before.agents[t]
    &&& forall|t: Seq<char>| #[trigger]
        after.order.contains(t) <==> before.order.contains(t) && t != thread
    &&& after.order.no_duplicates()
    &&& keeps_the_order(before, after)
    &&& after.mounted == before.mounted
    &&& after.motion_mode == before.motion_mode
}

/// What is recorded of a closing is told agent by agent.
pub proof fn lemma_closing_told(before: RegistryView, thread: Seq<char>)
    requires
        before.wf(),
    ensures
        closing_told(before, before.closed(thread), thread),
{
    let after = before.closed(thread);
    crate::registry::lemma_closed_wf(before, thread);
    lemma_filter_distinct(before.order, other_than(thread));
    assert forall|i: int, j: int|
        0 <= i < j < before.order.len() && after.agents.contains_key(#[trigger] before.order[i])
            && after.agents.contains_key(#[trigger] before.order[j]) implies stands_before(
        after.order,
        before.order[i],
        before.order[j],
    ) by {
        lemma_filter_before(before.order, other_than(thread), i, j);
    }
}

/// A closed agent is gone, and the others stay as and where they were.
pub proof fn a_closing_is_recorded(registry: &mut SubagentPanelRegistry, thread_id: ThreadId)
    requires
        old(registry)@.wf(),
        call_ensures(SubagentPanelRegistry::close, (registry, &thread_id), ()),
    ensures
        closing_told(old(registry)@, final(registry)@, thread_id@),
{
    lemma_closing_told(old(registry)@, thread_id@);
}

/// Pruning takes out the watchdogs, but for the one that is kept, and no other agent.
pub proof fn pruning_takes_out_watchdogs(registry: &mut SubagentPanelRegistry, keep: ThreadId)
    requires
        old(registry)@.wf(),
        call_ensures(SubagentPanelRegistry::prune_superseded_watchdogs, (registry, &keep), ()),
    ensures
        forall|t: Seq<char>|
            #![trigger old(registry)@.agents.contains_key(t)]
            #![trigger final(registry)@.agents.contains_key(t)]
            final(registry)@.agents.contains_key(t) <==> old(registry)@.agents.contains_key(t) && !(
            guards(old(registry)@.agents[t].role) && t != keep@),
        forall|t: Seq<char>| #[trigger]
            final(registry)@.agents.contains_key(t) ==> final(registry)@.agents[t] == old(
                registry,
            )@.agents[t],
        keeps_the_order(old(registry)@, final(registry)@),
        final(registry)@.mounted == old(registry)@.mounted,
        final(registry)@.motion_mode == old(registry)@.motion_mode,
{
    let before = old(registry)@;
    let after = final(registry)@;
    lemma_pruned_order(before, keep@);
    assert forall|t: Seq<char>|
        #![trigger before.agents.contains_key(t)]
        #![trigger after.agents.contains_key(t)]
        after.agents.contains_key(t) <==> before.agents.contains_key(t) && !(guards(
            before.agents[t].role,
        ) && t != keep@) by {
        assert(after.agents.contains_key(t) <==> before.agents.contains_key(t)
            && !before.superseded(keep@, t));
    }
}

/// A tracked thread has the number that it has, and another would get the one behind those that there are.
pub proof fn numbers_count_the_threads(
    registry: SubagentPanelRegistry,
    thread_id: ThreadId,
    ordinal: i32,
)
    requires
        registry@.wf(),
        call_ensures(SubagentPanelRegistry::ordinal_for, (&registry, &thread_id), ordinal),
    ensures
        registry@.agents.contains_key(thread_id@) ==> ordinal
            == registry@.agents[thread_id@].ordinal,
        !registry@.agents.contains_key(thread_id@) ==> ordinal == at_most_max(
            registry@.order.len() as int + 1,
        ),
{
}

/// A new registry tracks nothing and has nothing mounted.
pub proof fn a_new_registry_is_empty(motion_mode: MotionMode, registry: SubagentPanelRegistry)
    requires
        call_ensures(SubagentPanelRegistry::new, (motion_mode,), registry),
    ensures
        forall|t: Seq<char>| !(#[trigger] registry@.agents.contains_key(t)),
        registry@.order.len() == 0,
        !registry@.mounted,
        registry@.motion_mode == Some(motion_mode),
{
}

} // verus!
