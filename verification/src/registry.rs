//! The registry of agents behind the panel.

use vstd::prelude::*;
use vstd::string::*;

use crate::agent::{
    activity_noted, derive_subagent_name, derives_name, is_watchdog_role, registers, same_agent,
    shortens, shows_status, status_updated, takes_any_text, watchdog_role, SubagentInfo,
    SUBAGENT_UPDATE_PREVIEW_BUDGET,
};
use crate::clock::Instant;
use crate::panel::{SubagentPanelAgent, SubagentPanelState, SubagentStatusCell};
use crate::sort::{by_rank, lemma_filter_push, sort_by_rank};
use crate::status::{PanelAgentStatus, StatusView};
use crate::styled::MotionMode;
use crate::text::{blank, is_blank, opt_text};
use crate::text_map::TextMap;
use crate::thread_id::ThreadId;

verus! {

/// The agents that are tracked, and the order in which they were first seen.
#[derive(Debug)]
pub struct SubagentPanelRegistry {
    agents: TextMap<SubagentInfo>,
    order: Vec<ThreadId>,
    mounted: bool,
    motion_mode: Option<MotionMode>,
}

/// The view of a `SubagentPanelRegistry`: what is known of each thread, the threads in the order in
/// which they were first seen, whether a panel is mounted, and how it may move.
#[verifier::ext_equal]
pub struct RegistryView {
    pub agents: Map<Seq<char>, SubagentInfo>,
    pub order: Seq<Seq<char>>,
    pub mounted: bool,
    pub motion_mode: Option<MotionMode>,
}

/// The texts of `ids`.
pub open spec fn id_texts(ids: Seq<ThreadId>) -> Seq<Seq<char>> {
    ids.map_values(|id: ThreadId| id@)
}

impl View for SubagentPanelRegistry {
    type V = RegistryView;

    closed spec fn view(&self) -> RegistryView {
        RegistryView {
            agents: self.agents@,
            order: id_texts(self.order@),
            mounted: self.mounted,
            motion_mode: self.motion_mode,
        }
    }
}

/// Accepts the threads other than `thread`.
pub open spec fn other_than(thread: Seq<char>) -> spec_fn(Seq<char>) -> bool {
    |other: Seq<char>| other != thread
}

/// `threads` without `thread`.
pub open spec fn without(threads: Seq<Seq<char>>, thread: Seq<char>) -> Seq<Seq<char>> {
    threads.filter(other_than(thread))
}

spec fn excluding(threads: Seq<Seq<char>>, gone: Seq<Seq<char>>) -> Seq<Seq<char>> {
    threads.filter(|t: Seq<char>| !gone.contains(t))
}

spec fn agents_excluding(
    agents: Map<Seq<char>, SubagentInfo>,
    gone: Seq<Seq<char>>,
) -> Map<Seq<char>, SubagentInfo> {
    agents.filter_keys(|t: Seq<char>| !gone.contains(t))
}

/// The lesser of an ordinal and the greatest that fits.
pub open spec fn clamped(n: int) -> int {
    if n <= i32::MAX {
        n
    } else {
        i32::MAX as int
    }
}

impl RegistryView {
    /// Each tracked thread stands in the order once, nothing else does, and ordinals count from one.
    pub open spec fn wf(self) -> bool {
        &&& self.order.no_duplicates()
        &&& forall|t: Seq<char>| #[trigger] self.agents.contains_key(t) <==> self.order.contains(t)
        &&& forall|t: Seq<char>| #[trigger]
            self.agents.contains_key(t) ==> self.agents[t].ordinal >= 1
    }

    /// The registry without `thread`.
    pub open spec fn closed(self, thread: Seq<char>) -> RegistryView {
        RegistryView {
            agents: self.agents.remove(thread),
            order: without(self.order, thread),
            ..self
        }
    }

    /// Whether `thread` is a watchdog that gives way to `keep`.
    pub open spec fn superseded(self, keep: Seq<char>, thread: Seq<char>) -> bool {
        self.agents.contains_key(thread) && self.agents[thread].watches() && thread != keep
    }

    /// The registry without the watchdogs that give way to `keep`.
    pub open spec fn pruned(self, keep: Seq<char>) -> RegistryView {
        RegistryView {
            agents: self.agents.filter_keys(|t: Seq<char>| !self.superseded(keep, t)),
            order: self.order.filter(|t: Seq<char>| !self.superseded(keep, t)),
            ..self
        }
    }

    /// The ordinal of `thread`: the one that it has, or the next one.
    pub open spec fn ordinal_of(self, thread: Seq<char>) -> int {
        if self.agents.contains_key(thread) {
            self.agents[thread].ordinal as int
        } else {
            clamped(self.order.len() as int + 1)
        }
    }

    /// The registry with `thread` tracked as `info`.
    pub open spec fn tracking(self, thread: Seq<char>, info: SubagentInfo) -> RegistryView {
        RegistryView {
            agents: self.agents.insert(thread, info),
            order: if self.agents.contains_key(thread) {
                self.order
            } else {
                self.order.push(thread)
            },
            ..self
        }
    }
}

/// Whether an agent has a nickname to go by: one that is not blank.
pub open spec fn nicknamed(nickname: Option<Seq<char>>) -> bool {
    nickname is Some && !is_blank(nickname->0)
}

/// Whether `after` is `before` with the spawn of `thread` recorded. A watchdog makes the other
/// watchdogs give way.
pub open spec fn spawned<T: Fn(&str, usize) -> String>(
    truncate_text: T,
    before: RegistryView,
    thread: Seq<char>,
    nickname: Option<Seq<char>>,
    role: Option<Seq<char>>,
    prompt: Seq<char>,
    status: StatusView,
    now: Instant,
    after: RegistryView,
) -> bool {
    let base = if is_watchdog_role(role) {
        before.pruned(thread)
    } else {
        before
    };
    let info = after.agents[thread];
    &&& after == base.tracking(thread, info)
    &&& opt_text(info.role) == role
    &&& if nicknamed(nickname) {
        info.name@ == nickname->0
    } else {
        derives_name(truncate_text, prompt, base.ordinal_of(thread), info.name@)
    }
    &&& if base.agents.contains_key(thread) {
        same_agent(base.agents[thread], info)
    } else {
        registers(truncate_text, base.ordinal_of(thread) as i32, prompt, now, info)
    }
    &&& shows_status(truncate_text, status, now, info)
}

/// Whether `after` is `before` with an activity of `thread` recorded. What is not tracked yet is
/// registered, with the path of the agent for its prompt.
pub open spec fn active<T: Fn(&str, usize) -> String>(
    truncate_text: T,
    before: RegistryView,
    thread: Seq<char>,
    agent_path: Seq<char>,
    nickname: Option<Seq<char>>,
    role: Option<Seq<char>>,
    preview: Seq<char>,
    now: Instant,
    after: RegistryView,
) -> bool {
    let info = after.agents[thread];
    &&& after == before.tracking(thread, info)
    &&& info.name@ == if nicknamed(nickname) {
        nickname->0
    } else {
        agent_path
    }
    &&& if before.agents.contains_key(thread) {
        &&& activity_noted(truncate_text, before.agents[thread], preview, now, info)
        &&& opt_text(info.role) == if role is Some {
            role
        } else {
            opt_text(before.agents[thread].role)
        }
    } else {
        &&& registers(truncate_text, before.ordinal_of(thread) as i32, agent_path, now, info)
        &&& opt_text(info.role) == role
        &&& info.status@ == StatusView::PendingInit
        &&& info.latest_update_at == now
        &&& if preview.len() == 0 {
            info.latest_preview@ == info.prompt_preview@
        } else {
            shortens(truncate_text, preview, SUBAGENT_UPDATE_PREVIEW_BUDGET, info.latest_preview@)
        }
    }
}

/// Whether `after` is `before` with the status of `thread` updated, where it is tracked.
pub open spec fn restated<T: Fn(&str, usize) -> String>(
    truncate_text: T,
    before: RegistryView,
    thread: Seq<char>,
    status: StatusView,
    now: Instant,
    after: RegistryView,
) -> bool {
    if before.agents.contains_key(thread) {
        &&& after == before.tracking(thread, after.agents[thread])
        &&& status_updated(
            truncate_text,
            before.agents[thread],
            status,
            now,
            after.agents[thread],
        )
    } else {
        after == before
    }
}

/// Whether `after` is `before` with `thread` reported at work or at rest, where it is tracked. A rest
/// completes what was running and leaves alone what had already ended.
pub open spec fn liveness_applied<T: Fn(&str, usize) -> String>(
    truncate_text: T,
    before: RegistryView,
    thread: Seq<char>,
    running: bool,
    now: Instant,
    after: RegistryView,
) -> bool {
    if running {
        restated(truncate_text, before, thread, StatusView::Running, now, after)
    } else if before.agents.contains_key(thread) && before.agents[thread].status@.is_running() {
        restated(truncate_text, before, thread, StatusView::Completed(None), now, after)
    } else {
        after == before
    }
}

/// The row of an agent.
pub open spec fn row_of(info: SubagentInfo) -> SubagentPanelAgent {
    SubagentPanelAgent {
        ordinal: info.ordinal,
        name: info.name,
        status: info.status,
        is_watchdog: info.watches(),
        preview: info.latest_preview,
        spawned_at: info.spawned_at,
        latest_update_at: info.latest_update_at,
    }
}

impl RegistryView {
    /// Accepts the threads of the agents that the panel shows: those starting or at work.
    pub open spec fn on_show(self) -> spec_fn(Seq<char>) -> bool {
        |t: Seq<char>| self.agents.contains_key(t) && self.agents[t].status@.is_running()
    }

    /// Accepts the threads of the agents that count as running.
    pub open spec fn at_work(self) -> spec_fn(Seq<char>) -> bool {
        |t: Seq<char>| self.agents[t].counts_as_running()
    }

    /// The threads of the agents that the panel shows, in the order in which they were first seen.
    pub open spec fn visible(self) -> Seq<Seq<char>> {
        self.order.filter(self.on_show())
    }

    /// The rows of the agents that the panel shows, in the order in which they were first seen.
    pub open spec fn rows(self) -> Seq<SubagentPanelAgent> {
        self.visible().map_values(|t: Seq<char>| row_of(self.agents[t]))
    }

    /// Whether `started_at` is when the oldest of the agents that the panel shows was spawned.
    pub open spec fn oldest(self, started_at: Instant) -> bool {
        &&& exists|i: int|
            0 <= i < self.visible().len() && self.agents[
                #[trigger] self.visible()[i]
            ].spawned_at == started_at
        &&& forall|i: int|
            0 <= i < self.visible().len() ==> started_at.nanos <= self.agents[
                #[trigger] self.visible()[i]
            ].spawned_at.nanos
    }

    /// Whether `state` is what the panel shows of the registry.
    pub open spec fn pictured(self, state: SubagentPanelState) -> bool {
        &&& self.oldest(state.started_at)
        &&& state.total_agents == clamped(self.visible().len() as int)
        &&& state.running_count == clamped(self.visible().filter(self.at_work()).len() as int)
        &&& state.running_agents@ == by_rank(self.rows())
    }
}

/// Tracking an agent keeps the registry well formed.
pub proof fn lemma_tracking_wf(registry: RegistryView, thread: Seq<char>, info: SubagentInfo)
    requires
        registry.wf(),
        info.ordinal >= 1,
    ensures
        registry.tracking(thread, info).wf(),
{
    let after = registry.tracking(thread, info);
    if !registry.agents.contains_key(thread) {
        assert forall|t: Seq<char>| #[trigger] after.agents.contains_key(t) <==> after.order.contains(
            t,
        ) by {
            if registry.order.contains(t) {
                let i = choose|i: int| 0 <= i < registry.order.len() && registry.order[i] == t;
                assert(after.order[i] == t);
            }
            assert(after.order[registry.order.len() as int] == thread);
            if after.order.contains(t) && t != thread {
                let i = choose|i: int| 0 <= i < after.order.len() && after.order[i] == t;
                assert(registry.order[i] == t);
            }
        }
        assert(after.order.no_duplicates()) by {
            assert forall|i: int, j: int|
                0 <= i < after.order.len() && 0 <= j < after.order.len() && i != j implies
                after.order[i] != after.order[j] by {
                if i < registry.order.len() {
                    assert(registry.order.contains(registry.order[i]));
                }
                if j < registry.order.len() {
                    assert(registry.order.contains(registry.order[j]));
                }
            }
        }
    }
}

/// What a filter keeps of distinct items is distinct, and holds exactly the items that it accepts.
pub proof fn lemma_filter_distinct<A>(items: Seq<A>, keep: spec_fn(A) -> bool)
    ensures
        forall|a: A| #[trigger] items.filter(keep).contains(a) <==> items.contains(a) && keep(a),
        items.no_duplicates() ==> items.filter(keep).no_duplicates(),
    decreases items.len(),
{
    reveal(Seq::filter);
    if items.len() > 0 {
        let rest = items.drop_last();
        let last = items.last();
        lemma_filter_distinct(rest, keep);
        let kept = items.filter(keep);
        assert forall|a: A| #[trigger] kept.contains(a) <==> items.contains(a) && keep(a) by {
            if kept.contains(a) {
                let i = choose|i: int| 0 <= i < kept.len() && kept[i] == a;
                if i < rest.filter(keep).len() {
                    assert(rest.filter(keep)[i] == a);
                    assert(rest.filter(keep).contains(a));
                    let k = choose|k: int| 0 <= k < rest.len() && rest[k] == a;
                    assert(items[k] == a);
                } else {
                    assert(items[items.len() - 1] == a);
                }
            }
            if items.contains(a) && keep(a) {
                let k = choose|k: int| 0 <= k < items.len() && items[k] == a;
                if k < rest.len() {
                    assert(rest[k] == a);
                    assert(rest.filter(keep).contains(a));
                    let i = choose|i: int|
                        0 <= i < rest.filter(keep).len() && rest.filter(keep)[i] == a;
                    assert(kept[i] == a);
                } else {
                    assert(kept[kept.len() - 1] == a);
                }
            }
        }
        if items.no_duplicates() {
            assert(rest.no_duplicates());
            assert forall|i: int, j: int|
                0 <= i < kept.len() && 0 <= j < kept.len() && i != j implies kept[i] != kept[j] by {
                if keep(last) {
                    if i == kept.len() - 1 {
                        assert(rest.filter(keep).contains(rest.filter(keep)[j]));
                    } else if j == kept.len() - 1 {
                        assert(rest.filter(keep).contains(rest.filter(keep)[i]));
                    }
                }
            }
        }
    }
}

/// Closing a thread keeps the registry well formed.
pub proof fn lemma_closed_wf(registry: RegistryView, thread: Seq<char>)
    requires
        registry.wf(),
    ensures
        registry.closed(thread).wf(),
{
    let after = registry.closed(thread);
    lemma_filter_distinct(registry.order, other_than(thread));
    assert forall|t: Seq<char>| #[trigger] after.agents.contains_key(t) <==> after.order.contains(
        t,
    ) by {
        assert(after.agents.contains_key(t) <==> registry.agents.contains_key(t) && t != thread);
    }
    assert forall|t: Seq<char>| #[trigger] after.agents.contains_key(t) implies after.agents[t].ordinal
        >= 1 by {
        assert(registry.agents.contains_key(t));
    }
}

/// Pruning keeps the registry well formed.
pub proof fn lemma_pruned_wf(registry: RegistryView, keep: Seq<char>)
    requires
        registry.wf(),
    ensures
        registry.pruned(keep).wf(),
{
    lemma_filter_distinct(registry.order, |t: Seq<char>| !registry.superseded(keep, t));
}

impl Default for SubagentPanelRegistry {
    fn default() -> (registry: Self)
        ensures
            registry@ == (RegistryView {
                agents: Map::empty(),
                order: Seq::empty(),
                mounted: false,
                motion_mode: None,
            }),
            registry@.wf(),
    {
        let registry = SubagentPanelRegistry {
            agents: TextMap::new(),
            order: Vec::new(),
            mounted: false,
            motion_mode: None,
        };
        assert(registry@.order =~= Seq::empty());
        registry
    }
}

impl SubagentPanelRegistry {
    /// A registry that tracks nothing.
    pub fn new(motion_mode: MotionMode) -> (registry: Self)
        ensures
            registry@ == (RegistryView {
                agents: Map::empty(),
                order: Seq::empty(),
                mounted: false,
                motion_mode: Some(motion_mode),
            }),
            registry@.wf(),
    {
        let registry = SubagentPanelRegistry {
            agents: TextMap::new(),
            order: Vec::new(),
            mounted: false,
            motion_mode: Some(motion_mode),
        };
        assert(registry@.order =~= Seq::empty());
        registry
    }

    /// The ordinal of `thread_id`: the one that it has, or the next one.
    pub fn ordinal_for(&self, thread_id: &ThreadId) -> (ordinal: i32)
        ensures
            ordinal == self@.ordinal_of(thread_id@),
    {
        if let Some(existing) = self.agents.get(thread_id.as_str()) {
            return existing.ordinal;
        }
        if self.order.len() < 2147483647 {
            self.order.len() as i32 + 1
        } else {
            2147483647
        }
    }

    /// Stops tracking `thread_id`.
    pub fn close(&mut self, thread_id: &ThreadId)
        requires
            old(self)@.wf(),
        ensures
            final(self)@ == old(self)@.closed(thread_id@),
            final(self)@.wf(),
    {
        let _ = self.agents.remove(thread_id.as_str());
        let ghost others = other_than(thread_id@);
        let ghost all = id_texts(self.order@);
        let mut kept: Vec<ThreadId> = Vec::new();
        let mut i: usize = 0;
        assert(id_texts(kept@) =~= all.take(0).filter(others)) by {
            reveal(Seq::filter);
        }
        while i < self.order.len()
            invariant
                i <= self.order@.len(),
                all == id_texts(self.order@),
                others == other_than(thread_id@),
                id_texts(kept@) == all.take(i as int).filter(others),
            decreases self.order@.len() - i,
        {
            let ghost before = kept@;
            proof {
                lemma_filter_push(all.take(i as int), all[i as int], others);
                assert(all.take(i as int).push(all[i as int]) =~= all.take(i + 1));
            }
            if !self.order[i].same(thread_id) {
                kept.push(self.order[i].clone());
                assert(id_texts(kept@) =~= id_texts(before).push(all[i as int]));
            }
            i += 1;
        }
        assert(all.take(i as int) =~= all);
        self.order = kept;
        proof {
            lemma_closed_wf(old(self)@, thread_id@);
        }
    }

    /// Stops tracking the watchdogs other than `keep_thread_id`.
    pub fn prune_superseded_watchdogs(&mut self, keep_thread_id: &ThreadId)
        requires
            old(self)@.wf(),
        ensures
            final(self)@ == old(self)@.pruned(keep_thread_id@),
            final(self)@.wf(),
    {
        let ghost before = self@;
        let ghost keep = keep_thread_id@;
        let ghost kept = |t: Seq<char>| !before.superseded(keep, t);
        let mut superseded: Vec<ThreadId> = Vec::new();
        let mut i: usize = 0;
        while i < self.order.len()
            invariant
                i <= self.order@.len(),
                before == self@,
                before.wf(),
                keep == keep_thread_id@,
                forall|t: Seq<char>| #[trigger]
                    id_texts(superseded@).contains(t) <==> before.superseded(keep, t)
                        && before.order.take(i as int).contains(t),
            decreases self.order@.len() - i,
        {
            let ghost held = superseded@;
            let ghost t = before.order[i as int];
            assert(t == self.order@[i as int]@);
            assert(before.order.contains(t));
            let watchdog = match self.agents.get(self.order[i].as_str()) {
                Some(info) => info.is_watchdog(),
                None => false,
            };
            assert(watchdog == (before.agents.contains_key(t) && before.agents[t].watches()));
            if watchdog && !self.order[i].same(keep_thread_id) {
                superseded.push(self.order[i].clone());
                assert(id_texts(superseded@) =~= id_texts(held).push(t));
            }
            proof {
                lemma_contains_push(id_texts(held), t);
                lemma_contains_push(before.order.take(i as int), t);
                assert(before.order.take(i as int).push(t) =~= before.order.take(i + 1));
            }
            i += 1;
        }
        assert(before.order.take(i as int) =~= before.order);
        let mut j: usize = 0;
        proof {
            let none = id_texts(superseded@).take(0);
            lemma_filter_all(before.order, |t: Seq<char>| !none.contains(t));
            assert(agents_excluding(before.agents, none) =~= before.agents);
        }
        while j < superseded.len()
            invariant
                j <= superseded@.len(),
                self@.wf(),
                self@.mounted == before.mounted,
                self@.motion_mode == before.motion_mode,
                self@.order == excluding(before.order, id_texts(superseded@).take(j as int)),
                self@.agents == agents_excluding(
                    before.agents,
                    id_texts(superseded@).take(j as int),
                ),
            decreases superseded@.len() - j,
        {
            let ghost now = id_texts(superseded@).take(j as int);
            let ghost next = id_texts(superseded@).take(j + 1);
            let ghost t = superseded@[j as int]@;
            proof {
                assert(now.push(t) =~= next);
                lemma_contains_push(now, t);
                lemma_filter_filter(
                    before.order,
                    |x: Seq<char>| !now.contains(x),
                    other_than(t),
                    |x: Seq<char>| !next.contains(x),
                );
            }
            self.close(&superseded[j]);
            assert(self@.order == without(excluding(before.order, now), t));
            assert(self@.order == excluding(before.order, next));
            assert(self@.agents =~= agents_excluding(before.agents, next));
            j += 1;
        }
        proof {
            let gone = id_texts(superseded@);
            assert(gone.take(j as int) =~= gone);
            assert forall|i: int| 0 <= i < before.order.len() implies (|t: Seq<char>|
                !gone.contains(t))(#[trigger] before.order[i]) == kept(before.order[i]) by {
                assert(before.order.contains(before.order[i]));
            }
            lemma_filter_agree(before.order, |t: Seq<char>| !gone.contains(t), kept);
            assert(self@.agents =~= before.agents.filter_keys(kept));
        }
    }
}

/// The nickname, where the agent can go by it.
fn given_name(nickname: Option<String>) -> (name: Option<String>)
    ensures
        name == (if nicknamed(opt_text(nickname)) {
            nickname
        } else {
            None
        }),
{
    match nickname {
        Some(nickname) => if blank(nickname.as_str()) {
            None
        } else {
            Some(nickname)
        },
        None => None,
    }
}

fn clamp_count(count: usize) -> (clamped_count: i32)
    ensures
        clamped_count == clamped(count as int),
{
    if count <= 2147483647 {
        count as i32
    } else {
        2147483647
    }
}

impl SubagentPanelRegistry {
    /// Records the spawn of an agent.
    pub fn on_spawn<T: Fn(&str, usize) -> String>(
        &mut self,
        thread_id: &ThreadId,
        nickname: Option<String>,
        role: Option<String>,
        prompt: &str,
        status: PanelAgentStatus,
        now: Instant,
        truncate_text: &T,
    )
        requires
            old(self)@.wf(),
            takes_any_text(*truncate_text),
        ensures
            spawned(
                *truncate_text,
                old(self)@,
                thread_id@,
                opt_text(nickname),
                opt_text(role),
                prompt@,
                status@,
                now,
                final(self)@,
            ),
            final(self)@.wf(),
    {
        if watchdog_role(&role) {
            self.prune_superseded_watchdogs(thread_id);
        }
        let ghost base = self@;
        let ordinal = self.ordinal_for(thread_id);
        let name = match given_name(nickname) {
            Some(name) => name,
            None => derive_subagent_name(prompt, ordinal, truncate_text),
        };
        let mut info = match self.agents.remove(thread_id.as_str()) {
            Some(info) => info,
            None => {
                self.order.push(thread_id.clone());
                SubagentInfo::new(
                    ordinal,
                    name.clone(),
                    role.clone(),
                    prompt,
                    now,
                    truncate_text,
                )
            },
        };
        info.name = name;
        info.role = role;
        info.update_status(status, now, truncate_text);
        let ghost entry = info;
        self.agents.insert(thread_id.text.clone(), info);
        proof {
            assert(base.agents.remove(thread_id@).insert(thread_id@, entry) =~= base.agents.insert(
                thread_id@,
                entry,
            ));
            assert(self@ =~= base.tracking(thread_id@, entry));
            lemma_tracking_wf(base, thread_id@, entry);
        }
    }

    /// Gives an agent a new status, where it is tracked.
    pub fn update_status<T: Fn(&str, usize) -> String>(
        &mut self,
        thread_id: &ThreadId,
        status: PanelAgentStatus,
        now: Instant,
        truncate_text: &T,
    )
        requires
            old(self)@.wf(),
            takes_any_text(*truncate_text),
        ensures
            restated(*truncate_text, old(self)@, thread_id@, status@, now, final(self)@),
            final(self)@.wf(),
    {
        let ghost base = self@;
        match self.agents.remove(thread_id.as_str()) {
            Some(known) => {
                let mut info = known;
                info.update_status(status, now, truncate_text);
                let ghost entry = info;
                self.agents.insert(thread_id.text.clone(), info);
                proof {
                    assert(base.agents.remove(thread_id@).insert(thread_id@, entry)
                        =~= base.agents.insert(thread_id@, entry));
                    assert(self@ =~= base.tracking(thread_id@, entry));
                    lemma_tracking_wf(base, thread_id@, entry);
                }
            },
            None => {
                assert(base.agents.remove(thread_id@) =~= base.agents);
            },
        }
    }

    /// Records an activity of an agent. What is not tracked yet is registered: an activity may be
    /// the only sign of a spawn.
    pub fn upsert_activity<T: Fn(&str, usize) -> String>(
        &mut self,
        thread_id: &ThreadId,
        agent_path: &str,
        nickname: Option<String>,
        role: Option<String>,
        preview: String,
        now: Instant,
        truncate_text: &T,
    )
        requires
            old(self)@.wf(),
            takes_any_text(*truncate_text),
        ensures
            active(
                *truncate_text,
                old(self)@,
                thread_id@,
                agent_path@,
                opt_text(nickname),
                opt_text(role),
                preview@,
                now,
                final(self)@,
            ),
            final(self)@.wf(),
    {
        let ghost base = self@;
        let ordinal = self.ordinal_for(thread_id);
        let display_name = match given_name(nickname) {
            Some(name) => name,
            None => agent_path.to_owned(),
        };
        let mut info = match self.agents.remove(thread_id.as_str()) {
            Some(info) => info,
            None => {
                self.order.push(thread_id.clone());
                SubagentInfo::new(
                    ordinal,
                    display_name.clone(),
                    role.clone(),
                    agent_path,
                    now,
                    truncate_text,
                )
            },
        };
        info.name = display_name;
        if role.is_some() {
            info.role = role;
        }
        info.note_activity(preview, now, truncate_text);
        let ghost entry = info;
        self.agents.insert(thread_id.text.clone(), info);
        proof {
            assert(base.agents.remove(thread_id@).insert(thread_id@, entry) =~= base.agents.insert(
                thread_id@,
                entry,
            ));
            assert(self@ =~= base.tracking(thread_id@, entry));
            lemma_tracking_wf(base, thread_id@, entry);
        }
    }

    /// Applies what a thread does to its agent, where it is tracked: it runs, or it has come to
    /// rest. A status that says more of the end than that is kept.
    pub fn set_thread_running<T: Fn(&str, usize) -> String>(
        &mut self,
        thread_id: &ThreadId,
        running: bool,
        now: Instant,
        truncate_text: &T,
    )
        requires
            old(self)@.wf(),
            takes_any_text(*truncate_text),
        ensures
            liveness_applied(
                *truncate_text,
                old(self)@,
                thread_id@,
                running,
                now,
                final(self)@,
            ),
            final(self)@.wf(),
    {
        let was_running = match self.agents.get(thread_id.as_str()) {
            Some(info) => info.status.is_running(),
            None => false,
        };
        if running {
            self.update_status(thread_id, PanelAgentStatus::Running, now, truncate_text);
        } else if was_running {
            self.update_status(thread_id, PanelAgentStatus::Completed(None), now, truncate_text);
        }
    }

    /// The panel of what is tracked now, or nothing where no agent is starting or at work.
    pub fn rebuild_panel(&mut self) -> (cell: Option<SubagentStatusCell>)
        requires
            old(self)@.wf(),
        ensures
            cell is Some <==> old(self)@.visible().len() > 0,
            final(self)@ == (RegistryView { mounted: cell is Some, ..old(self)@ }),
            cell matches Some(cell) ==> {
                &&& old(self)@.pictured(cell.state)
                &&& cell.motion_mode == match old(self)@.motion_mode {
                    Some(mode) => mode,
                    None => MotionMode::Reduced,
                }
                &&& cell.updates_mounted == old(self)@.mounted
            },
            final(self)@.wf(),
    {
        let ghost seen = self@;
        let ghost order = self@.order;
        let mut rows: Vec<SubagentPanelAgent> = Vec::new();
        let mut running: usize = 0;
        let mut started_at = Instant { nanos: 0 };
        let mut i: usize = 0;
        let ghost mut threads: Seq<Seq<char>> = Seq::empty();
        assert(threads == order.take(0).filter(seen.on_show())) by {
            reveal(Seq::filter);
        }
        assert(threads.filter(seen.at_work()).len() == 0) by {
            reveal(Seq::filter);
        }
        while i < self.order.len()
            invariant
                i <= self.order@.len(),
                seen == self@,
                order == seen.order,
                order.len() == self.order@.len(),
                threads == order.take(i as int).filter(seen.on_show()),
                rows@ == threads.map_values(|t: Seq<char>| row_of(seen.agents[t])),
                running == threads.filter(seen.at_work()).len(),
                running <= i,
                threads.len() > 0 ==> {
                    &&& exists|k: int|
                        0 <= k < threads.len() && seen.agents[#[trigger] threads[k]].spawned_at
                            == started_at
                    &&& forall|k: int|
                        0 <= k < threads.len() ==> started_at.nanos <= seen.agents[
                            #[trigger] threads[k]
                        ].spawned_at.nanos
                },
            decreases self.order@.len() - i,
        {
            let ghost t = order[i as int];
            assert(t == self.order@[i as int]@);
            proof {
                lemma_filter_push(order.take(i as int), t, seen.on_show());
                assert(order.take(i as int).push(t) =~= order.take(i + 1));
                lemma_filter_push(threads, t, seen.at_work());
            }
            let ghost before = threads;
            let ghost started_before = started_at;
            if let Some(info) = self.agents.get(self.order[i].as_str()) {
                if info.is_visible_in_panel() {
                    if info.is_running_for_panel() {
                        running += 1;
                    }
                    if rows.len() == 0 || info.spawned_at.nanos < started_at.nanos {
                        started_at = info.spawned_at;
                    }
                    rows.push(
                        SubagentPanelAgent {
                            ordinal: info.ordinal,
                            name: info.name.clone(),
                            status: info.status.clone(),
                            is_watchdog: info.is_watchdog(),
                            preview: info.latest_preview.clone(),
                            spawned_at: info.spawned_at,
                            latest_update_at: info.latest_update_at,
                        },
                    );
                    proof {
                        threads = threads.push(t);
                        assert(rows@ =~= threads.map_values(
                            |t: Seq<char>| row_of(seen.agents[t]),
                        ));
                        assert(threads[before.len() as int] == t);
                        if before.len() > 0 && started_at == started_before {
                            let k = choose|k: int|
                                0 <= k < before.len() && seen.agents[#[trigger] before[k]].spawned_at
                                    == started_before;
                            assert(threads[k] == before[k]);
                        }
                    }
                }
            }
            i += 1;
        }
        assert(order.take(i as int) =~= order);
        assert(threads == seen.visible());
        assert(rows@ == seen.rows());
        if rows.is_empty() {
            self.mounted = false;
            return None;
        }
        let total_agents = clamp_count(rows.len());
        let running_count = clamp_count(running);
        let running_agents = sort_by_rank(rows);
        let state = SubagentPanelState { started_at, total_agents, running_count, running_agents };
        let updates_mounted = self.mounted;
        self.mounted = true;
        let motion_mode = match self.motion_mode {
            Some(mode) => mode,
            None => MotionMode::Reduced,
        };
        Some(SubagentStatusCell { state, motion_mode, updates_mounted })
    }
}

/// What a grown sequence contains.
pub proof fn lemma_contains_push<A>(items: Seq<A>, item: A)
    ensures
        forall|a: A| #[trigger] items.push(item).contains(a) <==> a == item || items.contains(a),
{
    assert forall|a: A| #[trigger] items.push(item).contains(a) <==> a == item || items.contains(
        a,
    ) by {
        assert(items.push(item)[items.len() as int] == item);
        if items.contains(a) {
            let i = choose|i: int| 0 <= i < items.len() && items[i] == a;
            assert(items.push(item)[i] == a);
        }
        if items.push(item).contains(a) && a != item {
            let i = choose|i: int| 0 <= i < items.push(item).len() && items.push(item)[i] == a;
            assert(items[i] == a);
        }
    }
}

/// Two filters that agree on the items keep the same of them.
pub proof fn lemma_filter_agree<A>(
    items: Seq<A>,
    left: spec_fn(A) -> bool,
    right: spec_fn(A) -> bool,
)
    requires
        forall|i: int| 0 <= i < items.len() ==> left(#[trigger] items[i]) == right(items[i]),
    ensures
        items.filter(left) == items.filter(right),
    decreases items.len(),
{
    reveal(Seq::filter);
    if items.len() > 0 {
        let rest = items.drop_last();
        assert forall|i: int| 0 <= i < rest.len() implies left(#[trigger] rest[i]) == right(
            rest[i],
        ) by {
            assert(rest[i] == items[i]);
        }
        lemma_filter_agree(rest, left, right);
        assert(left(items[items.len() - 1]) == right(items[items.len() - 1]));
    }
}

/// A filter that accepts every item keeps them all.
pub proof fn lemma_filter_all<A>(items: Seq<A>, keep: spec_fn(A) -> bool)
    requires
        forall|i: int| 0 <= i < items.len() ==> keep(#[trigger] items[i]),
    ensures
        items.filter(keep) == items,
    decreases items.len(),
{
    reveal(Seq::filter);
    if items.len() > 0 {
        let rest = items.drop_last();
        assert forall|i: int| 0 <= i < rest.len() implies keep(#[trigger] rest[i]) by {
            assert(rest[i] == items[i]);
        }
        lemma_filter_all(rest, keep);
        assert(keep(items[items.len() - 1]));
        assert(rest.push(items.last()) =~= items);
    }
}

/// Filtering twice is filtering by both.
pub proof fn lemma_filter_filter<A>(
    items: Seq<A>,
    first: spec_fn(A) -> bool,
    second: spec_fn(A) -> bool,
    both: spec_fn(A) -> bool,
)
    requires
        forall|a: A| #[trigger] both(a) == (first(a) && second(a)),
    ensures
        items.filter(first).filter(second) == items.filter(both),
    decreases items.len(),
{
    reveal(Seq::filter);
    if items.len() > 0 {
        let rest = items.drop_last();
        lemma_filter_filter(rest, first, second, both);
        assert(both(items.last()) == (first(items.last()) && second(items.last())));
        lemma_filter_push(rest.filter(first), items.last(), second);
    }
}

} // verus!
