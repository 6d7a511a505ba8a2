use std::fmt::Debug;

use subagent_panel::actions::{
    Action, ActiveCell, ActiveMcpCall, ComputerUpdate, HistoryEntry, InterruptQueue, ItemHandler,
    McpOutcome, NewCell, Pending, Plan, SelectionItem, SelectionView,
};
use subagent_panel::chat_widget::{ChatContext, ChatWidget, ModelProvider};
use subagent_panel::clock::Instant;
use subagent_panel::protocol::{
    AgentMetadata, CollabAgentTool, CollabAgentToolCall, CollabAgentToolCallStatus, McpHistory,
    McpInvocation, PatchApplyStatus, Addressee, SubAgentActivity, SubAgentActivityKind, ThreadItem,
};
use subagent_panel::registry::SubagentPanelRegistry;
use subagent_panel::status::{CollabAgentState, CollabAgentStatus, PanelAgentStatus};
use subagent_panel::styled::{plain, span, Line, MotionMode};
use subagent_panel::text_map::TextMap;
use subagent_panel::thread_id::ThreadId;

type Chat = ChatWidget<&'static str>;
type Item = ThreadItem<&'static str>;

fn cut(text: &str, budget: usize) -> String {
    text.chars().take(budget).collect()
}

fn at(secs: u64) -> Instant {
    Instant { nanos: secs * 1_000_000_000 }
}

fn chat() -> Chat {
    ChatWidget {
        context: ChatContext {
            cwd: "/work".to_string(),
            session_configured: true,
            thread_id: None,
            model_provider_id: "openai".to_string(),
            model_providers: Vec::new(),
            animations: true,
            progress_effects: true,
            agent_turn_running: false,
            answer_streaming: false,
        },
        pending_collab_spawn_requests: TextMap::new(),
        subagent_panel_registry: SubagentPanelRegistry::new(MotionMode::Animated),
        subagent_panel: None,
    }
}

fn same<T: Debug>(left: T, right: T) {
    assert_eq!(format!("{left:?}"), format!("{right:?}"));
}

fn no_actions() -> Vec<Action<&'static str>> {
    Vec::new()
}

fn no_metadata() -> AgentMetadata {
    AgentMetadata { agent_nickname: None, agent_role: None }
}

fn named(nickname: &str) -> AgentMetadata {
    AgentMetadata { agent_nickname: Some(nickname.to_string()), agent_role: None }
}

fn thread(text: &str) -> ThreadId {
    ThreadId { text: text.to_string() }
}

fn receiver(text: &str) -> Addressee {
    Addressee { text: text.to_string(), thread_id: Some(thread(text)) }
}

fn states(reported: &[(&str, CollabAgentStatus, Option<&str>)]) -> TextMap<CollabAgentState> {
    let mut states = TextMap::new();
    for (id, status, message) in reported {
        let message = message.map(str::to_string);
        states.insert(id.to_string(), CollabAgentState { status: *status, message });
    }
    states
}

fn call(
    tool: CollabAgentTool,
    status: CollabAgentToolCallStatus,
    receivers: Vec<Addressee>,
    agents_states: TextMap<CollabAgentState>,
) -> Item {
    ThreadItem::CollabAgentToolCall(CollabAgentToolCall {
        id: "call".to_string(),
        tool,
        status,
        receivers,
        prompt: Some("do it".to_string()),
        agents_states,
    })
}

fn done(
    chat: &mut Chat,
    tool: CollabAgentTool,
    receivers: Vec<Addressee>,
    agents_states: TextMap<CollabAgentState>,
) -> Vec<Action<&'static str>> {
    let item = call(tool, CollabAgentToolCallStatus::Completed, receivers, agents_states);
    chat.update_subagent_panel_from_tool_call(&item, no_metadata(), at(50), &cut)
}

fn with_agents(ids: &[&str]) -> Chat {
    let mut chat = chat();
    for id in ids {
        let receivers = vec![receiver(id)];
        let reported = states(&[(id, CollabAgentStatus::Running, None)]);
        let actions = done(&mut chat, CollabAgentTool::SpawnAgent, receivers, reported);
        same(actions, vec![Action::RequestRedraw]);
    }
    chat
}

fn rows(chat: &Chat) -> Vec<(i32, PanelAgentStatus)> {
    match &chat.subagent_panel {
        Some(cell) => {
            cell.state.running_agents.iter().map(|row| (row.ordinal, row.status.clone())).collect()
        }
        None => Vec::new(),
    }
}

fn mcp_item(computer_activity: bool) -> Item {
    ThreadItem::McpToolCall {
        id: "m1".to_string(),
        server: "srv".to_string(),
        tool: "look".to_string(),
        arguments: "args",
        computer_activity,
        rest: "rest",
    }
}

fn invocation(computer_activity: bool) -> McpInvocation<&'static str> {
    McpInvocation {
        server: "srv".to_string(),
        tool: "look".to_string(),
        arguments: Some("args"),
        computer_activity,
    }
}

fn active_call(computer_activity: bool, animated: bool) -> ActiveMcpCall<&'static str> {
    ActiveMcpCall { id: "m1".to_string(), invocation: invocation(computer_activity), animated }
}

fn history(computer_activity: bool) -> McpHistory<&'static str> {
    McpHistory {
        id: "m1".to_string(),
        invocation: invocation(computer_activity),
        duration: "2s",
        result: "ok",
    }
}

fn outcome() -> McpOutcome<&'static str> {
    McpOutcome { duration: "2s", result: "ok" }
}

fn activity(kind: SubAgentActivityKind, id: Option<&str>) -> Item {
    ThreadItem::SubAgentActivity(SubAgentActivity {
        kind,
        thread_id: id.map(thread),
        agent_path: "/root/scout".to_string(),
    })
}

fn made(cell: &'static str) -> Vec<Action<&'static str>> {
    vec![
        Action::FlushAnswerStream,
        Action::AddToHistory(HistoryEntry::Made(cell)),
        Action::RequestRedraw,
    ]
}

#[test]
fn a_spawn_brings_up_the_panel() {
    let mut chat = chat();
    let item = call(
        CollabAgentTool::SpawnAgent,
        CollabAgentToolCallStatus::Completed,
        vec![receiver("t1"), receiver("t2")],
        states(&[]),
    );
    let actions = chat.update_subagent_panel_from_tool_call(&item, named("Ada"), at(3), &cut);
    same(actions, vec![Action::RequestRedraw]);
    let cell = chat.subagent_panel.as_ref().expect("a panel");
    assert_eq!(cell.state.running_agents.len(), 1);
    let row = &cell.state.running_agents[0];
    assert_eq!(row.name, "Ada");
    assert_eq!(row.status, PanelAgentStatus::PendingInit);
    assert_eq!(row.preview, "do it");
    assert_eq!(row.spawned_at, at(3));
}

#[test]
fn a_spawn_takes_the_reported_state() {
    let chat = with_agents(&["t1", "t2"]);
    assert_eq!(rows(&chat), vec![(1, PanelAgentStatus::Running), (2, PanelAgentStatus::Running)]);
}

#[test]
fn a_call_in_progress_leaves_the_panel_alone() {
    let mut chat = with_agents(&["t1"]);
    let before = format!("{chat:?}");
    let item = call(
        CollabAgentTool::CloseAgent,
        CollabAgentToolCallStatus::InProgress,
        vec![receiver("t1")],
        states(&[]),
    );
    let actions = chat.update_subagent_panel_from_tool_call(&item, no_metadata(), at(60), &cut);
    same(actions, no_actions());
    assert_eq!(format!("{chat:?}"), before);
}

#[test]
fn a_failed_call_counts_like_a_completed_one() {
    let mut chat = with_agents(&["t1"]);
    let item = call(
        CollabAgentTool::CloseAgent,
        CollabAgentToolCallStatus::Failed,
        vec![receiver("t1")],
        states(&[]),
    );
    let actions = chat.update_subagent_panel_from_tool_call(&item, no_metadata(), at(60), &cut);
    same(actions, vec![Action::RequestRedraw]);
    assert!(chat.subagent_panel.is_none());
}

#[test]
fn calls_to_nobody_and_listings_leave_the_panel_alone() {
    let mut chat = with_agents(&["t1"]);
    let before = format!("{chat:?}");
    let nameless = || vec![Addressee { text: "??".to_string(), thread_id: None }, receiver("t1")];
    for tool in [
        CollabAgentTool::SpawnAgent,
        CollabAgentTool::SendInput,
        CollabAgentTool::ResumeAgent,
        CollabAgentTool::SendMessage,
        CollabAgentTool::FollowupTask,
        CollabAgentTool::CloseAgent,
        CollabAgentTool::InterruptAgent,
    ] {
        same(done(&mut chat, tool, Vec::new(), states(&[])), no_actions());
        same(done(&mut chat, tool, nameless(), states(&[])), no_actions());
    }
    let listing = done(&mut chat, CollabAgentTool::ListAgents, vec![receiver("t1")], states(&[]));
    same(listing, no_actions());
    let other = ThreadItem::Other("x");
    same(
        chat.update_subagent_panel_from_tool_call(&other, no_metadata(), at(9), &cut),
        no_actions(),
    );
    assert_eq!(format!("{chat:?}"), before);
}

#[test]
fn an_interaction_without_a_state_is_an_error() {
    for tool in [
        CollabAgentTool::SendInput,
        CollabAgentTool::ResumeAgent,
        CollabAgentTool::SendMessage,
        CollabAgentTool::FollowupTask,
    ] {
        let mut chat = with_agents(&["t1", "t2"]);
        let reported = states(&[("t2", CollabAgentStatus::Running, None)]);
        same(done(&mut chat, tool, vec![receiver("t1")], reported), vec![Action::RequestRedraw]);
        assert_eq!(rows(&chat), vec![(2, PanelAgentStatus::Running)]);
        let reported = states(&[("t1", CollabAgentStatus::PendingInit, None)]);
        done(&mut chat, tool, vec![receiver("t1")], reported);
        assert_eq!(
            rows(&chat),
            vec![(1, PanelAgentStatus::PendingInit), (2, PanelAgentStatus::Running)],
        );
    }
}

#[test]
fn a_wait_updates_each_receiver_with_a_state() {
    let mut chat = with_agents(&["t1", "t2", "t3"]);
    let receivers = vec![
        receiver("t1"),
        Addressee { text: "t2".to_string(), thread_id: None },
        receiver("t3"),
        receiver("t9"),
    ];
    let reported = states(&[
        ("t1", CollabAgentStatus::Completed, Some("done")),
        ("t2", CollabAgentStatus::Completed, None),
        ("t9", CollabAgentStatus::Running, None),
    ]);
    same(
        done(&mut chat, CollabAgentTool::Wait, receivers, reported),
        vec![Action::RequestRedraw],
    );
    assert_eq!(rows(&chat), vec![(2, PanelAgentStatus::Running), (3, PanelAgentStatus::Running)]);
}

#[test]
fn a_wait_reads_the_state_under_the_text_of_the_receiver() {
    let mut chat = with_agents(&["t1"]);
    let alias = Addressee { text: "T1".to_string(), thread_id: Some(thread("t1")) };
    let reported = states(&[("t1", CollabAgentStatus::Shutdown, None)]);
    done(&mut chat, CollabAgentTool::Wait, vec![alias], reported);
    assert_eq!(rows(&chat), vec![(1, PanelAgentStatus::Running)]);
    let alias = Addressee { text: "T1".to_string(), thread_id: Some(thread("t1")) };
    let reported = states(&[("T1", CollabAgentStatus::Shutdown, None)]);
    done(&mut chat, CollabAgentTool::Wait, vec![alias], reported);
    assert!(chat.subagent_panel.is_none());
}

#[test]
fn a_wait_for_nobody_still_redraws() {
    let mut chat = chat();
    same(
        done(&mut chat, CollabAgentTool::Wait, Vec::new(), states(&[])),
        vec![Action::RequestRedraw],
    );
    assert!(chat.subagent_panel.is_none());
}

#[test]
fn a_wait_without_states_changes_no_agent() {
    let mut chat = with_agents(&["t1", "t2"]);
    let before = rows(&chat);
    let receivers = vec![receiver("t1"), receiver("t2")];
    done(&mut chat, CollabAgentTool::Wait, receivers, states(&[]));
    assert_eq!(rows(&chat), before);
}

#[test]
fn closing_and_interrupting_take_agents_off_the_panel() {
    let mut chat = with_agents(&["t1", "t2"]);
    done(&mut chat, CollabAgentTool::InterruptAgent, vec![receiver("t1")], states(&[]));
    assert_eq!(rows(&chat), vec![(2, PanelAgentStatus::Running)]);
    done(&mut chat, CollabAgentTool::CloseAgent, vec![receiver("t2")], states(&[]));
    assert!(chat.subagent_panel.is_none());
    same(chat.refresh_subagent_panel(), vec![Action::RequestRedraw]);
    assert!(chat.subagent_panel.is_none());
}

#[test]
fn the_request_of_a_spawn_waits_for_its_end() {
    let mut chat = chat();
    let spawn = |status| call(CollabAgentTool::SpawnAgent, status, Vec::new(), TextMap::new());
    let plan = chat.on_collab_agent_tool_call(
        spawn(CollabAgentToolCallStatus::InProgress),
        Some("request"),
        true,
    );
    same(plan.actions, no_actions());
    assert!(matches!(
        plan.pending,
        Some(Pending::CollabAgentToolCall { cached_spawn_request: None, update_panel: true, .. })
    ));
    assert_eq!(chat.pending_collab_spawn_requests.get("call"), Some(&"request"));
    let end = || spawn(CollabAgentToolCallStatus::Completed);
    let plan = chat.on_collab_agent_tool_call(end(), None, false);
    assert!(matches!(
        plan.pending,
        Some(Pending::CollabAgentToolCall {
            cached_spawn_request: Some("request"),
            update_panel: false,
            ..
        })
    ));
    assert!(chat.pending_collab_spawn_requests.get("call").is_none());
    let plan = chat.on_collab_agent_tool_call(end(), None, false);
    assert!(matches!(
        plan.pending,
        Some(Pending::CollabAgentToolCall { cached_spawn_request: None, .. })
    ));
    let plan = chat.on_collab_agent_tool_call(end(), Some("at once"), false);
    assert!(matches!(
        plan.pending,
        Some(Pending::CollabAgentToolCall { cached_spawn_request: Some("at once"), .. })
    ));
}

#[test]
fn other_calls_keep_the_request_of_a_spawn() {
    let mut chat = chat();
    chat.pending_collab_spawn_requests.insert("call".to_string(), "request");
    let wait = call(
        CollabAgentTool::Wait,
        CollabAgentToolCallStatus::Completed,
        Vec::new(),
        TextMap::new(),
    );
    let plan = chat.on_collab_agent_tool_call(wait, Some("ignored"), true);
    assert!(matches!(
        plan.pending,
        Some(Pending::CollabAgentToolCall { cached_spawn_request: None, .. })
    ));
    assert_eq!(chat.pending_collab_spawn_requests.get("call"), Some(&"request"));
    same(chat.on_collab_agent_tool_call(mcp_item(false), None, true), Plan::nothing());
}

#[test]
fn a_resumed_call_shows_its_cell_and_moves_the_panel() {
    let mut chat = with_agents(&["t1"]);
    let close = call(
        CollabAgentTool::CloseAgent,
        CollabAgentToolCallStatus::Completed,
        vec![receiver("t1")],
        states(&[]),
    );
    let shown = chat.resume_collab_agent_tool_call(
        &close,
        Some("cell"),
        false,
        no_metadata(),
        at(60),
        &cut,
    );
    same(shown, Plan::of(made("cell")));
    assert!(chat.subagent_panel.is_some());
    let mut expected = made("cell");
    expected.push(Action::RequestRedraw);
    let moved = chat.resume_collab_agent_tool_call(
        &close,
        Some("cell"),
        true,
        no_metadata(),
        at(60),
        &cut,
    );
    same(moved, Plan::of(expected));
    assert!(chat.subagent_panel.is_none());
    let silent =
        chat.resume_collab_agent_tool_call(&close, None, false, no_metadata(), at(60), &cut);
    same(silent, Plan::nothing());
}

#[test]
fn replayed_activity_never_mounts_the_panel() {
    let mut chat = chat();
    let item = activity(SubAgentActivityKind::Started, Some("t1"));
    let plan = chat.on_sub_agent_activity(item, Some("cell"), no_metadata(), false, at(1), &cut);
    same(plan, Plan::of(made("cell")));
    let item = activity(SubAgentActivityKind::Started, Some("t1"));
    let plan = chat.on_sub_agent_activity(item, None, no_metadata(), false, at(1), &cut);
    same(plan, Plan::nothing());
    assert!(chat.subagent_panel.is_none());
    assert!(chat.subagent_panel_registry.rebuild_panel().is_none());
}

#[test]
fn activity_waits_while_a_turn_runs_or_an_answer_streams() {
    for (turn, answer) in [(true, false), (false, true), (true, true)] {
        let mut chat = chat();
        chat.context.agent_turn_running = turn;
        chat.context.answer_streaming = answer;
        let item = || activity(SubAgentActivityKind::Started, Some("t1"));
        let plan =
            chat.on_sub_agent_activity(item(), Some("cell"), no_metadata(), true, at(1), &cut);
        same(
            plan,
            Plan::of(vec![Action::DeferOrHandle {
                item: item(),
                queue: InterruptQueue::ItemCompleted,
                handler: ItemHandler::SubAgentActivity,
            }]),
        );
        assert!(chat.subagent_panel.is_none());
    }
}

#[test]
fn activity_is_followed_on_the_panel() {
    let mut chat = chat();
    let item = activity(SubAgentActivityKind::Started, Some("t1"));
    let plan = chat.on_sub_agent_activity(item, Some("cell"), named("Ada"), true, at(1), &cut);
    let mut expected = made("cell");
    expected.push(Action::RequestRedraw);
    same(plan, Plan::of(expected));
    {
        let cell = chat.subagent_panel.as_ref().expect("a panel");
        let row = &cell.state.running_agents[0];
        assert_eq!(row.name, "Ada");
        assert_eq!(row.preview, "working in `/root/scout`");
        assert_eq!(row.status, PanelAgentStatus::PendingInit);
    }
    let item = activity(SubAgentActivityKind::Interacted, Some("t1"));
    chat.on_sub_agent_activity(item, None, no_metadata(), true, at(4), &cut);
    {
        let cell = chat.subagent_panel.as_ref().expect("a panel");
        assert_eq!(cell.state.running_agents.len(), 1);
        assert_eq!(cell.state.running_agents[0].latest_update_at, at(4));
        assert_eq!(cell.state.running_agents[0].name, "/root/scout");
    }
    let item = activity(SubAgentActivityKind::Completed, Some("t1"));
    let plan = chat.on_sub_agent_activity(item, None, no_metadata(), true, at(5), &cut);
    same(plan, Plan::of(vec![Action::RequestRedraw]));
    assert!(chat.subagent_panel.is_none());
    let item = activity(SubAgentActivityKind::Interrupted, Some("t9"));
    let plan = chat.on_sub_agent_activity(item, None, no_metadata(), true, at(5), &cut);
    same(plan, Plan::of(vec![Action::RequestRedraw]));
    let item = activity(SubAgentActivityKind::Started, None);
    let plan = chat.handle_sub_agent_activity_now(&item, None, no_metadata(), at(5), &cut);
    same(plan, Plan::nothing());
    assert!(chat.subagent_panel.is_none());
}

#[test]
fn patches_leave_a_trace_when_they_start_and_when_they_fail() {
    let chat = chat();
    same(
        chat.on_patch_apply_begin("changes"),
        Plan::of(vec![Action::AddToHistory(HistoryEntry::PatchEvent {
            changes: "changes",
            cwd: "/work".to_string(),
        })]),
    );
    let patch = |status| ThreadItem::FileChange { status, rest: "rest" };
    same(
        chat.on_file_change_completed(patch(PatchApplyStatus::Failed)),
        Plan::of(vec![Action::DeferOrHandle {
            item: patch(PatchApplyStatus::Failed),
            queue: InterruptQueue::ItemCompleted,
            handler: ItemHandler::FileChangeCompleted,
        }]),
    );
    same(
        chat.handle_file_change_completed_now(patch(PatchApplyStatus::Failed)),
        Plan::of(vec![Action::AddToHistory(HistoryEntry::PatchApplyFailure {
            stderr: String::new(),
        })]),
    );
    for status in
        [PatchApplyStatus::InProgress, PatchApplyStatus::Completed, PatchApplyStatus::Declined]
    {
        same(chat.handle_file_change_completed_now(patch(status)), Plan::nothing());
    }
    same(chat.handle_file_change_completed_now(ThreadItem::Other("x")), Plan::nothing());
}

#[test]
fn images_are_put_into_the_history() {
    let chat = chat();
    same(
        chat.on_view_image_tool_call("a.png".to_string()),
        Plan::of(vec![
            Action::FlushAnswerStream,
            Action::AddToHistory(HistoryEntry::ViewImage { path: "a.png".to_string() }),
            Action::RequestRedraw,
        ]),
    );
    same(
        chat.on_image_generation_begin(),
        Plan {
            actions: vec![Action::FlushAnswerStream],
            pending: Some(Pending::ImageGenerationBegin),
        },
    );
    same(
        chat.resume_image_generation_begin(true),
        Plan::of(vec![Action::EnsureStatusIndicator]),
    );
    same(chat.resume_image_generation_begin(false), Plan::nothing());
    let entry = || HistoryEntry::ImageGeneration {
        call_id: "i1".to_string(),
        status: "completed".to_string(),
        revised_prompt: Some("a cat".to_string()),
        saved_path: None,
    };
    same(
        chat.on_image_generation_end(
            "i1".to_string(),
            "completed".to_string(),
            Some("a cat".to_string()),
            None,
        ),
        Plan::of(vec![
            Action::FlushAnswerStream,
            Action::AddToHistory(entry()),
            Action::RequestRedraw,
        ]),
    );
}

#[test]
fn a_web_search_ends_in_its_cell_or_in_the_history() {
    let mut chat = chat();
    let begun = |animated| {
        Plan::of(vec![
            Action::FlushAnswerStream,
            Action::FlushActiveCell,
            Action::SetActiveCell(NewCell::WebSearch {
                call_id: "w1".to_string(),
                query: String::new(),
                animated,
            }),
            Action::BumpActiveCellRevision,
            Action::RequestRedraw,
        ])
    };
    same(chat.on_web_search_begin("w1".to_string()), begun(true));
    chat.context.progress_effects = false;
    same(chat.on_web_search_begin("w1".to_string()), begun(false));
    chat.context.progress_effects = true;
    chat.context.animations = false;
    same(chat.on_web_search_begin("w1".to_string()), begun(false));
    let query = || "verus".to_string();
    same(
        chat.on_web_search_end("w1".to_string(), query(), "open"),
        Plan {
            actions: vec![Action::FlushAnswerStream],
            pending: Some(Pending::WebSearchEnd {
                call_id: "w1".to_string(),
                query: query(),
                action: "open",
            }),
        },
    );
    let resumed = |active: &ActiveCell| {
        chat.resume_web_search_end("w1".to_string(), query(), "open", active)
    };
    same(
        resumed(&ActiveCell::WebSearch { call_id: "w1".to_string() }),
        Plan::of(vec![
            Action::UpdateWebSearch { action: "open", query: query() },
            Action::CompleteWebSearch,
            Action::BumpActiveCellRevision,
            Action::FlushActiveCell,
        ]),
    );
    for active in [
        ActiveCell::Absent,
        ActiveCell::WebSearch { call_id: "w2".to_string() },
        ActiveCell::McpToolCall { call_id: "w1".to_string() },
        ActiveCell::ComputerActivity,
        ActiveCell::Other,
    ] {
        same(
            resumed(&active),
            Plan::of(vec![Action::AddToHistory(HistoryEntry::WebSearch {
                call_id: "w1".to_string(),
                query: query(),
                action: "open",
            })]),
        );
    }
}

#[test]
fn a_tool_call_starts_in_a_cell_of_its_own() {
    let mut chat = chat();
    same(
        chat.on_mcp_tool_call_started(mcp_item(false)),
        Plan::of(vec![Action::DeferOrHandle {
            item: mcp_item(false),
            queue: InterruptQueue::ItemStarted,
            handler: ItemHandler::McpToolCallStarted,
        }]),
    );
    let started = |animated| {
        Plan::of(vec![
            Action::FlushAnswerStream,
            Action::FlushActiveCell,
            Action::SetActiveCell(NewCell::McpToolCall(active_call(false, animated), None)),
            Action::BumpActiveCellRevision,
            Action::RequestRedraw,
        ])
    };
    same(chat.handle_mcp_tool_call_started_now(mcp_item(false)), started(true));
    chat.context.animations = false;
    same(chat.handle_mcp_tool_call_started_now(mcp_item(false)), started(false));
    same(chat.handle_mcp_tool_call_started_now(ThreadItem::Other("x")), Plan::nothing());
}

#[test]
fn adjacent_computer_calls_share_a_cell() {
    let chat = chat();
    same(
        chat.handle_mcp_tool_call_started_now(mcp_item(true)),
        Plan {
            actions: vec![Action::FlushAnswerStream],
            pending: Some(Pending::ComputerActivity(ComputerUpdate::Start(active_call(
                true, true,
            )))),
        },
    );
    let start = || ComputerUpdate::Start(active_call(true, true));
    same(
        chat.resume_computer_activity(start(), &ActiveCell::ComputerActivity),
        Plan::of(vec![
            Action::UpdateComputerActivity(start()),
            Action::BumpActiveCellRevision,
            Action::RequestRedraw,
        ]),
    );
    for active in [ActiveCell::Absent, ActiveCell::Other] {
        same(
            chat.resume_computer_activity(start(), &active),
            Plan::of(vec![
                Action::FlushActiveCell,
                Action::SetActiveCell(NewCell::ComputerActivity(start())),
                Action::BumpActiveCellRevision,
                Action::RequestRedraw,
            ]),
        );
        same(
            chat.update_computer_activity(start(), &active),
            vec![
                Action::FlushActiveCell,
                Action::SetActiveCell(NewCell::ComputerActivity(start())),
            ],
        );
    }
    same(
        chat.resume_mcp_tool_call_completed(Some(history(true)), &ActiveCell::ComputerActivity),
        Plan::of(vec![
            Action::UpdateComputerActivity(ComputerUpdate::Complete(
                active_call(true, true),
                outcome(),
            )),
            Action::BumpActiveCellRevision,
            Action::RequestRedraw,
        ]),
    );
}

#[test]
fn a_tool_call_ends_in_its_cell_or_in_a_new_one() {
    let chat = chat();
    same(
        chat.on_mcp_tool_call_completed(mcp_item(false)),
        Plan::of(vec![Action::DeferOrHandle {
            item: mcp_item(false),
            queue: InterruptQueue::ItemCompleted,
            handler: ItemHandler::McpToolCallCompleted,
        }]),
    );
    same(
        chat.handle_mcp_tool_call_completed_now(mcp_item(false)),
        Plan {
            actions: vec![Action::FlushAnswerStream],
            pending: Some(Pending::McpToolCallCompleted(mcp_item(false))),
        },
    );
    let ended =
        |active: &ActiveCell| chat.resume_mcp_tool_call_completed(Some(history(false)), active);
    same(
        ended(&ActiveCell::McpToolCall { call_id: "m1".to_string() }),
        Plan::of(vec![Action::CompleteMcpToolCall(outcome()), Action::FlushActiveCell]),
    );
    for active in [
        ActiveCell::Absent,
        ActiveCell::McpToolCall { call_id: "m2".to_string() },
        ActiveCell::WebSearch { call_id: "m1".to_string() },
        ActiveCell::ComputerActivity,
    ] {
        same(
            ended(&active),
            Plan::of(vec![
                Action::FlushActiveCell,
                Action::SetActiveCell(NewCell::McpToolCall(
                    active_call(false, true),
                    Some(outcome()),
                )),
                Action::FlushActiveCell,
            ]),
        );
    }
    same(chat.resume_mcp_tool_call_completed(None, &ActiveCell::Absent), Plan::nothing());
}

#[test]
fn older_computer_activity_goes_ahead_of_the_active_cell() {
    let chat = chat();
    same(
        chat.prepend_active_computer_history(&ActiveCell::ComputerActivity, Some("older"), 41),
        Some((
            vec![Action::PrependComputerHistory("older"), Action::BumpActiveCellRevision],
            41,
        )),
    );
    same(
        chat.prepend_active_computer_history(&ActiveCell::ComputerActivity, None, 41),
        None,
    );
    same(chat.prepend_active_computer_history(&ActiveCell::Other, Some("older"), 41), None);
}

#[test]
fn a_deferred_item_goes_to_the_handler_it_waited_for() {
    let mut chat = chat();
    same(
        chat.handle_queued_item_started_now(mcp_item(false)),
        chat.handle_mcp_tool_call_started_now(mcp_item(false)),
    );
    same(
        chat.handle_queued_item_started_now(ThreadItem::CommandExecution("ls")),
        Plan::of(vec![Action::HandleCommandExecutionStarted(ThreadItem::CommandExecution("ls"))]),
    );
    same(
        chat.handle_queued_item_started_now(ThreadItem::DynamicToolCall("d")),
        Plan::of(vec![Action::HandleDynamicToolItem(ThreadItem::DynamicToolCall("d"))]),
    );
    let patch = || ThreadItem::FileChange { status: PatchApplyStatus::Failed, rest: "rest" };
    same(chat.handle_queued_item_started_now(patch()), Plan::nothing());
    let started = || activity(SubAgentActivityKind::Started, Some("t1"));
    same(chat.handle_queued_item_started_now(started()), Plan::nothing());
    let mut completed = |item: Item, cell: Option<&'static str>| {
        chat.handle_queued_item_completed_now(item, cell, no_metadata(), at(1), &cut)
    };
    same(
        completed(ThreadItem::CommandExecution("ls"), None),
        Plan::of(vec![Action::HandleCommandExecutionCompleted(ThreadItem::CommandExecution(
            "ls",
        ))]),
    );
    same(
        completed(ThreadItem::DynamicToolCall("d"), None),
        Plan::of(vec![Action::HandleDynamicToolItem(ThreadItem::DynamicToolCall("d"))]),
    );
    same(
        completed(patch(), None),
        Plan::of(vec![Action::AddToHistory(HistoryEntry::PatchApplyFailure {
            stderr: String::new(),
        })]),
    );
    same(
        completed(mcp_item(false), None),
        Plan {
            actions: vec![Action::FlushAnswerStream],
            pending: Some(Pending::McpToolCallCompleted(mcp_item(false))),
        },
    );
    same(completed(ThreadItem::Other("x"), Some("ignored")), Plan::nothing());
    let mut expected = made("cell");
    expected.push(Action::RequestRedraw);
    same(completed(started(), Some("cell")), Plan::of(expected));
    assert_eq!(rows(&chat), vec![(1, PanelAgentStatus::PendingInit)]);
}

#[test]
fn an_item_that_need_not_wait_goes_to_its_handler() {
    let mut chat = chat();
    let patch = || ThreadItem::FileChange { status: PatchApplyStatus::Failed, rest: "rest" };
    let mut handled = |item: Item, handler: ItemHandler| {
        chat.handle_item_now(item, handler, Some("cell"), no_metadata(), at(1), &cut)
    };
    same(
        handled(patch(), ItemHandler::FileChangeCompleted),
        Plan::of(vec![Action::AddToHistory(HistoryEntry::PatchApplyFailure {
            stderr: String::new(),
        })]),
    );
    same(handled(patch(), ItemHandler::McpToolCallStarted), Plan::nothing());
    same(
        handled(patch(), ItemHandler::McpToolCallCompleted),
        Plan {
            actions: vec![Action::FlushAnswerStream],
            pending: Some(Pending::McpToolCallCompleted(patch())),
        },
    );
    same(handled(patch(), ItemHandler::SubAgentActivity), Plan::of(made("cell")));
    let mut expected = made("cell");
    expected.push(Action::RequestRedraw);
    let started = activity(SubAgentActivityKind::Started, Some("t1"));
    same(handled(started, ItemHandler::SubAgentActivity), Plan::of(expected));
    same(
        handled(mcp_item(false), ItemHandler::McpToolCallStarted).actions.len(),
        5,
    );
    assert_eq!(rows(&chat), vec![(1, PanelAgentStatus::PendingInit)]);
}

#[test]
fn the_ends_of_a_channel_go_to_the_fetch_and_to_the_list() {
    let (response_tx, response_rx) = tokio::sync::oneshot::channel();
    let ends = (response_tx, response_rx);
    let mut actions = chat().experimental_features_actions(&thread("t7"), ends).into_iter();
    match (actions.next(), actions.next()) {
        (
            Some(Action::FetchExperimentalFeatures { thread_id: asked, response_tx }),
            Some(Action::ShowExperimentalFeatures { thread_id: shown, mut response_rx }),
        ) => {
            assert_eq!((asked, shown), (thread("t7"), thread("t7")));
            assert_eq!(response_tx.send("list"), Ok(()));
            assert_eq!(response_rx.try_recv().ok(), Some("list"));
        }
        other => panic!("{other:?}"),
    }
    assert!(actions.next().is_none());
}

#[test]
fn updates_between_rebuilds_keep_the_panel_mounted() {
    let mut chat = with_agents(&["t1", "t2"]);
    let registry = &mut chat.subagent_panel_registry;
    registry.update_status(&thread("t1"), PanelAgentStatus::Shutdown, at(60), &cut);
    registry.set_thread_running(&thread("t1"), true, at(61), &cut);
    registry.close(&thread("t2"));
    assert!(registry.rebuild_panel().expect("a panel").updates_mounted);
    registry.close(&thread("t1"));
    assert!(registry.rebuild_panel().is_none());
}

#[test]
fn a_collaboration_event_is_put_into_the_history() {
    same(chat().on_collab_event("cell"), Plan::of(made("cell")));
}

#[test]
fn providers_are_listed_by_identity_with_the_current_one_marked() {
    let mut chat = chat();
    let provider =
        |id: &str, name: &str| ModelProvider { id: id.to_string(), name: name.to_string() };
    chat.context.model_providers =
        vec![provider("openai", "OpenAI"), provider("azure", "Azure"), provider("oss", "Local")];
    let item = |id: &str, name: &str, is_current| SelectionItem {
        name: name.to_string(),
        description: Some(id.to_string()),
        is_current,
        selects_provider: id.to_string(),
        dismiss_on_select: true,
    };
    let expected = || {
        vec![Action::ShowSelectionView(SelectionView {
            header: vec![
                Line { spans: vec![span("Select Model Provider", plain().bold())] },
                Line {
                    spans: vec![span(
                        "Switch this session to another configured provider.",
                        plain().dim(),
                    )],
                },
            ],
            standard_footer_hint: true,
            items: vec![
                item("azure", "Azure", false),
                item("openai", "OpenAI", true),
                item("oss", "Local", false),
            ],
        })]
    };
    same(chat.open_provider_popup(), expected());
    chat.context.model_providers.reverse();
    same(chat.open_provider_popup(), expected());
}

#[test]
fn providers_are_not_offered_before_startup_completes() {
    let mut chat = chat();
    chat.context.session_configured = false;
    same(
        chat.open_provider_popup(),
        vec![Action::AddInfoMessage {
            message: "Provider selection is disabled until startup completes.".to_string(),
            hint: None,
        }],
    );
}

#[test]
fn experimental_features_belong_to_a_thread() {
    let mut chat = chat();
    same(
        chat.open_experimental_popup(),
        vec![Action::AddInfoMessage {
            message: "Experimental features are unavailable until startup completes.".to_string(),
            hint: None,
        }],
    );
    chat.context.thread_id = Some(thread("t1"));
    let mut actions = chat.open_experimental_popup().into_iter();
    match (actions.next(), actions.next()) {
        (
            Some(Action::FetchExperimentalFeatures { thread_id: asked, response_tx }),
            Some(Action::ShowExperimentalFeatures { thread_id: shown, mut response_rx }),
        ) => {
            assert_eq!(asked, thread("t1"));
            assert_eq!(shown, thread("t1"));
            assert_eq!(response_rx.try_recv().ok(), None);
            assert_eq!(response_tx.send("features"), Ok(()));
            assert_eq!(response_rx.try_recv().ok(), Some("features"));
        }
        other => panic!("{other:?}"),
    }
    assert!(actions.next().is_none());
}
