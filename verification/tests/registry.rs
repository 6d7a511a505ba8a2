use subagent_panel::agent::{
    derive_subagent_name, prompt_preview, status_preview, watchdog_role, SubagentInfo,
    SUBAGENT_PROMPT_PREVIEW_BUDGET, SUBAGENT_UPDATE_PREVIEW_BUDGET,
};
use subagent_panel::clock::Instant;
use subagent_panel::panel::{SubagentPanelAgent, SubagentPanelState, SubagentStatusCell};
use subagent_panel::registry::SubagentPanelRegistry;
use subagent_panel::status::{CollabAgentState, CollabAgentStatus, PanelAgentStatus};
use subagent_panel::styled::MotionMode;
use subagent_panel::thread_id::ThreadId;

fn cut(text: &str, budget: usize) -> String {
    text.chars().take(budget).collect()
}

fn thread(text: &str) -> ThreadId {
    ThreadId { text: text.to_string() }
}

fn at(secs: u64) -> Instant {
    Instant { nanos: secs * 1_000_000_000 }
}

fn some(text: &str) -> Option<String> {
    Some(text.to_string())
}

fn spawn(registry: &mut SubagentPanelRegistry, id: &str, role: Option<&str>, secs: u64) {
    registry.on_spawn(
        &thread(id),
        None,
        role.map(str::to_string),
        &format!("task of {id}"),
        PanelAgentStatus::Running,
        at(secs),
        &cut,
    );
}

fn panel(registry: &mut SubagentPanelRegistry) -> SubagentPanelState {
    registry.rebuild_panel().expect("a panel").state
}

fn summary(registry: &mut SubagentPanelRegistry) -> Vec<(i32, String)> {
    match registry.rebuild_panel() {
        Some(cell) => {
            cell.state.running_agents.iter().map(|row| (row.ordinal, row.name.clone())).collect()
        }
        None => Vec::new(),
    }
}

#[test]
fn reported_states_become_panel_statuses() {
    let state = |status, message: Option<&str>| CollabAgentState {
        status,
        message: message.map(str::to_string),
    };
    let from = |state: CollabAgentState| PanelAgentStatus::from_collab_state(&state);
    assert_eq!(from(state(CollabAgentStatus::PendingInit, None)), PanelAgentStatus::PendingInit);
    assert_eq!(from(state(CollabAgentStatus::Running, Some("x"))), PanelAgentStatus::Running);
    assert_eq!(from(state(CollabAgentStatus::Interrupted, None)), PanelAgentStatus::Interrupted);
    assert_eq!(
        from(state(CollabAgentStatus::Completed, Some("done"))),
        PanelAgentStatus::Completed(some("done")),
    );
    assert_eq!(from(state(CollabAgentStatus::Completed, None)), PanelAgentStatus::Completed(None));
    assert_eq!(
        from(state(CollabAgentStatus::Errored, Some("boom"))),
        PanelAgentStatus::Errored("boom".to_string()),
    );
    assert_eq!(
        from(state(CollabAgentStatus::Errored, None)),
        PanelAgentStatus::Errored("Agent failed".to_string()),
    );
    assert_eq!(from(state(CollabAgentStatus::Shutdown, None)), PanelAgentStatus::Shutdown);
    assert_eq!(from(state(CollabAgentStatus::NotFound, None)), PanelAgentStatus::NotFound);
}

#[test]
fn only_starting_and_working_agents_run() {
    assert!(PanelAgentStatus::PendingInit.is_running());
    assert!(PanelAgentStatus::Running.is_running());
    assert!(!PanelAgentStatus::Interrupted.is_running());
    assert!(!PanelAgentStatus::Completed(None).is_running());
    assert!(!PanelAgentStatus::Errored(String::new()).is_running());
    assert!(!PanelAgentStatus::Shutdown.is_running());
    assert!(!PanelAgentStatus::NotFound.is_running());
}

#[test]
fn previews_are_trimmed_and_cut_to_their_budget() {
    assert_eq!(SUBAGENT_PROMPT_PREVIEW_BUDGET, 120);
    assert_eq!(SUBAGENT_UPDATE_PREVIEW_BUDGET, 160);
    assert_eq!(prompt_preview("\n  fix the bug \nmore", &cut), "fix the bug");
    let long = "x".repeat(500);
    assert_eq!(prompt_preview(&long, &cut), "x".repeat(120));
    let errored = PanelAgentStatus::Errored(format!("  {long}  "));
    assert_eq!(status_preview(&errored, &cut), Some("x".repeat(160)));
    let completed = PanelAgentStatus::Completed(some(" all good "));
    assert_eq!(status_preview(&completed, &cut), some("all good"));
    assert_eq!(status_preview(&PanelAgentStatus::Completed(None), &cut), some("completed"));
    assert_eq!(status_preview(&PanelAgentStatus::Interrupted, &cut), some("interrupted"));
    assert_eq!(status_preview(&PanelAgentStatus::Shutdown, &cut), some("shutdown"));
    assert_eq!(status_preview(&PanelAgentStatus::NotFound, &cut), some("not found"));
    assert_eq!(status_preview(&PanelAgentStatus::PendingInit, &cut), None);
    assert_eq!(status_preview(&PanelAgentStatus::Running, &cut), None);
}

#[test]
fn names_come_from_the_prompt_or_the_ordinal() {
    assert_eq!(derive_subagent_name("write docs\nplease", 4, &cut), "write docs");
    assert_eq!(derive_subagent_name("  \n ", 4, &cut), "agent-4");
    assert_eq!(derive_subagent_name("", -2, &cut), "agent--2");
}

#[test]
fn watchdogs_are_told_by_their_role() {
    assert!(watchdog_role(&some("watchdog")));
    assert!(!watchdog_role(&some("Watchdog")));
    assert!(!watchdog_role(&some("watchdog ")));
    assert!(!watchdog_role(&None));
}

#[test]
fn a_registered_agent_starts_with_its_prompt() {
    let info = SubagentInfo::new(3, "n".to_string(), None, " go \nnow", at(7), &cut);
    assert_eq!(info.ordinal, 3);
    assert_eq!(info.name, "n");
    assert_eq!(info.role, None);
    assert_eq!(info.prompt_preview, "go");
    assert_eq!(info.latest_preview, "go");
    assert_eq!(info.status, PanelAgentStatus::PendingInit);
    assert_eq!(info.spawned_at, at(7));
    assert_eq!(info.latest_update_at, at(7));
    assert!(!info.is_watchdog());
    assert!(info.is_visible_in_panel());
    assert!(info.is_running_for_panel());
}

#[test]
fn an_idle_watchdog_is_visible_but_does_not_run() {
    let mut info = SubagentInfo::new(1, "w".to_string(), some("watchdog"), "", at(0), &cut);
    assert!(info.is_watchdog());
    assert!(info.is_visible_in_panel());
    assert!(!info.is_running_for_panel());
    info.update_status(PanelAgentStatus::Running, at(1), &cut);
    assert!(info.is_running_for_panel());
    info.update_status(PanelAgentStatus::Shutdown, at(2), &cut);
    assert!(!info.is_visible_in_panel());
    assert!(!info.is_running_for_panel());
}

#[test]
fn a_running_status_brings_back_the_prompt() {
    let mut info = SubagentInfo::new(1, "a".to_string(), None, "the prompt", at(0), &cut);
    info.update_status(PanelAgentStatus::Errored(" bad ".to_string()), at(1), &cut);
    assert_eq!(info.latest_preview, "bad");
    assert_eq!(info.latest_update_at, at(1));
    info.update_status(PanelAgentStatus::Running, at(2), &cut);
    assert_eq!(info.latest_preview, "the prompt");
    assert_eq!(info.latest_update_at, at(2));
}

#[test]
fn an_activity_without_a_preview_only_counts_as_an_update() {
    let mut info = SubagentInfo::new(1, "a".to_string(), None, "prompt", at(0), &cut);
    info.note_activity("  reading ".to_string(), at(1), &cut);
    assert_eq!(info.latest_preview, "  reading ");
    info.note_activity(String::new(), at(5), &cut);
    assert_eq!(info.latest_preview, "  reading ");
    assert_eq!(info.latest_update_at, at(5));
    info.note_activity("y".repeat(300), at(6), &cut);
    assert_eq!(info.latest_preview, "y".repeat(160));
}

#[test]
fn a_new_registry_shows_no_panel() {
    assert!(SubagentPanelRegistry::default().rebuild_panel().is_none());
    assert!(SubagentPanelRegistry::new(MotionMode::Animated).rebuild_panel().is_none());
}

#[test]
fn the_panel_pictures_the_registry() {
    let mut registry = SubagentPanelRegistry::new(MotionMode::Animated);
    spawn(&mut registry, "t1", None, 20);
    registry.on_spawn(
        &thread("t2"),
        some("Ada"),
        some("watchdog"),
        "look out",
        PanelAgentStatus::PendingInit,
        at(10),
        &cut,
    );
    let cell = registry.rebuild_panel();
    let expected = SubagentStatusCell {
        state: SubagentPanelState {
            started_at: at(10),
            total_agents: 2,
            running_count: 1,
            running_agents: vec![
                SubagentPanelAgent {
                    ordinal: 1,
                    name: "task of t1".to_string(),
                    status: PanelAgentStatus::Running,
                    is_watchdog: false,
                    preview: "task of t1".to_string(),
                    spawned_at: at(20),
                    latest_update_at: at(20),
                },
                SubagentPanelAgent {
                    ordinal: 2,
                    name: "Ada".to_string(),
                    status: PanelAgentStatus::PendingInit,
                    is_watchdog: true,
                    preview: "look out".to_string(),
                    spawned_at: at(10),
                    latest_update_at: at(10),
                },
            ],
        },
        motion_mode: MotionMode::Animated,
        updates_mounted: false,
    };
    assert_eq!(cell, Some(expected));
}

#[test]
fn a_mounted_panel_is_updated_until_it_comes_down() {
    let mut registry = SubagentPanelRegistry::default();
    spawn(&mut registry, "t1", None, 1);
    let first = registry.rebuild_panel().expect("a panel");
    assert!(!first.updates_mounted);
    assert_eq!(first.motion_mode, MotionMode::Reduced);
    let second = registry.rebuild_panel().expect("a panel");
    assert!(second.updates_mounted);
    assert_eq!(second.state, first.state);
    registry.close(&thread("t1"));
    assert!(registry.rebuild_panel().is_none());
    spawn(&mut registry, "t1", None, 2);
    assert!(!registry.rebuild_panel().expect("a panel").updates_mounted);
}

#[test]
fn ordinals_count_the_tracked_agents() {
    let mut registry = SubagentPanelRegistry::default();
    assert_eq!(registry.ordinal_for(&thread("t1")), 1);
    spawn(&mut registry, "t1", None, 1);
    spawn(&mut registry, "t2", None, 2);
    assert_eq!(registry.ordinal_for(&thread("t1")), 1);
    assert_eq!(registry.ordinal_for(&thread("t2")), 2);
    assert_eq!(registry.ordinal_for(&thread("t3")), 3);
    registry.close(&thread("t1"));
    assert_eq!(registry.ordinal_for(&thread("t2")), 2);
    assert_eq!(registry.ordinal_for(&thread("t3")), 2);
}

#[test]
fn a_respawn_keeps_the_ordinal_and_the_birth() {
    let mut registry = SubagentPanelRegistry::default();
    spawn(&mut registry, "t1", None, 1);
    spawn(&mut registry, "t2", None, 2);
    registry.on_spawn(
        &thread("t1"),
        some("Bob"),
        some("scribe"),
        "another prompt",
        PanelAgentStatus::Running,
        at(9),
        &cut,
    );
    let state = panel(&mut registry);
    assert_eq!(state.running_agents.len(), 2);
    let row = &state.running_agents[0];
    assert_eq!((row.ordinal, row.name.as_str()), (1, "Bob"));
    assert_eq!(row.preview, "task of t1");
    assert_eq!(row.spawned_at, at(1));
    assert_eq!(row.latest_update_at, at(9));
}

#[test]
fn a_blank_nickname_is_no_name() {
    let mut registry = SubagentPanelRegistry::default();
    registry.on_spawn(
        &thread("t1"),
        some(" \t"),
        None,
        "",
        PanelAgentStatus::PendingInit,
        at(0),
        &cut,
    );
    registry.upsert_activity(
        &thread("t2"),
        "/root/two",
        some("  "),
        None,
        "busy".to_string(),
        at(0),
        &cut,
    );
    assert_eq!(
        summary(&mut registry),
        vec![(1, "agent-1".to_string()), (2, "/root/two".to_string())],
    );
}

#[test]
fn a_new_watchdog_makes_the_others_give_way() {
    let mut registry = SubagentPanelRegistry::default();
    spawn(&mut registry, "w1", Some("watchdog"), 1);
    spawn(&mut registry, "t1", None, 2);
    spawn(&mut registry, "w2", Some("watchdog"), 3);
    assert_eq!(
        summary(&mut registry),
        vec![(2, "task of t1".to_string()), (2, "task of w2".to_string())],
    );
    spawn(&mut registry, "w2", Some("watchdog"), 4);
    assert_eq!(
        summary(&mut registry),
        vec![(2, "task of t1".to_string()), (2, "task of w2".to_string())],
    );
    registry.prune_superseded_watchdogs(&thread("t1"));
    assert_eq!(summary(&mut registry), vec![(2, "task of t1".to_string())]);
}

#[test]
fn closing_undoes_a_spawn_of_a_new_agent() {
    let mut registry = SubagentPanelRegistry::default();
    spawn(&mut registry, "t1", None, 1);
    let before = panel(&mut registry);
    spawn(&mut registry, "t2", None, 2);
    registry.close(&thread("t2"));
    assert_eq!(panel(&mut registry), before);
    registry.close(&thread("t2"));
    assert_eq!(panel(&mut registry), before);
    assert_eq!(registry.ordinal_for(&thread("t2")), 2);
}

#[test]
fn an_activity_registers_and_then_updates() {
    let mut registry = SubagentPanelRegistry::default();
    registry.upsert_activity(
        &thread("t1"),
        "/root/scout",
        None,
        some("explorer"),
        "working in `/root/scout`".to_string(),
        at(1),
        &cut,
    );
    let state = panel(&mut registry);
    let row = &state.running_agents[0];
    assert_eq!(row.name, "/root/scout");
    assert_eq!(row.status, PanelAgentStatus::PendingInit);
    assert_eq!(row.preview, "working in `/root/scout`");
    registry.upsert_activity(
        &thread("t1"),
        "/root/scout",
        some("Scout"),
        some("watchdog"),
        String::new(),
        at(5),
        &cut,
    );
    let state = panel(&mut registry);
    assert_eq!(state.running_agents.len(), 1);
    let row = &state.running_agents[0];
    assert_eq!(row.name, "Scout");
    assert!(row.is_watchdog);
    assert_eq!(row.preview, "working in `/root/scout`");
    assert_eq!((row.spawned_at, row.latest_update_at), (at(1), at(5)));
    registry.upsert_activity(
        &thread("t1"),
        "/root/scout",
        None,
        None,
        "x".to_string(),
        at(6),
        &cut,
    );
    let row = &panel(&mut registry).running_agents[0];
    assert_eq!(row.name, "/root/scout");
    assert!(row.is_watchdog);
}

#[test]
fn a_report_on_an_unknown_thread_changes_nothing() {
    let mut registry = SubagentPanelRegistry::default();
    spawn(&mut registry, "t1", None, 1);
    let before = panel(&mut registry);
    registry.update_status(&thread("t9"), PanelAgentStatus::Running, at(2), &cut);
    registry.set_thread_running(&thread("t9"), true, at(2), &cut);
    registry.set_thread_running(&thread("t9"), false, at(2), &cut);
    assert_eq!(panel(&mut registry), before);
}

#[test]
fn an_ended_agent_leaves_the_panel() {
    let mut registry = SubagentPanelRegistry::default();
    spawn(&mut registry, "t1", None, 1);
    spawn(&mut registry, "t2", None, 2);
    registry.update_status(&thread("t1"), PanelAgentStatus::Interrupted, at(3), &cut);
    assert_eq!(summary(&mut registry), vec![(2, "task of t2".to_string())]);
    registry.update_status(&thread("t2"), PanelAgentStatus::NotFound, at(3), &cut);
    assert!(registry.rebuild_panel().is_none());
}

#[test]
fn rest_does_not_take_away_how_an_agent_ended() {
    let mut registry = SubagentPanelRegistry::default();
    spawn(&mut registry, "t1", None, 1);
    registry.set_thread_running(&thread("t1"), false, at(2), &cut);
    assert!(registry.rebuild_panel().is_none());
    registry.update_status(
        &thread("t1"),
        PanelAgentStatus::Errored("boom".to_string()),
        at(3),
        &cut,
    );
    registry.set_thread_running(&thread("t1"), false, at(4), &cut);
    assert!(registry.rebuild_panel().is_none());
    registry.set_thread_running(&thread("t1"), true, at(5), &cut);
    let row = &panel(&mut registry).running_agents[0];
    assert_eq!(row.status, PanelAgentStatus::Running);
    assert_eq!(row.preview, "task of t1");
    assert_eq!(row.latest_update_at, at(5));
}

#[test]
fn the_order_of_closings_makes_no_difference() {
    let closed = |first: &str, second: &str| {
        let mut registry = SubagentPanelRegistry::default();
        for id in ["t1", "t2", "t3", "t4"] {
            spawn(&mut registry, id, None, 1);
        }
        registry.close(&thread(first));
        registry.close(&thread(second));
        summary(&mut registry)
    };
    let left = vec![(1, "task of t1".to_string()), (3, "task of t3".to_string())];
    assert_eq!(closed("t2", "t4"), left);
    assert_eq!(closed("t4", "t2"), left);
}

#[test]
fn the_later_of_two_reports_counts() {
    let reported = |statuses: Vec<PanelAgentStatus>| {
        let mut registry = SubagentPanelRegistry::default();
        spawn(&mut registry, "t1", None, 1);
        for status in statuses {
            registry.update_status(&thread("t1"), status, at(5), &cut);
        }
        registry.rebuild_panel().map(|cell| cell.state)
    };
    assert_eq!(
        reported(vec![PanelAgentStatus::Shutdown, PanelAgentStatus::PendingInit]),
        reported(vec![PanelAgentStatus::PendingInit]),
    );
    assert_eq!(reported(vec![PanelAgentStatus::Running, PanelAgentStatus::Shutdown]), None);
}

#[test]
fn without_watchdogs_every_agent_counts_as_running() {
    let mut registry = SubagentPanelRegistry::default();
    spawn(&mut registry, "t1", None, 1);
    registry.on_spawn(
        &thread("t2"),
        None,
        None,
        "wait for it",
        PanelAgentStatus::PendingInit,
        at(2),
        &cut,
    );
    let state = panel(&mut registry);
    assert_eq!((state.total_agents, state.running_count), (2, 2));
}
