use subagent_panel::clock::Instant;
use subagent_panel::dashboard::{
    dashboard_lines, short_thread_id, status_span as dashboard_status_span, SubagentStats,
    DASHBOARD_TITLE,
};
use subagent_panel::panel::{
    running_preview_budget, should_shimmer, status_span, subagent_count_label, subagent_pluralize,
    SubagentPanelAgent, SubagentPanelState, SubagentStatusCell, SUBAGENT_SHIMMER_WINDOW,
};
use subagent_panel::scroll::{
    can_wrap, panel_scroll, scroll_offset, MAX_LINE_CHARS, MAX_WRAP_WIDTH,
};
use subagent_panel::status::PanelAgentStatus;
use subagent_panel::styled::{colored, plain, span, Color, Line, MotionMode, Paint, Span};
use subagent_panel::thread_id::ThreadId;

fn cut(text: &str, budget: usize) -> String {
    text.chars().take(budget).collect()
}

fn secs(secs: u64) -> String {
    format!("{secs}s")
}

fn at(secs: u64) -> Instant {
    Instant { nanos: secs * 1_000_000_000 }
}

fn agent(ordinal: i32, status: PanelAgentStatus, is_watchdog: bool) -> SubagentPanelAgent {
    SubagentPanelAgent {
        ordinal,
        name: format!("agent {ordinal}"),
        status,
        is_watchdog,
        preview: "  doing things ".to_string(),
        spawned_at: at(10),
        latest_update_at: at(20),
    }
}

fn cell(motion_mode: MotionMode, running_agents: Vec<SubagentPanelAgent>) -> SubagentStatusCell {
    let total_agents = running_agents.len() as i32;
    let state =
        SubagentPanelState { started_at: at(5), total_agents, running_count: 1, running_agents };
    SubagentStatusCell { state, motion_mode, updates_mounted: false }
}

fn text(line: &Line) -> String {
    line.spans.iter().map(|span| span.content.as_str()).collect()
}

#[test]
fn the_preview_budget_follows_the_width() {
    assert_eq!(running_preview_budget(0), 40);
    assert_eq!(running_preview_budget(72), 40);
    assert_eq!(running_preview_budget(73), 41);
    assert_eq!(running_preview_budget(100), 68);
    assert_eq!(running_preview_budget(192), 160);
    assert_eq!(running_preview_budget(193), 160);
    assert_eq!(running_preview_budget(u16::MAX), 160);
}

#[test]
fn counts_are_put_into_words() {
    assert_eq!(subagent_pluralize(1, "subagent"), "1 subagent");
    assert_eq!(subagent_pluralize(0, "subagent"), "0 subagents");
    assert_eq!(subagent_pluralize(12, "turn"), "12 turns");
    assert_eq!(subagent_pluralize(-1, "turn"), "-1 turns");
    assert_eq!(subagent_count_label(0, 0), "no subagents running");
    assert_eq!(subagent_count_label(2, 0), "no subagents running");
    assert_eq!(subagent_count_label(-1, 3), "no subagents running");
    assert_eq!(subagent_count_label(1, 1), "1 subagent running");
    assert_eq!(subagent_count_label(3, 3), "3 subagents running");
    assert_eq!(subagent_count_label(3, 5), "3 subagents running");
    assert_eq!(subagent_count_label(3, 2), "3 subagents, 2 running");
}

#[test]
fn rows_name_their_status() {
    let label = |status, is_watchdog| status_span(&agent(1, status, is_watchdog));
    assert_eq!(label(PanelAgentStatus::PendingInit, true), span("idle", plain().dim()));
    let running = || span("running", colored(Color::Cyan).bold());
    assert_eq!(label(PanelAgentStatus::PendingInit, false), running());
    assert_eq!(label(PanelAgentStatus::Running, false), running());
    assert_eq!(label(PanelAgentStatus::Running, true), running());
    assert_eq!(
        label(PanelAgentStatus::Interrupted, false),
        span("interrupted", colored(Color::Magenta)),
    );
    assert_eq!(
        label(PanelAgentStatus::Completed(None), false),
        span("completed", colored(Color::Green)),
    );
    assert_eq!(
        label(PanelAgentStatus::Errored(String::new()), false),
        span("errored", colored(Color::Red)),
    );
    assert_eq!(label(PanelAgentStatus::Shutdown, false), span("shutdown", plain().dim()));
    assert_eq!(label(PanelAgentStatus::NotFound, false), span("not found", colored(Color::Red)));
}

#[test]
fn an_update_shimmers_for_a_second() {
    let running = agent(1, PanelAgentStatus::Running, false);
    assert_eq!(SUBAGENT_SHIMMER_WINDOW, 1_000_000_000);
    assert!(should_shimmer(&running, at(20)));
    assert!(should_shimmer(&running, at(21)));
    assert!(!should_shimmer(&running, Instant { nanos: at(21).nanos + 1 }));
    assert!(should_shimmer(&running, at(3)));
    assert!(should_shimmer(&agent(1, PanelAgentStatus::PendingInit, false), at(20)));
    assert!(!should_shimmer(&agent(1, PanelAgentStatus::PendingInit, true), at(20)));
    assert!(should_shimmer(&agent(1, PanelAgentStatus::Running, true), at(20)));
    assert!(!should_shimmer(&agent(1, PanelAgentStatus::Completed(None), false), at(20)));
}

#[test]
fn a_panel_without_agents_has_no_lines() {
    let empty = cell(MotionMode::Animated, Vec::new());
    assert!(empty.display_lines(80, at(30), &cut, &secs).is_empty());
    assert!(empty.raw_lines(at(30), &cut, &secs).is_empty());
}

#[test]
fn the_panel_has_a_header_and_a_row_for_each_agent() {
    let panel = cell(
        MotionMode::Animated,
        vec![
            agent(2, PanelAgentStatus::PendingInit, true),
            agent(1, PanelAgentStatus::Running, false),
        ],
    );
    let lines = panel.display_lines(80, at(21), &cut, &secs);
    assert_eq!(lines.len(), 3);
    assert_eq!(
        lines[0],
        Line {
            spans: vec![
                span("• ", plain().dim()),
                span("Subagents", plain().bold()),
                span(" ", plain()),
                span("(16s • 2 subagents, 1 running • esc to interrupt)", plain().dim()),
            ],
        },
    );
    assert_eq!(
        lines[1],
        Line {
            spans: vec![
                span("  • ", plain().dim()),
                span("[#1] ", plain().dim()),
                span("agent 1", plain()),
                span(" ", plain()),
                span("running", colored(Color::Cyan).bold()),
                span(" · 11s", plain().dim()),
                span(" — ", plain().dim()),
                Span {
                    content: "doing things".to_string(),
                    paint: Paint::Shimmer(MotionMode::Animated),
                },
            ],
        },
    );
    assert_eq!(
        lines[2],
        Line {
            spans: vec![
                span("  • ", plain().dim()),
                span("[#2] ", plain().dim()),
                span("[watchdog] ", colored(Color::Magenta).dim()),
                span("agent 2", plain()),
                span(" ", plain()),
                span("idle", plain().dim()),
                span(" · 11s", plain().dim()),
                span(" — ", plain().dim()),
                span("doing things", plain().dim()),
            ],
        },
    );
}

#[test]
fn rows_cut_their_preview_to_the_width() {
    let mut wordy = agent(1, PanelAgentStatus::Running, false);
    wordy.preview = "z".repeat(400);
    let panel = cell(MotionMode::Reduced, vec![wordy]);
    let last = |lines: Vec<Line>| lines[1].spans.last().map(|span| span.content.len());
    assert_eq!(last(panel.display_lines(20, at(30), &cut, &secs)), Some(40));
    assert_eq!(last(panel.display_lines(100, at(30), &cut, &secs)), Some(68));
    assert_eq!(last(panel.raw_lines(at(30), &cut, &secs)), Some(160));
}

#[test]
fn the_header_never_counts_fewer_agents_than_run() {
    let mut panel = cell(MotionMode::Reduced, vec![agent(1, PanelAgentStatus::Running, false)]);
    panel.state.total_agents = 1;
    panel.state.running_count = 4;
    let lines = panel.display_lines(80, at(5), &cut, &secs);
    assert_eq!(text(&lines[0]), "• Subagents (0s • 4 subagents running • esc to interrupt)");
}

#[test]
fn the_animation_ticks_in_tenths_while_a_row_shimmers() {
    let panel = cell(MotionMode::Animated, vec![agent(1, PanelAgentStatus::Running, false)]);
    let now = Instant { nanos: at(20).nanos + 250_000_000 };
    assert!(panel.state.has_animating_agents(now));
    assert_eq!(panel.transcript_animation_tick(now), Some(152));
    assert_eq!(panel.transcript_animation_tick(at(22)), None);
    assert!(!panel.state.has_animating_agents(at(22)));
    let still = cell(MotionMode::Reduced, vec![agent(1, PanelAgentStatus::Running, false)]);
    assert_eq!(still.transcript_animation_tick(now), None);
    let idle = cell(MotionMode::Animated, vec![agent(1, PanelAgentStatus::PendingInit, true)]);
    assert_eq!(idle.transcript_animation_tick(now), None);
}

#[test]
fn the_last_rows_stay_in_view() {
    assert_eq!(scroll_offset(10, 4), 6);
    assert_eq!(scroll_offset(4, 4), 0);
    assert_eq!(scroll_offset(3, 4), 0);
    assert_eq!(scroll_offset(10, 0), 0);
    assert_eq!(scroll_offset(65540, 5), 65535);
    assert_eq!(scroll_offset(usize::MAX, 1), u16::MAX);
}

#[test]
fn wrapped_lines_are_counted_as_rows() {
    let lines = |texts: &[&str]| {
        texts
            .iter()
            .map(|text| text.split('|').map(str::to_string).collect::<Vec<_>>())
            .collect::<Vec<_>>()
    };
    assert_eq!(panel_scroll(&lines(&["aaaa bbbb cccc"]), 4, 1), 2);
    assert_eq!(panel_scroll(&lines(&["aaaa bbbb cccc"]), 9, 1), 1);
    assert_eq!(panel_scroll(&lines(&["aaaa bbbb cccc"]), 14, 1), 0);
    assert_eq!(panel_scroll(&lines(&["aa|aa bb|bb", "cc"]), 4, 1), 2);
    assert_eq!(panel_scroll(&lines(&["a", "", "b"]), 10, 2), 1);
    assert_eq!(panel_scroll(&lines(&["a", "", "b"]), 10, 0), 0);
    assert_eq!(panel_scroll(&lines(&["a", "", "b"]), 0, 2), 0);
    assert_eq!(panel_scroll(&lines(&["a"]), MAX_WRAP_WIDTH, 1), 0);
    assert_eq!(panel_scroll(&Vec::new(), 10, 1), 0);
}

fn stats(ordinal: i32) -> SubagentStats {
    SubagentStats {
        thread_id: ThreadId { text: "0123456789ab".to_string() },
        ordinal,
        name: format!("agent {ordinal}"),
        role: None,
        status: PanelAgentStatus::Running,
        spawned_at: at(10),
        latest_update_at: at(20),
        latest_preview: " reading ".to_string(),
        turns_completed: 2,
        activity_count: 7,
    }
}

#[test]
fn the_dashboard_says_when_no_agent_has_run() {
    assert_eq!(DASHBOARD_TITLE, "Agents");
    let lines = dashboard_lines(&Vec::new(), at(1), &secs);
    let empty = || Line { spans: Vec::new() };
    let note = |text: &str| Line { spans: vec![span(text, plain().dim())] };
    assert_eq!(
        lines,
        vec![
            empty(),
            note("  No subagents have run in this session yet."),
            empty(),
            note("  Agents appear here as soon as the model spawns them."),
        ],
    );
}

#[test]
fn the_dashboard_shows_every_agent() {
    let mut ended = stats(2);
    ended.role = Some("scout".to_string());
    ended.status = PanelAgentStatus::Shutdown;
    ended.latest_preview = " \t".to_string();
    ended.latest_update_at = at(25);
    let lines = dashboard_lines(&vec![stats(1), ended], at(29), &secs);
    let plain_span = |text: &str| span(text, plain());
    let dim = |text: &str| span(text, plain().dim());
    let empty = || Line { spans: Vec::new() };
    assert_eq!(
        lines,
        vec![
            empty(),
            Line {
                spans: vec![
                    plain_span("  "),
                    span("2 agent(s) this session", plain().bold()),
                    dim(" · 1 running"),
                ],
            },
            empty(),
            Line {
                spans: vec![
                    plain_span("  "),
                    dim("#1 "),
                    span("agent 1", plain().bold()),
                    plain_span(" "),
                    span("running", colored(Color::Cyan).bold()),
                ],
            },
            Line {
                spans: vec![
                    plain_span("     "),
                    dim("age 19s"),
                    dim(" · 2 turn(s)"),
                    dim(" · 7 event(s)"),
                    dim(" · last update 9s ago"),
                    dim(" · thread 01234567"),
                ],
            },
            Line {
                spans: vec![
                    plain_span("     "),
                    dim("» "),
                    span(" reading ", plain().italic().dim()),
                ],
            },
            empty(),
            Line {
                spans: vec![
                    plain_span("  "),
                    dim("#2 "),
                    span("agent 2", plain().bold()),
                    span(" [scout]", colored(Color::Magenta).dim()),
                    plain_span(" "),
                    dim("closed"),
                ],
            },
            Line {
                spans: vec![
                    plain_span("     "),
                    dim("age 19s"),
                    dim(" · 2 turn(s)"),
                    dim(" · 7 event(s)"),
                    dim(" · thread 01234567"),
                ],
            },
            empty(),
            Line {
                spans: vec![
                    plain_span("  "),
                    dim("Alt+←/→ switches the transcript between agents · /agent opens the picker"),
                ],
            },
        ],
    );
}

#[test]
fn silence_is_told_from_five_seconds_on() {
    let silent = |now: Instant| {
        let lines = dashboard_lines(&vec![stats(1)], now, &secs);
        text(&lines[4]).contains("last update")
    };
    assert!(!silent(at(24)));
    assert!(!silent(Instant { nanos: at(25).nanos - 1 }));
    assert!(silent(at(25)));
    assert!(!silent(at(3)));
}

#[test]
fn the_dashboard_names_each_status() {
    let label = |status: PanelAgentStatus| dashboard_status_span(&status);
    assert_eq!(label(PanelAgentStatus::PendingInit), span("starting", colored(Color::Cyan)));
    assert_eq!(label(PanelAgentStatus::Running), span("running", colored(Color::Cyan).bold()));
    assert_eq!(
        label(PanelAgentStatus::Interrupted),
        span("interrupted", colored(Color::Magenta)),
    );
    assert_eq!(label(PanelAgentStatus::Completed(None)), span("completed", colored(Color::Green)));
    assert_eq!(
        label(PanelAgentStatus::Errored(String::new())),
        span("errored", colored(Color::Red)),
    );
    assert_eq!(label(PanelAgentStatus::Shutdown), span("closed", plain().dim()));
    assert_eq!(label(PanelAgentStatus::NotFound), span("not found", colored(Color::Red)));
}

#[test]
fn thread_ids_are_cut_to_eight_characters() {
    assert_eq!(short_thread_id("0199a213-81c0-7800"), "0199a213");
    assert_eq!(short_thread_id("é→"), "é→");
    assert_eq!(short_thread_id(""), "");
}

#[test]
fn what_stands_still_stays_still_and_frames_count_up() {
    let panel = cell(MotionMode::Animated, vec![agent(1, PanelAgentStatus::Running, false)]);
    let mut last = 0;
    let mut moving = true;
    for tenth in 0..30 {
        let now = Instant { nanos: at(20).nanos + tenth * 100_000_000 };
        match panel.transcript_animation_tick(now) {
            Some(tick) => {
                assert!(moving);
                assert!(tick >= last);
                last = tick;
            }
            None => moving = false,
        }
    }
    assert!(!moving);
    assert_eq!(last, 160);
}

#[test]
fn wide_areas_take_lines_that_are_not_too_long() {
    let line = |chars: usize| vec![vec!["a".repeat(chars - 5), "bcdef".to_string()]];
    assert_eq!((MAX_WRAP_WIDTH, MAX_LINE_CHARS), (16384, 21845));
    assert!(can_wrap(&line(30000), MAX_WRAP_WIDTH));
    assert!(can_wrap(&line(21845), u16::MAX));
    assert!(!can_wrap(&line(21846), u16::MAX));
    assert!(!can_wrap(&line(21846), MAX_WRAP_WIDTH + 1));
    assert!(can_wrap(&Vec::new(), u16::MAX));
    assert_eq!(panel_scroll(&line(21845), 20000, 1), 1);
    assert_eq!(panel_scroll(&line(21845), u16::MAX, 1), 0);
    assert_eq!(panel_scroll(&line(40000), u16::MAX, 0), 0);
    let widest = vec![vec!["\u{17d8}".repeat(21845)]];
    assert_eq!(panel_scroll(&widest, u16::MAX, 1), 0);
    assert_eq!(panel_scroll(&widest, 30000, 1), 2);
}

#[test]
fn a_copy_of_the_panel_shows_the_same() {
    let panel = cell(MotionMode::Animated, vec![agent(1, PanelAgentStatus::Running, false)]);
    assert_eq!(panel.clone(), panel);
    assert_eq!(panel.state.clone(), panel.state);
}

#[test]
fn agents_stand_on_the_dashboard_in_their_order() {
    let mut silent = stats(2);
    silent.latest_preview = String::new();
    let lines = dashboard_lines(&vec![stats(1), silent, stats(3)], at(29), &secs);
    let texts: Vec<String> = lines.iter().map(text).collect();
    assert_eq!(texts.len(), 4 + 3 * 3 + 2);
    assert_eq!(texts[3], "  #1 agent 1 running");
    assert_eq!(texts[7], "  #2 agent 2 running");
    assert_eq!(texts[10], "  #3 agent 3 running");
    for header in [3, 7, 10] {
        assert!(texts[header + 1].starts_with("     age 19s"));
    }
}
