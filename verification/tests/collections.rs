use subagent_panel::chat_widget::ModelProvider;
use subagent_panel::clock::Instant;
use subagent_panel::panel::SubagentPanelAgent;
use subagent_panel::sort::sort_by_rank;
use subagent_panel::status::PanelAgentStatus;
use subagent_panel::text_map::TextMap;

fn row(ordinal: i32, name: &str) -> SubagentPanelAgent {
    SubagentPanelAgent {
        ordinal,
        name: name.to_string(),
        status: PanelAgentStatus::Running,
        is_watchdog: false,
        preview: String::new(),
        spawned_at: Instant { nanos: 0 },
        latest_update_at: Instant { nanos: 0 },
    }
}

fn names(rows: &[SubagentPanelAgent]) -> Vec<&str> {
    rows.iter().map(|row| row.name.as_str()).collect()
}

#[test]
fn rows_are_sorted_by_ordinal_and_ties_keep_their_order() {
    let rows = vec![row(3, "c"), row(1, "a"), row(2, "x"), row(2, "y"), row(1, "b"), row(2, "z")];
    let sorted = sort_by_rank(rows);
    assert_eq!(names(&sorted), vec!["a", "b", "x", "y", "z", "c"]);
    let again = sort_by_rank(sorted);
    assert_eq!(names(&again), vec!["a", "b", "x", "y", "z", "c"]);
    assert!(sort_by_rank(Vec::<SubagentPanelAgent>::new()).is_empty());
}

#[test]
fn providers_are_sorted_by_identity_whatever_order_they_come_in() {
    let provider = |id: &str| ModelProvider { id: id.to_string(), name: id.to_uppercase() };
    let one = sort_by_rank(vec![provider("openai"), provider("azure"), provider("ollama")]);
    let two = sort_by_rank(vec![provider("ollama"), provider("openai"), provider("azure")]);
    let ids = |list: &[ModelProvider]| {
        list.iter().map(|provider| provider.id.clone()).collect::<Vec<_>>()
    };
    assert_eq!(ids(&one), vec!["azure", "ollama", "openai"]);
    assert_eq!(ids(&one), ids(&two));
}

#[test]
fn a_map_gives_back_what_was_put_in_last() {
    let mut map: TextMap<u8> = TextMap::new();
    assert!(map.get("a").is_none());
    map.insert("a".to_string(), 1);
    map.insert("b".to_string(), 2);
    map.insert("a".to_string(), 3);
    assert_eq!(map.get("a"), Some(&3));
    assert_eq!(map.get("b"), Some(&2));
    assert!(map.contains_key("a"));
    assert!(!map.contains_key("c"));
    assert_eq!(map.remove("a"), Some(3));
    assert_eq!(map.remove("a"), None);
    assert!(!map.contains_key("a"));
    assert_eq!(map.get("b"), Some(&2));
}
