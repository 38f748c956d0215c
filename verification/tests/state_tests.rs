use sleuth::model::{Dataset, ElementNode, VersionSnapshot};
use sleuth::state::{
    key_event_message, Action, AppState, ChangesTab, Key, KeyEvent, Message, Modifiers,
    TimelineStyle, ViewMode,
};

fn leaf(path: &str, content: &str) -> ElementNode {
    ElementNode {
        path: path.to_string(),
        number_display: String::new(),
        verbose_name: path.to_string(),
        heading: None,
        chapeau: None,
        proviso: None,
        content: Some(content.to_string()),
        continuation: None,
        children: Vec::new(),
    }
}

fn version(date: &str, root_text: &str, child_text: &str) -> VersionSnapshot {
    let mut root = leaf("usc/title_7", root_text);
    root.children = vec![leaf("usc/title_7/section_1", child_text)];
    VersionSnapshot { date: date.to_string(), label: None, element: root }
}

fn dataset() -> Dataset {
    Dataset {
        versions: vec![
            version("2024-01-01", "a", "x"),
            version("2024-06-01", "a", "y"),
            version("2025-01-01", "b", "y"),
        ],
        diff_annotations: Vec::new(),
        members: Vec::new(),
        sponsors: Vec::new(),
    }
}

fn loaded() -> AppState {
    let mut s = AppState::new();
    let act = s.update(Message::DatasetLoaded(Box::new(dataset())));
    assert!(matches!(act, Action::Nothing));
    s
}

fn press(key: Key, command: bool) -> Message {
    Message::KeyPressed(key, Modifiers { command })
}

#[test]
fn new_state_has_the_documented_defaults() {
    let s = AppState::new();
    assert!(s.dataset.is_none());
    assert!(s.selected_path.is_none());
    assert_eq!(s.selected_version_index, 0);
    assert!(s.current_diff.is_none());
    assert!(s.changed_paths.is_empty());
    assert!(s.tree_expanded.is_empty());
    assert_eq!(s.view_mode, ViewMode::Reading);
    assert!(s.show_blame);
    assert_eq!(s.timeline_style, TimelineStyle::Scrubber);
    assert_eq!(s.changes_tab, ChangesTab::ThisVersion);
    assert!(!s.show_search);
    assert!(!s.show_loader);
    assert_eq!(s.search_query, "");
    assert_eq!(s.loader_path, "");
}

#[test]
fn loading_a_dataset_starts_at_the_first_version_with_root_expanded() {
    let mut s = AppState::new();
    s.update(Message::SelectPath("somewhere".to_string()));
    s.update(Message::DatasetLoaded(Box::new(dataset())));
    assert_eq!(s.selected_version_index, 0);
    assert!(s.selected_path.is_none());
    assert!(s.current_diff.is_none());
    assert!(s.changed_paths.is_empty());
    assert!(s.tree_expanded.contains(&"usc/title_7".to_string()));
}

#[test]
fn next_version_computes_the_diff_and_changed_paths() {
    let mut s = loaded();
    s.update(Message::NextVersion);
    assert_eq!(s.selected_version_index, 1);
    assert!(s.current_diff.is_some());
    assert_eq!(s.changed_paths.sorted_paths(), vec!["usc/title_7/section_1".to_string()]);
    s.update(Message::NextVersion);
    assert_eq!(s.selected_version_index, 2);
    assert_eq!(s.changed_paths.sorted_paths(), vec!["usc/title_7".to_string()]);
    s.update(Message::NextVersion);
    assert_eq!(s.selected_version_index, 2);
}

#[test]
fn next_then_prev_returns_to_the_same_version() {
    let mut s = loaded();
    s.update(Message::NextVersion);
    s.update(Message::PrevVersion);
    assert_eq!(s.selected_version_index, 0);
    assert!(s.current_diff.is_none());
    assert!(s.changed_paths.is_empty());
    s.update(Message::PrevVersion);
    assert_eq!(s.selected_version_index, 0);
}

#[test]
fn prev_then_next_returns_to_the_same_version() {
    let mut s = loaded();
    s.update(Message::VersionChange(2));
    s.update(Message::PrevVersion);
    assert_eq!(s.selected_version_index, 1);
    s.update(Message::NextVersion);
    assert_eq!(s.selected_version_index, 2);
    assert_eq!(s.changed_paths.sorted_paths(), vec!["usc/title_7".to_string()]);
}

#[test]
fn version_change_out_of_range_is_ignored() {
    let mut s = loaded();
    s.update(Message::VersionChange(7));
    assert_eq!(s.selected_version_index, 0);
    s.update(Message::VersionChange(1));
    assert_eq!(s.selected_version_index, 1);
    let mut empty = AppState::new();
    empty.update(Message::VersionChange(1));
    assert_eq!(empty.selected_version_index, 0);
    empty.update(Message::NextVersion);
    assert_eq!(empty.selected_version_index, 0);
}

#[test]
fn toggling_a_tree_node_twice_restores_it() {
    let mut s = AppState::new();
    s.update(Message::TreeToggle("a/b".to_string()));
    assert!(s.tree_expanded.contains(&"a/b".to_string()));
    s.update(Message::TreeToggle("a/b".to_string()));
    assert!(!s.tree_expanded.contains(&"a/b".to_string()));
    assert!(s.tree_expanded.is_empty());
}

#[test]
fn select_path_selects() {
    let mut s = AppState::new();
    s.update(Message::SelectPath("a/b".to_string()));
    assert_eq!(s.selected_path.as_deref(), Some("a/b"));
}

#[test]
fn display_toggles_flip_their_setting() {
    let mut s = AppState::new();
    s.update(Message::ToggleViewMode);
    assert_eq!(s.view_mode, ViewMode::Structured);
    s.update(Message::ToggleViewMode);
    assert_eq!(s.view_mode, ViewMode::Reading);
    s.update(Message::ToggleBlame);
    assert!(!s.show_blame);
    s.update(Message::SetTimelineStyle(TimelineStyle::Markers));
    assert_eq!(s.timeline_style, TimelineStyle::Markers);
    s.update(Message::SetChangesTab(ChangesTab::Lifetime));
    assert_eq!(s.changes_tab, ChangesTab::Lifetime);
    s.update(Message::SearchQueryChanged("fox".to_string()));
    assert_eq!(s.search_query, "fox");
    s.update(Message::LoaderPathChanged("/tmp/d.json".to_string()));
    assert_eq!(s.loader_path, "/tmp/d.json");
    assert!(matches!(s.update(Message::SearchSubmit), Action::Nothing));
}

#[test]
fn search_and_loader_overlays_exclude_each_other() {
    let mut s = AppState::new();
    s.update(Message::ToggleSearch);
    assert!(s.show_search && !s.show_loader);
    s.update(Message::ToggleLoader);
    assert!(!s.show_search && s.show_loader);
    s.update(Message::ToggleSearch);
    assert!(s.show_search && !s.show_loader);
    s.update(Message::ToggleSearch);
    assert!(!s.show_search && !s.show_loader);
    s.update(Message::ToggleLoader);
    s.update(Message::CloseOverlays);
    assert!(!s.show_search && !s.show_loader);
}

#[test]
fn keyboard_shortcuts_open_and_close_overlays() {
    let mut s = AppState::new();
    s.update(press(Key::Character("k".to_string()), true));
    assert!(s.show_search && !s.show_loader);
    s.update(press(Key::Character("o".to_string()), true));
    assert!(!s.show_search && s.show_loader);
    s.update(press(Key::Character("o".to_string()), true));
    assert!(!s.show_search && !s.show_loader);
    s.update(press(Key::Character("k".to_string()), false));
    assert!(!s.show_search && !s.show_loader);
    s.update(press(Key::Character("x".to_string()), true));
    assert!(!s.show_search && !s.show_loader);
    s.update(press(Key::Character("k".to_string()), true));
    s.update(press(Key::Escape, false));
    assert!(!s.show_search && !s.show_loader);
    s.update(press(Key::Character("o".to_string()), true));
    s.update(press(Key::Escape, true));
    assert!(!s.show_search && !s.show_loader);
    s.update(press(Key::Other, true));
    assert!(!s.show_search && !s.show_loader);
}

#[test]
fn load_request_closes_the_loader_and_asks_for_the_path() {
    let mut s = AppState::new();
    s.update(Message::ToggleLoader);
    let act = s.update(Message::LoadDataset("/data/titles.json".to_string()));
    assert!(!s.show_loader);
    match act {
        Action::LoadDataset(p) => assert_eq!(p, "/data/titles.json"),
        _ => panic!("expected a load request"),
    }
    assert!(s.dataset.is_none());
}

#[test]
fn dataset_error_is_reported() {
    let mut s = AppState::new();
    match s.update(Message::DatasetError("no such file".to_string())) {
        Action::ReportError(e) => assert_eq!(e, "no such file"),
        _ => panic!("expected an error report"),
    }
    assert!(s.dataset.is_none());
}

#[test]
fn key_events_other_than_presses_are_ignored() {
    assert!(matches!(key_event_message(KeyEvent::Other), Message::NoOp));
    let mut s = AppState::new();
    s.update(Message::ToggleSearch);
    s.update(Message::SearchQueryChanged("fox".to_string()));
    let act = s.update(key_event_message(KeyEvent::Other));
    assert!(matches!(act, Action::Nothing));
    assert!(s.show_search);
    assert_eq!(s.search_query, "fox");
    match key_event_message(KeyEvent::Pressed(Key::Escape, Modifiers { command: true })) {
        Message::KeyPressed(Key::Escape, m) => assert!(m.command),
        _ => panic!("expected the key press"),
    }
}

#[test]
fn versions_with_different_roots_cannot_be_compared() {
    let mut d = dataset();
    d.versions[1].element.path = "usc/title_8".to_string();
    let mut s = AppState::new();
    s.update(Message::DatasetLoaded(Box::new(d)));
    assert!(!s.can_handle(&Message::NextVersion));
    assert!(!s.can_handle(&Message::VersionChange(1)));
    assert!(s.can_handle(&Message::VersionChange(0)));
    assert!(s.can_handle(&Message::PrevVersion));
    assert!(s.can_handle(&Message::ToggleBlame));
}

#[test]
fn default_state_is_the_new_state() {
    let s = AppState::default();
    assert!(s.dataset.is_none());
    assert!(s.show_blame);
    assert_eq!(s.view_mode, ViewMode::Reading);
    assert_eq!(s.changes_tab, ChangesTab::ThisVersion);
}

#[test]
fn datasets_holding_a_key_twice_are_refused() {
    let mut d = dataset();
    d.members = vec![
        sleuth::model::Member { bioguide_id: "A".to_string(), party: sleuth::model::Party::Democrat },
        sleuth::model::Member { bioguide_id: "A".to_string(), party: sleuth::model::Party::Republican },
    ];
    let s = AppState::new();
    assert!(!s.can_handle(&Message::DatasetLoaded(Box::new(d))));
    assert!(s.can_handle(&Message::DatasetLoaded(Box::new(dataset()))));
}
