use rust_explorer::state::{
    create_default_tab, generate_pane_id, generate_tab_id, AppState, StateChangeEvent,
    StateManager, TabState, UiState, WindowState,
};

#[test]
fn test_app_state_default() {
    let state = AppState::default();

    assert!(state.tabs.is_empty());
    assert!(state.panes.is_empty());
    assert!(state.active_tab_id.is_none());
    assert_eq!(state.window.width, 1200);
    assert_eq!(state.window.height, 800);
    assert!(state.ui.sidebar_visible);
    assert!(state.ui.statusbar_visible);
    assert!(state.ui.toolbar_visible);
}

#[test]
fn test_app_state_add_tab() {
    let mut state = AppState::default();
    let tab = TabState::new(
        "tab1".to_string(),
        "Test Tab".to_string(),
        "/test".to_string(),
    );

    state.add_tab(tab.clone());

    assert_eq!(state.tabs.len(), 1);
    assert_eq!(state.active_tab_id, Some("tab1".to_string()));
    assert!(state.tabs[0].active);
    assert_eq!(state.tabs[0].name, "Test Tab");
}

#[test]
fn test_app_state_add_multiple_tabs() {
    let mut state = AppState::default();

    let tab1 = TabState::new("tab1".to_string(), "Tab 1".to_string(), "/test1".to_string());
    let tab2 = TabState::new("tab2".to_string(), "Tab 2".to_string(), "/test2".to_string());

    state.add_tab(tab1);
    state.add_tab(tab2);

    assert_eq!(state.tabs.len(), 2);
    assert_eq!(state.active_tab_id, Some("tab2".to_string()));

    assert!(!state.tabs[0].active);
    assert!(state.tabs[1].active);
}

#[test]
fn test_app_state_remove_tab() {
    let mut state = AppState::default();

    let tab1 = TabState::new("tab1".to_string(), "Tab 1".to_string(), "/test1".to_string());
    let tab2 = TabState::new("tab2".to_string(), "Tab 2".to_string(), "/test2".to_string());

    state.add_tab(tab1);
    state.add_tab(tab2);

    let result = state.remove_tab("tab2");
    assert!(result.is_ok());
    assert_eq!(state.tabs.len(), 1);
    assert_eq!(state.active_tab_id, Some("tab1".to_string()));
    assert!(state.tabs[0].active);
}

#[test]
fn test_app_state_remove_inactive_tab() {
    let mut state = AppState::default();

    let tab1 = TabState::new("tab1".to_string(), "Tab 1".to_string(), "/test1".to_string());
    let tab2 = TabState::new("tab2".to_string(), "Tab 2".to_string(), "/test2".to_string());

    state.add_tab(tab1);
    state.add_tab(tab2);

    let result = state.remove_tab("tab1");
    assert!(result.is_ok());
    assert_eq!(state.tabs.len(), 1);
    assert_eq!(state.active_tab_id, Some("tab2".to_string()));
    assert!(state.tabs[0].active);
}

#[test]
fn test_app_state_remove_last_tab() {
    let mut state = AppState::default();

    let tab = TabState::new("tab1".to_string(), "Tab 1".to_string(), "/test1".to_string());
    state.add_tab(tab);

    let result = state.remove_tab("tab1");
    assert!(result.is_ok());
    assert!(state.tabs.is_empty());
    assert!(state.active_tab_id.is_none());
}

#[test]
fn test_app_state_remove_nonexistent_tab() {
    let mut state = AppState::default();

    let result = state.remove_tab("nonexistent");
    assert!(result.is_err());
}

#[test]
fn test_app_state_set_active_tab() {
    let mut state = AppState::default();

    let tab1 = TabState::new("tab1".to_string(), "Tab 1".to_string(), "/test1".to_string());
    let tab2 = TabState::new("tab2".to_string(), "Tab 2".to_string(), "/test2".to_string());

    state.add_tab(tab1);
    state.add_tab(tab2);

    let result = state.set_active_tab("tab1");
    assert!(result.is_ok());
    assert_eq!(state.active_tab_id, Some("tab1".to_string()));
    assert!(state.tabs[0].active);
    assert!(!state.tabs[1].active);
}

#[test]
fn test_app_state_get_active_tab() {
    let mut state = AppState::default();

    let tab = TabState::new("tab1".to_string(), "Tab 1".to_string(), "/test1".to_string());
    state.add_tab(tab);

    let active_tab = state.get_active_tab();
    assert!(active_tab.is_some());
    assert_eq!(active_tab.unwrap().id, "tab1");
}

#[test]
fn tab_lifecycle_scenario() {
    // add two tabs, remove the second: the first becomes active again;
    // remove the first: the list empties and the active identifier clears.
    let mut state = AppState::default();
    state.add_tab(TabState::new("T1".to_string(), "one".to_string(), "/a".to_string()));
    state.add_tab(TabState::new("T2".to_string(), "two".to_string(), "/b".to_string()));

    assert!(state.remove_tab("T2").is_ok());
    assert_eq!(state.active_tab_id, Some("T1".to_string()));
    assert!(state.tabs[0].active);
    assert_eq!(state.tabs.iter().filter(|t| t.active).count(), 1);

    assert!(state.remove_tab("T1").is_ok());
    assert!(state.tabs.is_empty());
    assert!(state.active_tab_id.is_none());
}

#[test]
fn test_state_manager_new() {
    let manager = StateManager::new();
    let state = manager.get_state().unwrap();

    assert!(state.tabs.is_empty());
    assert!(state.active_tab_id.is_none());
}

#[test]
fn test_state_manager_with_state() {
    let mut initial_state = AppState::default();
    let tab = TabState::new("tab1".to_string(), "Tab 1".to_string(), "/test1".to_string());
    initial_state.add_tab(tab);

    let manager = StateManager::with_state(initial_state);
    let state = manager.get_state().unwrap();

    assert_eq!(state.tabs.len(), 1);
    assert_eq!(state.active_tab_id, Some("tab1".to_string()));
}

#[test]
fn test_state_manager_add_tab() {
    let mut manager = StateManager::new();
    let tab = TabState::new("tab1".to_string(), "Tab 1".to_string(), "/test1".to_string());

    let result = manager.add_tab(tab);
    assert!(result.is_ok());

    let state = manager.get_state().unwrap();
    assert_eq!(state.tabs.len(), 1);
    assert_eq!(state.active_tab_id, Some("tab1".to_string()));
}

#[test]
fn test_state_manager_remove_tab() {
    let mut manager = StateManager::new();
    let tab = TabState::new("tab1".to_string(), "Tab 1".to_string(), "/test1".to_string());

    manager.add_tab(tab).unwrap();
    let result = manager.remove_tab("tab1");
    assert!(result.is_ok());

    let state = manager.get_state().unwrap();
    assert!(state.tabs.is_empty());
    assert!(state.active_tab_id.is_none());
}

#[test]
fn test_state_manager_update_window_state() {
    let mut manager = StateManager::new();
    let window_state = WindowState {
        width: 1024,
        height: 768,
        x: Some(100),
        y: Some(50),
        maximized: true,
        minimized: false,
    };

    let result = manager.update_window_state(window_state);
    assert!(result.is_ok());

    let state = manager.get_state().unwrap();
    assert_eq!(state.window.width, 1024);
    assert_eq!(state.window.height, 768);
    assert_eq!(state.window.x, Some(100));
    assert_eq!(state.window.y, Some(50));
    assert!(state.window.maximized);
    assert!(!state.window.minimized);
}

#[test]
fn test_state_manager_update_ui_state() {
    let mut manager = StateManager::new();
    let mut ui_state = UiState::default();
    ui_state.sidebar_visible = false;
    ui_state.theme = "dark".to_string();

    let result = manager.update_ui_state(ui_state);
    assert!(result.is_ok());

    let state = manager.get_state().unwrap();
    assert!(!state.ui.sidebar_visible);
    assert_eq!(state.ui.theme, "dark");
}

#[test]
fn state_manager_queues_events_in_order() {
    let mut manager = StateManager::new();
    manager
        .add_tab(TabState::new("t1".to_string(), "one".to_string(), "/a".to_string()))
        .unwrap();
    manager.remove_tab("t1").unwrap();

    let events = manager.take_events();
    assert_eq!(events.len(), 2);
    assert!(matches!(&events[0], StateChangeEvent::TabAdded(t) if t.id == "t1"));
    assert!(matches!(&events[1], StateChangeEvent::TabRemoved(id) if id == "t1"));
    assert!(manager.take_events().is_empty());
}

#[test]
fn state_manager_update_state_commits_on_ok() {
    let mut manager = StateManager::new();
    let result = manager.update_state(|mut state: AppState| {
        state.ui.theme = "dark".to_string();
        Ok((state, None))
    });
    assert!(result.is_ok());
    assert_eq!(manager.get_state().unwrap().ui.theme, "dark");
}

#[test]
fn state_manager_update_state_discards_on_err() {
    let mut manager = StateManager::new();
    let result = manager.update_state(
        |mut state: AppState| -> Result<
            (AppState, Option<StateChangeEvent>),
            rust_explorer::error::AppError,
        > {
            state.ui.theme = "dark".to_string();
            Err(rust_explorer::error::AppError::Internal("rejected".to_string()))
        },
    );
    assert!(result.is_err());
    assert_eq!(manager.get_state().unwrap().ui.theme, "default");
}

#[test]
fn test_state_utils_generate_tab_id() {
    let id1 = generate_tab_id();
    let id2 = generate_tab_id();

    assert!(id1.starts_with("tab_"));
    assert!(id2.starts_with("tab_"));
    assert_ne!(id1, id2);
}

#[test]
fn test_state_utils_generate_pane_id() {
    let id1 = generate_pane_id();
    let id2 = generate_pane_id();

    assert!(id1.starts_with("pane_"));
    assert!(id2.starts_with("pane_"));
    assert_ne!(id1, id2);
}

#[test]
fn test_state_utils_create_default_tab() {
    let path = "/home/user/documents".to_string();
    let tab = create_default_tab(path.clone());

    assert!(!tab.id.is_empty());
    assert_eq!(tab.name, "documents");
    assert_eq!(tab.current_path, path);
    assert!(!tab.active);
}

#[test]
fn test_window_state_default() {
    let window_state = WindowState::default();

    assert_eq!(window_state.width, 1200);
    assert_eq!(window_state.height, 800);
    assert!(window_state.x.is_none());
    assert!(window_state.y.is_none());
    assert!(!window_state.maximized);
    assert!(!window_state.minimized);
}

#[test]
fn test_ui_state_default() {
    let ui_state = UiState::default();

    assert!(ui_state.sidebar_visible);
    assert!(ui_state.statusbar_visible);
    assert!(ui_state.toolbar_visible);
    assert_eq!(ui_state.theme, "default");
    assert!(ui_state.custom_properties.is_empty());
}

#[test]
fn test_tab_state_new() {
    let tab = TabState::new(
        "test_id".to_string(),
        "Test Tab".to_string(),
        "/test/path".to_string(),
    );

    assert_eq!(tab.id, "test_id");
    assert_eq!(tab.name, "Test Tab");
    assert_eq!(tab.current_path, "/test/path");
    assert!(!tab.active);
}
