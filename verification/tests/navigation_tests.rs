use rust_explorer::error::AppError;
use rust_explorer::filesystem::{FileEntry, FileType};
use rust_explorer::navigation::{
    FileNavigationConfig, FileNavigationManager, FileNavigationState,
};
use rust_explorer::system_integration::SystemIntegration;

struct StubIntegration {
    fail_open: bool,
}

impl SystemIntegration for StubIntegration {
    fn open_file(&self, path: &String) -> Result<(), AppError> {
        if self.fail_open {
            Err(AppError::Io(format!("cannot open {}", path)))
        } else {
            Ok(())
        }
    }

    fn open_folder(&self, path: &String) -> Result<(), AppError> {
        if self.fail_open {
            Err(AppError::Io(format!("cannot open {}", path)))
        } else {
            Ok(())
        }
    }

    fn is_accessible(&self, _path: &String) -> bool {
        true
    }
}

fn entry(name: &str, file_type: FileType) -> FileEntry {
    FileEntry {
        name: name.to_string(),
        path: format!("/base/{}", name),
        file_type,
        size: 0,
        modified: None,
    }
}

#[test]
fn test_file_navigation_config_default() {
    let config = FileNavigationConfig::default();
    assert!(config.enable_double_click);
    assert!(config.enable_parent_navigation);
    assert!(config.enable_history);
}

#[test]
fn test_file_navigation_state_creation() {
    let path = "/home/user".to_string();
    let state = FileNavigationState::new(path.clone());

    assert_eq!(state.current_path, path);
    assert!(state.history_back.is_empty());
    assert!(state.history_forward.is_empty());
    assert!(state.last_error.is_none());
}

#[test]
fn navigation_manager_starts_without_history() {
    let manager = FileNavigationManager::with_default("/home/user".to_string());

    assert_eq!(manager.current_path(), "/home/user");
    assert!(!manager.can_go_back());
    assert!(!manager.can_go_forward());
}

#[test]
fn navigate_to_same_path_adds_no_history() {
    let mut manager = FileNavigationManager::with_default("/home/user".to_string());

    let result = manager.navigate_to(&"/home/user".to_string(), true);
    assert!(result.is_ok());
    assert!(!manager.can_go_back());
}

#[test]
fn navigate_to_invalid_path_fails_and_changes_nothing() {
    let mut manager = FileNavigationManager::with_default("/home/user".to_string());

    let result = manager.navigate_to(&"/does/not/exist".to_string(), false);
    assert!(result.is_err());
    assert_eq!(manager.current_path(), "/home/user");
}

#[test]
fn history_round_trip_scenario() {
    // navigate to A then B; going back restores A and makes B
    // forward-reachable; navigating to C afterwards clears the forward stack.
    let mut manager = FileNavigationManager::with_default("/start".to_string());

    manager.navigate_to(&"/a".to_string(), true).unwrap();
    manager.navigate_to(&"/b".to_string(), true).unwrap();

    manager.go_back().unwrap();
    assert_eq!(manager.current_path(), "/a");
    assert!(manager.can_go_forward());

    manager.go_forward().unwrap();
    assert_eq!(manager.current_path(), "/b");

    manager.go_back().unwrap();
    assert_eq!(manager.current_path(), "/a");

    manager.navigate_to(&"/c".to_string(), true).unwrap();
    assert!(!manager.can_go_forward());
    assert_eq!(manager.current_path(), "/c");
}

#[test]
fn go_back_on_empty_history_fails() {
    let mut manager = FileNavigationManager::with_default("/start".to_string());
    assert!(manager.go_back().is_err());
    assert!(manager.go_forward().is_err());
}

#[test]
fn navigate_up_walks_to_parent() {
    let mut manager = FileNavigationManager::with_default("/home/user/docs".to_string());

    assert!(manager.can_go_up());
    assert_eq!(manager.parent_path(), Some("/home/user".to_string()));

    manager.navigate_up(true).unwrap();
    assert_eq!(manager.current_path(), "/home/user");

    manager.navigate_up(true).unwrap();
    assert_eq!(manager.current_path(), "/home");

    manager.navigate_up(true).unwrap();
    assert_eq!(manager.current_path(), "/");

    assert!(!manager.can_go_up());
    assert!(manager.navigate_up(true).is_err());
}

#[test]
fn test_clear_error() {
    let mut manager = FileNavigationManager::with_default("/home/user".to_string());

    manager.record_error("an error for the user".to_string());
    assert!(manager.last_error().is_some());

    manager.clear_error();
    assert!(manager.last_error().is_none());
}

#[test]
fn back_history_is_bounded() {
    let mut manager = FileNavigationManager::with_default("/p0".to_string());
    for i in 1..=60u32 {
        let path = format!("/p{}", i);
        manager.navigate_to(&path, true).unwrap();
    }
    // Only 50 entries are retained; going back 50 times lands on the oldest
    // retained path, and no further.
    let mut steps = 0;
    while manager.can_go_back() {
        manager.go_back().unwrap();
        steps += 1;
    }
    assert_eq!(steps, 50);
    assert_eq!(manager.current_path(), "/p10");
}

#[test]
fn double_click_directory_navigates() {
    let mut manager = FileNavigationManager::with_default("/base".to_string());
    let stub = StubIntegration { fail_open: false };

    manager.handle_double_click(&entry("sub", FileType::Directory), true, &stub);
    assert_eq!(manager.current_path(), "/base/sub");
    assert!(manager.last_error().is_none());
}

#[test]
fn double_click_invalid_directory_records_error() {
    let mut manager = FileNavigationManager::with_default("/base".to_string());
    let stub = StubIntegration { fail_open: false };

    manager.handle_double_click(&entry("gone", FileType::Directory), false, &stub);
    assert_eq!(manager.current_path(), "/base");
    assert!(manager.last_error().is_some());
}

#[test]
fn double_click_file_failure_records_error() {
    let mut manager = FileNavigationManager::with_default("/base".to_string());
    let stub = StubIntegration { fail_open: true };

    manager.handle_double_click(&entry("doc.txt", FileType::File), true, &stub);
    assert_eq!(manager.current_path(), "/base");
    assert!(manager.last_error().is_some());

    let ok_stub = StubIntegration { fail_open: false };
    manager.clear_error();
    manager.handle_double_click(&entry("doc.txt", FileType::File), true, &ok_stub);
    assert!(manager.last_error().is_none());
}
