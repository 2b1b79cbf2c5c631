use rust_explorer::error::{AppError, ErrorSeverity, ErrorStatistics};
use rust_explorer::event::{Event, EventManager};
use rust_explorer::pathtext::{extension_of, file_name_of, file_stem_of, join_path, parent_of};

#[test]
fn error_statistics_counts_by_severity() {
    let mut stats = ErrorStatistics::new();
    assert_eq!(stats.total_errors, 0);
    assert!(!stats.is_critical_error_rate_high());

    stats.record(ErrorSeverity::Critical);
    stats.record(ErrorSeverity::Warning);
    stats.record(ErrorSeverity::Fatal);

    assert_eq!(stats.total_errors, 3);
    assert_eq!(stats.get_error_count_by_severity(ErrorSeverity::Critical), 1);
    assert_eq!(stats.get_error_count_by_severity(ErrorSeverity::Fatal), 1);
    assert_eq!(stats.get_error_count_by_severity(ErrorSeverity::Warning), 1);
    // two of three errors are critical or fatal: well above one tenth
    assert!(stats.is_critical_error_rate_high());

    stats.reset();
    assert_eq!(stats.total_errors, 0);
    assert!(!stats.is_critical_error_rate_high());
}

#[test]
fn critical_rate_threshold_is_one_tenth() {
    let mut stats = ErrorStatistics::new();
    stats.record(ErrorSeverity::Critical);
    for _ in 0..9 {
        stats.record(ErrorSeverity::Info);
    }
    // exactly one tenth: not "high"
    assert!(!stats.is_critical_error_rate_high());
    stats.record(ErrorSeverity::Critical);
    assert!(stats.is_critical_error_rate_high());
}

#[test]
fn app_error_variants_carry_their_messages() {
    let e = AppError::NotFound("missing".to_string());
    assert!(matches!(e, AppError::NotFound(ref m) if m == "missing"));
    let e = AppError::InvalidPath("/bad".to_string());
    assert!(matches!(e, AppError::InvalidPath(ref p) if p == "/bad"));
}

#[test]
fn event_manager_accepts_every_event() {
    let manager = EventManager::new();
    assert!(manager.handle_event(Event::FileSelected("/a/f.txt".to_string())).is_ok());
    assert!(manager.handle_event(Event::DirectoryChanged("/a".to_string())).is_ok());
    assert!(manager.handle_event(Event::TabCreated("tab".to_string())).is_ok());
    assert!(manager.handle_event(Event::TabClosed("tab".to_string())).is_ok());
}

#[test]
fn path_text_components() {
    assert_eq!(file_name_of(&"/home/user/doc.txt".to_string()), Some("doc.txt".to_string()));
    assert_eq!(file_name_of(&"/home/user/".to_string()), Some("user".to_string()));
    assert_eq!(file_name_of(&"/".to_string()), None);

    assert_eq!(extension_of(&"/a/doc.txt".to_string()), Some("txt".to_string()));
    assert_eq!(extension_of(&"/a/archive.tar.gz".to_string()), Some("gz".to_string()));
    assert_eq!(extension_of(&"/a/.hidden".to_string()), None);
    assert_eq!(extension_of(&"/a/noext".to_string()), None);

    assert_eq!(file_stem_of(&"s.json".to_string()), Some("s".to_string()));
    assert_eq!(file_stem_of(&"noext".to_string()), Some("noext".to_string()));

    assert_eq!(parent_of(&"/home/user".to_string()), Some("/home".to_string()));
    assert_eq!(parent_of(&"/home".to_string()), Some("/".to_string()));
    assert_eq!(parent_of(&"/".to_string()), None);
    assert_eq!(parent_of(&"plain".to_string()), Some("".to_string()));

    assert_eq!(join_path(&"/a".to_string(), &"b".to_string()), "/a/b");
    assert_eq!(join_path(&"/a/".to_string(), &"b".to_string()), "/a/b");
}
