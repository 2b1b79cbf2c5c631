use rust_explorer::persistence::{
    backup_file_name, backup_prefix, DirectoryModel, StatePersistenceConfig,
    StatePersistenceManager,
};

fn test_manager(max_backups: u32) -> StatePersistenceManager {
    let config = StatePersistenceConfig {
        state_dir: "/tmp/state".to_string(),
        auto_save_interval: 10,
        auto_save_enabled: true,
        max_backups,
    };
    StatePersistenceManager::new(config).unwrap()
}

#[test]
fn test_state_persistence_config_default() {
    let config = StatePersistenceConfig::default();

    assert!(config.state_dir.contains("rust-explorer"));
    assert_eq!(config.auto_save_interval, 30);
    assert!(config.auto_save_enabled);
    assert_eq!(config.max_backups, 5);
}

#[test]
fn save_then_load_round_trip() {
    let manager = test_manager(3);
    let mut dir = DirectoryModel::new();

    let result = manager.save_content(&mut dir, &"test_state.json".to_string(), "payload".to_string(), 1000);
    assert!(result.is_ok());
    assert!(manager.state_exists(&dir, "test_state.json"));

    let loaded = manager.load_state(&dir, "test_state.json");
    assert_eq!(loaded.unwrap(), "payload");
}

#[test]
fn test_load_nonexistent_state() {
    let manager = test_manager(3);
    let dir = DirectoryModel::new();

    let load_result = manager.load_state(&dir, "nonexistent.json");
    assert!(load_result.is_err());
}

#[test]
fn test_delete_state() {
    let manager = test_manager(3);
    let mut dir = DirectoryModel::new();

    manager
        .save_content(&mut dir, &"test_state.json".to_string(), "data".to_string(), 1000)
        .unwrap();
    assert!(manager.state_exists(&dir, "test_state.json"));

    let delete_result = manager.delete_state(&mut dir, "test_state.json");
    assert!(delete_result.is_ok());
    assert!(!manager.state_exists(&dir, "test_state.json"));
}

#[test]
fn test_list_state_files() {
    let manager = test_manager(3);
    let mut dir = DirectoryModel::new();

    manager.save_content(&mut dir, &"state2.json".to_string(), "b".to_string(), 1000).unwrap();
    manager.save_content(&mut dir, &"state1.json".to_string(), "a".to_string(), 1001).unwrap();
    manager.save_content(&mut dir, &"state3.json".to_string(), "c".to_string(), 1002).unwrap();

    let files = manager.list_state_files(&dir).unwrap();
    assert_eq!(files.len(), 3);
    assert_eq!(files[0], "state1.json");
    assert_eq!(files[1], "state2.json");
    assert_eq!(files[2], "state3.json");
}

#[test]
fn backup_naming_uses_the_stem() {
    let prefix = backup_prefix(&"s.json".to_string()).unwrap();
    assert_eq!(prefix, "s.backup.");

    let name = backup_file_name(&"s.json".to_string(), &"20240101_120000".to_string()).unwrap();
    assert_eq!(name, "s.backup.20240101_120000.json");

    assert!(backup_prefix(&"".to_string()).is_err());
}

#[test]
fn backup_scenario_two_saves() {
    // save v1, then v2, to the same key: one backup remains, the live file
    // holds v2, and the backup restores v1.
    let manager = test_manager(5);
    let mut dir = DirectoryModel::new();

    manager.save_content(&mut dir, &"s.json".to_string(), "v1".to_string(), 1000).unwrap();
    manager.save_content(&mut dir, &"s.json".to_string(), "v2".to_string(), 2000).unwrap();

    let backups = manager.list_backups(&dir, &"s.json".to_string()).unwrap();
    assert_eq!(backups.len(), 1);

    assert_eq!(manager.load_state(&dir, "s.json").unwrap(), "v2");
    assert_eq!(
        manager.restore_from_backup(&dir, &"s.json".to_string()).unwrap(),
        "v1"
    );
}

#[test]
fn backup_rotation_keeps_newest() {
    // five saves with max_backups = 2: exactly two backups remain, holding
    // the two most recently replaced snapshots.
    let manager = test_manager(2);
    let mut dir = DirectoryModel::new();

    for i in 1..=5i64 {
        let content = format!("state_{}", i);
        manager
            .save_content(&mut dir, &"test_state.json".to_string(), content, 1000 * i)
            .unwrap();
    }

    let backups = manager.list_backups(&dir, &"test_state.json".to_string()).unwrap();
    assert_eq!(backups.len(), 2);
    // Newest first; the two retained copies are of the latest two replaced
    // versions.
    assert_eq!(backups[0].content, "state_4");
    assert_eq!(backups[1].content, "state_3");
    assert!(backups[0].mtime >= backups[1].mtime);
}

#[test]
fn restore_without_backups_fails() {
    let manager = test_manager(3);
    let mut dir = DirectoryModel::new();
    manager.save_content(&mut dir, &"only.json".to_string(), "v1".to_string(), 1000).unwrap();

    // A single save makes no backup, so restoring reports the absence.
    let result = manager.restore_from_backup(&dir, &"only.json".to_string());
    assert!(result.is_err());
}

#[test]
fn backups_do_not_appear_in_state_listing_of_other_keys() {
    let manager = test_manager(5);
    let mut dir = DirectoryModel::new();

    manager.save_content(&mut dir, &"a.json".to_string(), "a1".to_string(), 1000).unwrap();
    manager.save_content(&mut dir, &"a.json".to_string(), "a2".to_string(), 2000).unwrap();
    manager.save_content(&mut dir, &"b.json".to_string(), "b1".to_string(), 3000).unwrap();

    // Backups of `a.json` do not count as backups of `b.json`.
    let b_backups = manager.list_backups(&dir, &"b.json".to_string()).unwrap();
    assert_eq!(b_backups.len(), 0);
    let a_backups = manager.list_backups(&dir, &"a.json".to_string()).unwrap();
    assert_eq!(a_backups.len(), 1);
}
