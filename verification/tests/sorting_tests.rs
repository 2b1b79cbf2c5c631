use core::cmp::Ordering;
use rust_explorer::file_sorting::{
    compare_names, is_hidden_file, natural_sort_compare, FileSortFilterManager, FilterCriteria,
    SortConfig, SortCriteria, SortDirection,
};
use rust_explorer::filesystem::{FileEntry, FileType};
use rust_explorer::pathtext::extension_of;

fn create_test_entry(
    name: &str,
    file_type: FileType,
    size: u64,
    modified: Option<i64>,
) -> FileEntry {
    FileEntry {
        name: name.to_string(),
        path: name.to_string(),
        file_type,
        size,
        modified,
    }
}

#[test]
fn test_sort_config_default() {
    let config = SortConfig::default();
    assert_eq!(config.criteria, SortCriteria::Name);
    assert_eq!(config.direction, SortDirection::Ascending);
    assert!(config.folders_first);
}

#[test]
fn test_filter_criteria_default() {
    let criteria = FilterCriteria::default();
    assert!(!criteria.show_hidden);
    assert!(criteria.name_filter.is_none());
    assert!(criteria.extension_filter.is_none());
    assert!(criteria.min_size.is_none());
    assert!(criteria.max_size.is_none());
}

#[test]
fn test_sort_by_name() {
    let mut manager = FileSortFilterManager::new();
    manager.update_sort_config(SortConfig {
        criteria: SortCriteria::Name,
        direction: SortDirection::Ascending,
        folders_first: false,
    });

    let mut entries = vec![
        create_test_entry("zebra.txt", FileType::File, 100, None),
        create_test_entry("apple.txt", FileType::File, 200, None),
        create_test_entry("banana.txt", FileType::File, 150, None),
    ];

    manager.process_entries(&mut entries);

    assert_eq!(entries[0].name, "apple.txt");
    assert_eq!(entries[1].name, "banana.txt");
    assert_eq!(entries[2].name, "zebra.txt");
}

#[test]
fn test_sort_by_size() {
    let mut manager = FileSortFilterManager::new();
    manager.update_sort_config(SortConfig {
        criteria: SortCriteria::Size,
        direction: SortDirection::Ascending,
        folders_first: false,
    });

    let mut entries = vec![
        create_test_entry("large.txt", FileType::File, 1000, None),
        create_test_entry("small.txt", FileType::File, 100, None),
        create_test_entry("medium.txt", FileType::File, 500, None),
    ];

    manager.process_entries(&mut entries);

    assert_eq!(entries[0].name, "small.txt");
    assert_eq!(entries[1].name, "medium.txt");
    assert_eq!(entries[2].name, "large.txt");
}

#[test]
fn test_folders_first() {
    let mut manager = FileSortFilterManager::new();
    manager.update_sort_config(SortConfig {
        criteria: SortCriteria::Name,
        direction: SortDirection::Ascending,
        folders_first: true,
    });

    let mut entries = vec![
        create_test_entry("file.txt", FileType::File, 100, None),
        create_test_entry("folder", FileType::Directory, 0, None),
        create_test_entry("another_file.txt", FileType::File, 200, None),
    ];

    manager.process_entries(&mut entries);

    assert_eq!(entries[0].name, "folder");
    assert_eq!(entries[0].file_type, FileType::Directory);
}

#[test]
fn folders_first_ignores_direction() {
    let mut manager = FileSortFilterManager::new();
    manager.update_sort_config(SortConfig {
        criteria: SortCriteria::Name,
        direction: SortDirection::Descending,
        folders_first: true,
    });

    let mut entries = vec![
        create_test_entry("zz.txt", FileType::File, 1, None),
        create_test_entry("aa", FileType::Directory, 0, None),
        create_test_entry("mm.txt", FileType::File, 2, None),
        create_test_entry("bb", FileType::Directory, 0, None),
    ];

    manager.process_entries(&mut entries);

    // Directories stay ahead even though the direction is descending; within
    // the partitions the name order is reversed.
    assert_eq!(entries[0].file_type, FileType::Directory);
    assert_eq!(entries[1].file_type, FileType::Directory);
    assert_eq!(entries[0].name, "bb");
    assert_eq!(entries[1].name, "aa");
    assert_eq!(entries[2].name, "zz.txt");
    assert_eq!(entries[3].name, "mm.txt");
}

#[test]
fn test_filter_hidden_files() {
    let mut manager = FileSortFilterManager::new();
    manager.update_filter_criteria(FilterCriteria {
        show_hidden: false,
        ..Default::default()
    });

    let mut entries = vec![
        create_test_entry("visible.txt", FileType::File, 100, None),
        create_test_entry(".hidden.txt", FileType::File, 200, None),
        create_test_entry("normal.txt", FileType::File, 150, None),
    ];

    manager.process_entries(&mut entries);

    assert_eq!(entries.len(), 2);
    assert!(entries.iter().all(|e| !e.name.starts_with('.')));
}

#[test]
fn test_filter_by_name() {
    let mut manager = FileSortFilterManager::new();
    manager.update_filter_criteria(FilterCriteria {
        name_filter: Some("test".to_string()),
        ..Default::default()
    });

    let mut entries = vec![
        create_test_entry("test_file.txt", FileType::File, 100, None),
        create_test_entry("other.txt", FileType::File, 200, None),
        create_test_entry("testing.txt", FileType::File, 150, None),
    ];

    manager.process_entries(&mut entries);

    assert_eq!(entries.len(), 2);
    assert!(entries
        .iter()
        .all(|e| e.name.to_lowercase().contains("test")));
}

#[test]
fn test_filter_by_extension() {
    let mut manager = FileSortFilterManager::new();
    manager.update_filter_criteria(FilterCriteria {
        extension_filter: Some("txt".to_string()),
        ..Default::default()
    });

    let mut entries = vec![
        create_test_entry("document.txt", FileType::File, 100, None),
        create_test_entry("image.png", FileType::File, 200, None),
        create_test_entry("note.txt", FileType::File, 150, None),
    ];

    manager.process_entries(&mut entries);

    assert_eq!(entries.len(), 2);
    assert!(entries
        .iter()
        .all(|e| extension_of(&e.path) == Some("txt".to_string())));
}

#[test]
fn test_filter_by_size() {
    let mut manager = FileSortFilterManager::new();
    manager.update_filter_criteria(FilterCriteria {
        min_size: Some(150),
        max_size: Some(250),
        ..Default::default()
    });

    let mut entries = vec![
        create_test_entry("small.txt", FileType::File, 100, None),
        create_test_entry("medium.txt", FileType::File, 200, None),
        create_test_entry("large.txt", FileType::File, 300, None),
    ];

    manager.process_entries(&mut entries);

    assert_eq!(entries.len(), 1);
    assert_eq!(entries[0].name, "medium.txt");
}

#[test]
fn size_filter_never_excludes_directories() {
    let mut manager = FileSortFilterManager::new();
    manager.update_filter_criteria(FilterCriteria {
        min_size: Some(150),
        max_size: Some(250),
        ..Default::default()
    });

    let mut entries = vec![
        create_test_entry("small.txt", FileType::File, 100, None),
        create_test_entry("empty_dir", FileType::Directory, 0, None),
        create_test_entry("huge_dir", FileType::Directory, 99_999, None),
        create_test_entry("medium.txt", FileType::File, 200, None),
    ];

    manager.process_entries(&mut entries);

    // Both directories survive the size bounds; only the in-range file stays.
    assert_eq!(entries.len(), 3);
    assert!(entries
        .iter()
        .filter(|e| e.file_type == FileType::Directory)
        .count()
        == 2);
}

#[test]
fn test_toggle_sort_direction() {
    let mut manager = FileSortFilterManager::new();

    assert_eq!(manager.sort_config().direction, SortDirection::Ascending);

    manager.toggle_sort_direction();
    assert_eq!(manager.sort_config().direction, SortDirection::Descending);

    manager.toggle_sort_direction();
    assert_eq!(manager.sort_config().direction, SortDirection::Ascending);
}

#[test]
fn file_sorting_test_set_sort_criteria() {
    let mut manager = FileSortFilterManager::new();

    assert_eq!(manager.sort_config().criteria, SortCriteria::Name);
    assert_eq!(manager.sort_config().direction, SortDirection::Ascending);

    manager.set_sort_criteria(SortCriteria::Size);
    assert_eq!(manager.sort_config().criteria, SortCriteria::Size);
    assert_eq!(manager.sort_config().direction, SortDirection::Ascending);

    manager.set_sort_criteria(SortCriteria::Size);
    assert_eq!(manager.sort_config().criteria, SortCriteria::Size);
    assert_eq!(manager.sort_config().direction, SortDirection::Descending);
}

#[test]
fn test_has_active_filters() {
    let mut manager = FileSortFilterManager::new();

    assert!(!manager.has_active_filters());

    manager.update_filter_criteria(FilterCriteria {
        show_hidden: true,
        ..Default::default()
    });
    assert!(!manager.has_active_filters());

    manager.update_filter_criteria(FilterCriteria {
        name_filter: Some("test".to_string()),
        ..Default::default()
    });
    assert!(manager.has_active_filters());
}

#[test]
fn file_sorting_test_clear_filters() {
    let mut manager = FileSortFilterManager::new();

    manager.update_filter_criteria(FilterCriteria {
        name_filter: Some("test".to_string()),
        extension_filter: Some("txt".to_string()),
        min_size: Some(100),
        max_size: Some(1000),
        show_hidden: true,
    });

    assert!(manager.has_active_filters());

    manager.clear_filters();
    assert!(!manager.has_active_filters());
    assert_eq!(manager.filter_criteria(), &FilterCriteria::default());
}

#[test]
fn test_natural_sort() {
    let mut manager = FileSortFilterManager::new();
    manager.update_sort_config(SortConfig {
        criteria: SortCriteria::Name,
        direction: SortDirection::Ascending,
        folders_first: false,
    });

    let mut entries = vec![
        create_test_entry("file10.txt", FileType::File, 100, None),
        create_test_entry("file2.txt", FileType::File, 200, None),
        create_test_entry("file1.txt", FileType::File, 150, None),
    ];

    manager.process_entries(&mut entries);

    assert_eq!(entries[0].name, "file1.txt");
    assert_eq!(entries[1].name, "file2.txt");
    assert_eq!(entries[2].name, "file10.txt");
}

#[test]
fn natural_order_digit_runs() {
    assert_eq!(natural_sort_compare("file2", "file10"), Ordering::Less);
    assert_eq!(natural_sort_compare("file1", "file2"), Ordering::Less);
    assert_eq!(natural_sort_compare("file2", "file2"), Ordering::Equal);
    assert_eq!(natural_sort_compare("file10", "file2"), Ordering::Greater);
}

#[test]
fn natural_order_case_insensitive() {
    assert_eq!(compare_names("A", "a"), Ordering::Equal);
    assert_eq!(compare_names("File10", "file2"), Ordering::Greater);
    assert_eq!(compare_names("ALPHA", "beta"), Ordering::Less);
}

#[test]
fn test_is_hidden_file() {
    assert!(is_hidden_file(".hidden"));
    assert!(is_hidden_file(".config"));
    assert!(!is_hidden_file("visible.txt"));
    assert!(!is_hidden_file("normal"));
}

#[test]
fn sort_by_modified_missing_first() {
    let mut manager = FileSortFilterManager::new();
    manager.update_sort_config(SortConfig {
        criteria: SortCriteria::Modified,
        direction: SortDirection::Ascending,
        folders_first: false,
    });

    let mut entries = vec![
        create_test_entry("late.txt", FileType::File, 1, Some(2000)),
        create_test_entry("unknown.txt", FileType::File, 1, None),
        create_test_entry("early.txt", FileType::File, 1, Some(1000)),
    ];

    manager.process_entries(&mut entries);

    assert_eq!(entries[0].name, "unknown.txt");
    assert_eq!(entries[1].name, "early.txt");
    assert_eq!(entries[2].name, "late.txt");
}

#[test]
fn sort_by_type_missing_extension_first() {
    let mut manager = FileSortFilterManager::new();
    manager.update_sort_config(SortConfig {
        criteria: SortCriteria::Type,
        direction: SortDirection::Ascending,
        folders_first: false,
    });

    let mut entries = vec![
        create_test_entry("b.txt", FileType::File, 1, None),
        create_test_entry("a.PNG", FileType::File, 1, None),
        create_test_entry("noext", FileType::File, 1, None),
    ];

    manager.process_entries(&mut entries);

    assert_eq!(entries[0].name, "noext");
    assert_eq!(entries[1].name, "a.PNG");
    assert_eq!(entries[2].name, "b.txt");
}
