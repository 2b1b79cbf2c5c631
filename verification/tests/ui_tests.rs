use rust_explorer::breadcrumb::{BreadcrumbConfig, BreadcrumbItem, BreadcrumbNavigation};
use rust_explorer::file_item;
use rust_explorer::layout::{categorize_width, ScreenSizeCategory};
use rust_explorer::logging::{LogConfig, LogLevel, LogOutput};
use rust_explorer::modern_file_item;
use rust_explorer::modern_sidebar::SidebarItemType;
use rust_explorer::panic_handler::{PanicHandlerConfig, PostPanicAction};
use rust_explorer::sort_filter::SortFilterConfig;
use rust_explorer::theme::ThemeVariant;

#[test]
fn test_breadcrumb_config_default() {
    let config = BreadcrumbConfig::default();
    assert_eq!(config.max_visible_paths, 6);
    assert_eq!(config.separator, " / ");
    assert_eq!(config.home_icon, "🏠");
    assert_eq!(config.root_icon, "💻");
    assert_eq!(config.folder_icon, "📁");
}

#[test]
fn test_breadcrumb_item_creation() {
    let item = BreadcrumbItem {
        name: "Documents".to_string(),
        path: "/home/user/Documents".to_string(),
        icon: Some("📁".to_string()),
        clickable: true,
    };

    assert_eq!(item.name, "Documents");
    assert_eq!(item.path, "/home/user/Documents");
    assert_eq!(item.icon, Some("📁".to_string()));
    assert!(item.clickable);
}

#[test]
fn test_breadcrumb_navigation_creation() {
    let path = "/home/user".to_string();
    let nav = BreadcrumbNavigation::with_default(path.clone());
    assert_eq!(nav.current_path(), path);
}

#[test]
fn test_breadcrumb_navigation_set_path() {
    let initial_path = "/home/user".to_string();
    let new_path = "/home/user/Documents".to_string();

    let mut nav = BreadcrumbNavigation::with_default(initial_path);
    nav.set_path(new_path.clone());

    assert_eq!(nav.current_path(), new_path);
}

#[test]
fn test_sidebar_item_types() {
    assert_eq!(SidebarItemType::QuickAccess, SidebarItemType::QuickAccess);
    assert_ne!(SidebarItemType::Drive, SidebarItemType::Folder);
}

#[test]
fn test_sort_filter_config_default() {
    let config = SortFilterConfig::default();
    assert!(config.show_toolbar);
    assert!(!config.show_advanced_filters);
}

#[test]
fn file_item_test_format_file_size() {
    assert_eq!(file_item::format_file_size(0), "0 B");
    assert_eq!(file_item::format_file_size(512), "512 B");
    assert_eq!(file_item::format_file_size(1024), "1.0 KB");
    assert_eq!(file_item::format_file_size(1536), "1.5 KB");
    assert_eq!(file_item::format_file_size(1024 * 1024), "1.0 MB");
    assert_eq!(file_item::format_file_size(1024 * 1024 * 1024), "1.0 GB");
}

#[test]
fn test_format_modified_time() {
    let now = chrono::Utc::now().timestamp();

    let formatted = file_item::format_modified_time(Some(now));
    assert_eq!(formatted, "今");

    let formatted = file_item::format_modified_time(None);
    assert_eq!(formatted, "-");
}

#[test]
fn relative_times_have_exact_units() {
    // With an explicit clock the relative renderings are deterministic.
    let now = 1_000_000i64;
    assert_eq!(file_item::format_modified_time_at(Some(now - 59), now), "今");
    assert_eq!(file_item::format_modified_time_at(Some(now - 120), now), "2分前");
    assert_eq!(file_item::format_modified_time_at(Some(now - 7200), now), "2時間前");
    assert_eq!(file_item::format_modified_time_at(Some(now - 172800), now), "2日前");
}

#[test]
fn modern_file_item_test_format_file_size() {
    assert_eq!(modern_file_item::format_file_size(0), "—");
    assert_eq!(modern_file_item::format_file_size(512), "512 B");
    assert_eq!(modern_file_item::format_file_size(1024), "1.0 KB");
    assert_eq!(modern_file_item::format_file_size(1536), "1.5 KB");
}

#[test]
fn old_times_render_as_calendar_dates() {
    // A week-old timestamp falls through to the calendar rendering: the
    // epoch itself is the first day of 1970.
    let now = 1_000_000_000i64;
    assert_eq!(file_item::format_modified_time_at(Some(0), now), "1970/01/01");
    assert_eq!(modern_file_item::format_modified_time_at(Some(0), now), "1970/1/1");
}

#[test]
fn modern_format_modified_time_dashes() {
    assert_eq!(modern_file_item::format_modified_time(None), "—");
    let now = 1_000_000i64;
    assert_eq!(
        modern_file_item::format_modified_time_at(Some(now - 120), now),
        "2分前"
    );
}

#[test]
fn theme_variant_default_follows_system() {
    assert_eq!(ThemeVariant::default(), ThemeVariant::System);
}

#[test]
fn screen_size_categories_by_width() {
    assert_eq!(categorize_width(500), ScreenSizeCategory::XSmall);
    assert_eq!(categorize_width(800), ScreenSizeCategory::Small);
    assert_eq!(categorize_width(1200), ScreenSizeCategory::Medium);
    assert_eq!(categorize_width(1920), ScreenSizeCategory::Large);
}

#[test]
fn test_log_config_default() {
    let config = LogConfig::default();
    assert_eq!(config.level, LogLevel::Info);
    assert!(matches!(config.output, LogOutput::Stdout));
    assert!(config.include_location);
    assert!(!config.include_thread_name);
}

#[test]
fn log_level_filter_strings() {
    assert_eq!(LogLevel::Error.to_env_filter_string(), "error");
    assert_eq!(LogLevel::Info.to_env_filter_string(), "info");
    assert_eq!(LogLevel::Trace.to_env_filter_string(), "trace");
}

#[test]
fn test_panic_handler_config_default() {
    let config = PanicHandlerConfig::default();
    assert!(config.save_crash_reports);
    assert!(config.include_backtrace);
    assert!(config.include_system_info);
    assert_eq!(config.post_panic_action, PostPanicAction::Exit);
    assert_eq!(config.max_crash_reports, 10);
}
