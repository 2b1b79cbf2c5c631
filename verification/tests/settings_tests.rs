use rust_explorer::settings::Settings;

#[test]
fn test_settings_default() {
    let settings = Settings::default();
    assert_eq!(settings.window_width, 1200);
    assert_eq!(settings.window_height, 800);
    assert_eq!(settings.min_window_width, 800);
    assert_eq!(settings.min_window_height, 600);
    assert!(!settings.window_maximized);
    assert!(settings.dark_theme);
}

#[test]
fn test_settings_load() {
    let result = Settings::load();
    assert!(result.is_ok());
    let settings = result.unwrap();
    assert_eq!(settings.window_width(), 1200);
    assert_eq!(settings.window_height(), 800);
}

#[test]
fn test_settings_save() {
    let settings = Settings::default();
    let result = settings.save();
    assert!(result.is_ok());
}

#[test]
fn test_window_getters() {
    let settings = Settings::default();
    assert_eq!(settings.window_width(), 1200);
    assert_eq!(settings.window_height(), 800);
    assert_eq!(settings.window_position(), (None, None));
    assert_eq!(settings.min_window_size(), (800, 600));
    assert!(!settings.is_window_maximized());
    assert!(settings.is_dark_theme());
}

#[test]
fn test_update_window_state() {
    let mut settings = Settings::default();
    settings.update_window_state(1024, 768, Some(100), Some(50), true);

    assert_eq!(settings.window_width, 1024);
    assert_eq!(settings.window_height, 768);
    assert_eq!(settings.window_x, Some(100));
    assert_eq!(settings.window_y, Some(50));
    assert!(settings.window_maximized);
}
