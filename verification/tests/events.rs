use luminliquid::config::ConfigManager;
use luminliquid::config::ConfigSource;
use luminliquid::events::emit_current_theme;
use luminliquid::events::emit_storage_path_changed;
use luminliquid::events::emit_theme_changed;
use luminliquid::events::update_storage_path_and_notify;
use luminliquid::events::update_theme_and_notify;
use luminliquid::events::Notification;
use luminliquid::events::StoragePathChangedEvent;
use luminliquid::events::ThemeChangedEvent;

#[test]
fn dark_theme_is_dark() {
    let event = ThemeChangedEvent::new("dark".to_string());
    assert_eq!(event.theme, "dark");
    assert!(event.is_dark);
}

#[test]
fn any_other_theme_is_not_dark() {
    for theme in ["light", "Dark", "DARK", "dark ", "darker", "dar", ""] {
        let event = ThemeChangedEvent::new(theme.to_string());
        assert_eq!(event.theme, theme);
        assert!(!event.is_dark);
    }
}

#[test]
fn storage_path_event_holds_the_path() {
    let event = StoragePathChangedEvent::new("/home/ada/notes".to_string());
    assert_eq!(event.note_storage_path, "/home/ada/notes");
}

#[test]
fn notifications_go_out_under_their_names() {
    assert_eq!(emit_theme_changed("dark".to_string()).event_name(), "theme-changed");
    assert_eq!(emit_storage_path_changed("/n".to_string()).event_name(), "storage-path-changed");
}

#[test]
fn theme_notification_holds_theme_and_darkness() {
    match emit_theme_changed("dark".to_string()) {
        Notification::ThemeChanged(event) => {
            assert_eq!(event.theme, "dark");
            assert!(event.is_dark);
        },
        other => panic!("unexpected: {:?}", other),
    }
    match emit_theme_changed("light".to_string()) {
        Notification::ThemeChanged(event) => {
            assert_eq!(event.theme, "light");
            assert!(!event.is_dark);
        },
        other => panic!("unexpected: {:?}", other),
    }
}

#[test]
fn storage_path_notification_holds_the_path() {
    match emit_storage_path_changed("/notes".to_string()) {
        Notification::StoragePathChanged(event) => assert_eq!(event.note_storage_path, "/notes"),
        other => panic!("unexpected: {:?}", other),
    }
}

#[test]
fn current_theme_is_the_one_of_the_settings() {
    let mut manager = ConfigManager::new(ConfigSource::Missing);
    match emit_current_theme(&manager) {
        Notification::ThemeChanged(event) => {
            assert_eq!(event.theme, "light");
            assert!(!event.is_dark);
        },
        other => panic!("unexpected: {:?}", other),
    }
    manager.update_theme("dark".to_string());
    match emit_current_theme(&manager) {
        Notification::ThemeChanged(event) => {
            assert_eq!(event.theme, "dark");
            assert!(event.is_dark);
        },
        other => panic!("unexpected: {:?}", other),
    }
}

#[test]
fn theme_update_is_written_and_announced() {
    let mut manager = ConfigManager::new(ConfigSource::Missing);
    let change = update_theme_and_notify(&mut manager, "dark".to_string());
    assert_eq!(change.record.theme, "dark");
    assert!(change.record.auto_start);
    assert_eq!(manager.get_config().theme, "dark");
    match change.notification {
        Notification::ThemeChanged(event) => {
            assert_eq!(event.theme, "dark");
            assert!(event.is_dark);
        },
        other => panic!("unexpected: {:?}", other),
    }
}

#[test]
fn storage_path_update_keeps_the_old_path_as_backup() {
    let mut manager = ConfigManager::new(ConfigSource::Missing);
    manager.update_path_config("/old/notes".to_string(), "/old/backup".to_string());
    let change = update_storage_path_and_notify(&mut manager, "/new/notes".to_string());
    assert_eq!(change.record.note_storage_path, "/new/notes");
    assert_eq!(change.record.backup_path, "/old/notes");
    assert_eq!(change.record.theme, "light");
    let held = manager.get_config();
    assert_eq!(held.note_storage_path, "/new/notes");
    assert_eq!(held.backup_path, "/old/notes");
    match change.notification {
        Notification::StoragePathChanged(event) => assert_eq!(event.note_storage_path, "/new/notes"),
        other => panic!("unexpected: {:?}", other),
    }
}
