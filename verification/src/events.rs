//! The notifications that the user interface gets when a setting changes.
//!
//! A notification is a value: what sends it lives outside this library. The
//! functions that change a setting and notify hand back the record to write
//! and the notification to send once the record is written.

use crate::config::AppConfig;
use crate::config::ConfigManager;
use crate::config::ConfigUpdate;
use vstd::prelude::*;
use vstd::string::StringExecFns;

verus! {

/// Tells the user interface which theme is now set.
#[derive(Debug, Clone)]
pub struct ThemeChangedEvent {
    pub theme: String,
    pub is_dark: bool,
}

impl ThemeChangedEvent {
    /// The notification for `theme`, which is dark when it is called `dark`.
    pub fn new(theme: String) -> (event: ThemeChangedEvent)
        ensures
            event.theme@ == theme@,
            event.is_dark == (theme@ == "dark"@),
    {
        let is_dark = theme == String::from_str("dark");
        ThemeChangedEvent { theme, is_dark }
    }
}

/// Tells the user interface where the notes are now kept.
#[derive(Debug, Clone)]
pub struct StoragePathChangedEvent {
    pub note_storage_path: String,
}

impl StoragePathChangedEvent {
    /// The notification for `note_storage_path`.
    pub fn new(note_storage_path: String) -> (event: StoragePathChangedEvent)
        ensures
            event.note_storage_path@ == note_storage_path@,
    {
        StoragePathChangedEvent { note_storage_path }
    }
}

/// A notification to the user interface.
#[derive(Debug, Clone)]
pub enum Notification {
    ThemeChanged(ThemeChangedEvent),
    StoragePathChanged(StoragePathChangedEvent),
}

/// The mathematical value of a [`Notification`].
pub ghost enum Notice {
    ThemeChanged { theme: Seq<char>, is_dark: bool },
    StoragePathChanged { note_storage_path: Seq<char> },
}

impl Notice {
    /// The notice that a theme is set.
    pub open spec fn theme(theme: Seq<char>) -> Notice {
        Notice::ThemeChanged { theme, is_dark: theme == "dark"@ }
    }

    /// The name under which the user interface listens for the notice.
    pub open spec fn event_name(self) -> Seq<char> {
        match self {
            Notice::ThemeChanged { .. } => "theme-changed"@,
            Notice::StoragePathChanged { .. } => "storage-path-changed"@,
        }
    }
}

impl View for Notification {
    type V = Notice;

    open spec fn view(&self) -> Notice {
        match self {
            Notification::ThemeChanged(event) => Notice::ThemeChanged {
                theme: event.theme@,
                is_dark: event.is_dark,
            },
            Notification::StoragePathChanged(event) => Notice::StoragePathChanged {
                note_storage_path: event.note_storage_path@,
            },
        }
    }
}

impl Notification {
    /// The name under which the user interface listens for the notification.
    pub fn event_name(&self) -> (name: &'static str)
        ensures
            name@ == self@.event_name(),
    {
        match self {
            Notification::ThemeChanged(_) => "theme-changed",
            Notification::StoragePathChanged(_) => "storage-path-changed",
        }
    }
}

/// A change of the settings that is to be written and then made known.
#[derive(Debug)]
pub struct Announced {
    /// The whole record, to be written first.
    pub record: AppConfig,
    /// What to tell the user interface once the record is written.
    pub notification: Notification,
}

/// The notification that `theme` is set.
pub fn emit_theme_changed(theme: String) -> (notification: Notification)
    ensures
        notification@ == Notice::theme(theme@),
{
    Notification::ThemeChanged(ThemeChangedEvent::new(theme))
}

/// The notification of the theme that the settings hold.
pub fn emit_current_theme(manager: &ConfigManager) -> (notification: Notification)
    ensures
        notification@ == Notice::theme(manager@.theme),
{
    let config = manager.get_config();
    emit_theme_changed(config.theme)
}

/// Sets the theme and tells the user interface.
pub fn update_theme_and_notify(manager: &mut ConfigManager, theme: String) -> (change: Announced)
    ensures
        final(manager)@ == old(manager)@.apply(ConfigUpdate::Theme { theme: theme@ }),
        change.record@ == final(manager)@,
        change.notification@ == Notice::theme(theme@),
{
    let record = manager.update_theme(theme.clone());
    Announced { record, notification: emit_theme_changed(theme) }
}

/// The notification that the notes are kept at `note_storage_path`.
pub fn emit_storage_path_changed(note_storage_path: String) -> (notification: Notification)
    ensures
        notification@ == (Notice::StoragePathChanged { note_storage_path: note_storage_path@ }),
{
    Notification::StoragePathChanged(StoragePathChangedEvent::new(note_storage_path))
}

/// Moves the notes to `note_storage_path` and tells the user interface. The
/// path that the notes were kept at becomes the backup path.
pub fn update_storage_path_and_notify(manager: &mut ConfigManager, note_storage_path: String) -> (change:
    Announced)
    ensures
        final(manager)@ == old(manager)@.apply(
            ConfigUpdate::Paths {
                note_storage_path: note_storage_path@,
                backup_path: old(manager)@.note_storage_path,
            },
        ),
        change.record@ == final(manager)@,
        change.notification@ == (Notice::StoragePathChanged { note_storage_path: note_storage_path@ }),
{
    let previous = manager.get_config().note_storage_path;
    let record = manager.update_path_config(note_storage_path.clone(), previous);
    Announced { record, notification: emit_storage_path_changed(note_storage_path) }
}

} // verus!
