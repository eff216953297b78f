//! The application's settings: one record, its defaults, and the updates
//! that a settings manager applies to it.
//!
//! Nothing here reads or writes a file. What was read is handed in as a
//! [`ConfigSource`]; every update hands back the whole record, which is what
//! has to be written.

use vstd::prelude::*;
use vstd::string::StringExecFns;

verus! {

/// The settings of the application.
#[derive(Debug, Clone)]
pub struct AppConfig {
    pub theme: String,
    pub auto_start: bool,
    pub auto_update: bool,
    pub git_auto_commit: bool,
    pub git_username: String,
    pub git_email: String,
    pub auto_backup: bool,
    pub note_storage_path: String,
    pub backup_path: String,
}

/// The mathematical value of an [`AppConfig`].
pub ghost struct ConfigRecord {
    pub theme: Seq<char>,
    pub auto_start: bool,
    pub auto_update: bool,
    pub git_auto_commit: bool,
    pub git_username: Seq<char>,
    pub git_email: Seq<char>,
    pub auto_backup: bool,
    pub note_storage_path: Seq<char>,
    pub backup_path: Seq<char>,
}

/// A change of the settings, as one of the manager's updates makes it.
pub ghost enum ConfigUpdate {
    Theme { theme: Seq<char> },
    AutoStart { auto_start: bool },
    AutoUpdate { auto_update: bool },
    Git { auto_commit: bool, username: Seq<char>, email: Seq<char> },
    Paths { note_storage_path: Seq<char>, backup_path: Seq<char> },
    AutoBackup { auto_backup: bool },
}

impl ConfigRecord {
    /// The settings of a fresh installation: the light theme, every
    /// automatism switched on, no git identity and no paths.
    pub open spec fn initial() -> ConfigRecord {
        ConfigRecord {
            theme: "light"@,
            auto_start: true,
            auto_update: true,
            git_auto_commit: true,
            git_username: Seq::empty(),
            git_email: Seq::empty(),
            auto_backup: true,
            note_storage_path: Seq::empty(),
            backup_path: Seq::empty(),
        }
    }

    /// The record after `update`: the fields that the update names have its
    /// values, every other field is as before.
    pub open spec fn apply(self, update: ConfigUpdate) -> ConfigRecord {
        match update {
            ConfigUpdate::Theme { theme } => ConfigRecord { theme, ..self },
            ConfigUpdate::AutoStart { auto_start } => ConfigRecord { auto_start, ..self },
            ConfigUpdate::AutoUpdate { auto_update } => ConfigRecord { auto_update, ..self },
            ConfigUpdate::Git { auto_commit, username, email } => ConfigRecord {
                git_auto_commit: auto_commit,
                git_username: username,
                git_email: email,
                ..self
            },
            ConfigUpdate::Paths { note_storage_path, backup_path } => ConfigRecord {
                note_storage_path,
                backup_path,
                ..self
            },
            ConfigUpdate::AutoBackup { auto_backup } => ConfigRecord { auto_backup, ..self },
        }
    }

    /// The record holds what `update` set.
    pub open spec fn holds(self, update: ConfigUpdate) -> bool {
        match update {
            ConfigUpdate::Theme { theme } => self.theme == theme,
            ConfigUpdate::AutoStart { auto_start } => self.auto_start == auto_start,
            ConfigUpdate::AutoUpdate { auto_update } => self.auto_update == auto_update,
            ConfigUpdate::Git { auto_commit, username, email } => {
                &&& self.git_auto_commit == auto_commit
                &&& self.git_username == username
                &&& self.git_email == email
            },
            ConfigUpdate::Paths { note_storage_path, backup_path } => {
                &&& self.note_storage_path == note_storage_path
                &&& self.backup_path == backup_path
            },
            ConfigUpdate::AutoBackup { auto_backup } => self.auto_backup == auto_backup,
        }
    }
}

impl ConfigUpdate {
    /// The two updates set the same fields.
    pub open spec fn same_fields(self, other: ConfigUpdate) -> bool {
        ||| self is Theme && other is Theme
        ||| self is AutoStart && other is AutoStart
        ||| self is AutoUpdate && other is AutoUpdate
        ||| self is Git && other is Git
        ||| self is Paths && other is Paths
        ||| self is AutoBackup && other is AutoBackup
    }
}

impl View for AppConfig {
    type V = ConfigRecord;

    open spec fn view(&self) -> ConfigRecord {
        ConfigRecord {
            theme: self.theme@,
            auto_start: self.auto_start,
            auto_update: self.auto_update,
            git_auto_commit: self.git_auto_commit,
            git_username: self.git_username@,
            git_email: self.git_email@,
            auto_backup: self.auto_backup,
            note_storage_path: self.note_storage_path@,
            backup_path: self.backup_path@,
        }
    }
}

/// What reading the settings file gave.
#[derive(Debug)]
pub enum ConfigSource {
    /// There is no settings file.
    Missing,
    /// The file is there and could not be read.
    Unreadable,
    /// The file was read and does not hold a settings record.
    Malformed,
    /// The record that the file holds.
    Parsed(AppConfig),
}

/// The settings to start from, given what reading the file gave: the record
/// of the file where it holds one, the defaults in every other case.
pub open spec fn loaded(source: ConfigSource) -> ConfigRecord {
    match source {
        ConfigSource::Parsed(config) => config@,
        _ => ConfigRecord::initial(),
    }
}

impl Default for AppConfig {
    fn default() -> (config: AppConfig)
        ensures
            config@ == ConfigRecord::initial(),
    {
        AppConfig {
            theme: String::from_str("light"),
            auto_start: true,
            auto_update: true,
            git_auto_commit: true,
            git_username: String::new(),
            git_email: String::new(),
            auto_backup: true,
            note_storage_path: String::new(),
            backup_path: String::new(),
        }
    }
}

impl AppConfig {
    /// The settings of a fresh installation.
    pub fn new() -> (config: AppConfig)
        ensures
            config@ == ConfigRecord::initial(),
    {
        AppConfig::default()
    }

    /// The settings to start from. A file that is missing, unreadable or
    /// malformed never fails the start: it gives the defaults.
    pub fn load(source: ConfigSource) -> (config: AppConfig)
        ensures
            config@ == loaded(source),
    {
        match source {
            ConfigSource::Parsed(config) => config,
            _ => AppConfig::default(),
        }
    }

    /// A copy of the record, field by field.
    pub fn duplicate(&self) -> (copy: AppConfig)
        ensures
            copy@ == self@,
    {
        AppConfig {
            theme: self.theme.clone(),
            auto_start: self.auto_start,
            auto_update: self.auto_update,
            git_auto_commit: self.git_auto_commit,
            git_username: self.git_username.clone(),
            git_email: self.git_email.clone(),
            auto_backup: self.auto_backup,
            note_storage_path: self.note_storage_path.clone(),
            backup_path: self.backup_path.clone(),
        }
    }
}

/// The one holder of the settings. Each update changes the fields it names
/// and hands back the whole record as it then stands: the record to write.
#[derive(Debug)]
pub struct ConfigManager {
    config: AppConfig,
}

impl View for ConfigManager {
    type V = ConfigRecord;

    /// The record that the manager holds.
    closed spec fn view(&self) -> ConfigRecord {
        self.config@
    }
}

impl ConfigManager {
    /// A manager that starts from what reading the settings file gave.
    pub fn new(source: ConfigSource) -> (manager: ConfigManager)
        ensures
            manager@ == loaded(source),
    {
        ConfigManager { config: AppConfig::load(source) }
    }

    /// A copy of the record that the manager holds.
    pub fn get_config(&self) -> (config: AppConfig)
        ensures
            config@ == self@,
    {
        self.config.duplicate()
    }

    /// Sets the theme.
    pub fn update_theme(&mut self, theme: String) -> (record: AppConfig)
        ensures
            final(self)@ == old(self)@.apply(ConfigUpdate::Theme { theme: theme@ }),
            record@ == final(self)@,
    {
        self.config.theme = theme;
        self.config.duplicate()
    }

    /// Sets whether the application starts with the system.
    pub fn update_auto_start(&mut self, auto_start: bool) -> (record: AppConfig)
        ensures
            final(self)@ == old(self)@.apply(ConfigUpdate::AutoStart { auto_start }),
            record@ == final(self)@,
    {
        self.config.auto_start = auto_start;
        self.config.duplicate()
    }

    /// Sets whether the application updates itself.
    pub fn update_auto_update(&mut self, auto_update: bool) -> (record: AppConfig)
        ensures
            final(self)@ == old(self)@.apply(ConfigUpdate::AutoUpdate { auto_update }),
            record@ == final(self)@,
    {
        self.config.auto_update = auto_update;
        self.config.duplicate()
    }

    /// Sets the git settings, all three at once.
    pub fn update_git_config(&mut self, git_auto_commit: bool, git_username: String, git_email: String) -> (record:
        AppConfig)
        ensures
            final(self)@ == old(self)@.apply(
                ConfigUpdate::Git {
                    auto_commit: git_auto_commit,
                    username: git_username@,
                    email: git_email@,
                },
            ),
            record@ == final(self)@,
    {
        self.config.git_auto_commit = git_auto_commit;
        self.config.git_username = git_username;
        self.config.git_email = git_email;
        self.config.duplicate()
    }

    /// Sets where the notes and the backups are kept.
    pub fn update_path_config(&mut self, note_storage_path: String, backup_path: String) -> (record:
        AppConfig)
        ensures
            final(self)@ == old(self)@.apply(
                ConfigUpdate::Paths {
                    note_storage_path: note_storage_path@,
                    backup_path: backup_path@,
                },
            ),
            record@ == final(self)@,
    {
        self.config.note_storage_path = note_storage_path;
        self.config.backup_path = backup_path;
        self.config.duplicate()
    }

    /// Sets whether backups are made without asking.
    pub fn update_auto_backup(&mut self, auto_backup: bool) -> (record: AppConfig)
        ensures
            final(self)@ == old(self)@.apply(ConfigUpdate::AutoBackup { auto_backup }),
            record@ == final(self)@,
    {
        self.config.auto_backup = auto_backup;
        self.config.duplicate()
    }
}

/// A record that was read from the file is the record to start from, field
/// for field: what a writer put into the file and a reader got out of it
/// unchanged is not changed by loading it.
pub proof fn lemma_load_keeps_record_read(config: AppConfig)
    ensures
        loaded(ConfigSource::Parsed(config)) == config@,
{
}

/// An update is kept: the record after it holds what it set.
pub proof fn lemma_update_holds(record: ConfigRecord, update: ConfigUpdate)
    ensures
        record.apply(update).holds(update),
{
}

/// Updates of different fields do not undo one another. Applied one after
/// the other, in either order, they give the same record, and that record,
/// the one written last, holds what each of them set.
pub proof fn lemma_updates_of_different_fields_both_kept(
    record: ConfigRecord,
    first: ConfigUpdate,
    second: ConfigUpdate,
)
    requires
        !first.same_fields(second),
    ensures
        record.apply(first).apply(second) == record.apply(second).apply(first),
        record.apply(first).apply(second).holds(first),
        record.apply(first).apply(second).holds(second),
{
}

/// Of two updates of the same fields the later one stands.
pub proof fn lemma_later_update_of_same_fields_stands(
    record: ConfigRecord,
    first: ConfigUpdate,
    second: ConfigUpdate,
)
    requires
        first.same_fields(second),
    ensures
        record.apply(first).apply(second) == record.apply(second),
{
}

} // verus!
