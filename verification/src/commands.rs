//! What the commands of the user interface answer, as far as it is a matter
//! of the settings and of what was found in the file system.

use crate::config::ConfigManager;
use crate::files::default_ignore_keys;
use crate::files::nodes_of;
use crate::files::scan_path;
use crate::files::File;
use crate::files::FileInfo;
use crate::files::FileNode;
use crate::snapshot::PathState;
use vstd::prelude::*;
use vstd::string::StringExecFns;

verus! {

/// What the command for the tree of the notes answers where the notes are
/// kept at `path` and `found` lies there: the tree without the entries left
/// out by default, or the failure in words. Without a path there is no scan.
pub open spec fn note_storage_tree(path: Seq<char>, found: PathState) -> Result<Seq<FileNode>, Seq<char>> {
    if path.len() == 0 {
        Err("Note storage path is not configured"@)
    } else {
        match scan_path(path, found, default_ignore_keys()) {
            Ok(nodes) => Ok(nodes),
            Err(failure) => Err("Failed to list directory: "@ + failure.message()),
        }
    }
}

/// The mathematical value of what the command for the tree answered.
pub open spec fn answered(result: Result<Vec<FileInfo>, String>) -> Result<Seq<FileNode>, Seq<char>> {
    match result {
        Ok(items) => Ok(nodes_of(items@)),
        Err(message) => Err(message@),
    }
}

/// The tree of the directory in which the notes are kept.
/// `note_storage_path` is the path that the settings name for it, and
/// `found` is what lies there.
pub fn get_note_storage_directory_tree(note_storage_path: &str, found: &PathState) -> (result: Result<
    Vec<FileInfo>,
    String,
>)
    requires
        found.depth_fits(),
    ensures
        answered(result) == note_storage_tree(note_storage_path@, *found),
{
    if note_storage_path.is_empty() {
        return Err(String::from_str("Note storage path is not configured"));
    }
    match File::list_dir_recursive_with_default_ignores(note_storage_path, found) {
        Ok(items) => Ok(items),
        Err(error) => {
            let reason = error.message();
            Err(String::from_str("Failed to list directory: ").concat(reason.as_str()))
        },
    }
}

/// The theme that the settings hold.
pub fn get_theme_setting(manager: &ConfigManager) -> (theme: String)
    ensures
        theme@ == manager@.theme,
{
    manager.get_config().theme
}

} // verus!
