//! The directory tree that a scan yields, and the scans themselves.

use crate::ignore::lowered;
use crate::ignore::lowered_names;
use crate::ignore::IgnoreSet;
use crate::scan::scan_dir;
use crate::scan::scan_listing;
use crate::snapshot::PathState;
use crate::tree::lemma_scan_path_tree;
use crate::tree::none_ignored;
use crate::tree::shaped;
use crate::tree::sorted_throughout;
use vstd::prelude::*;
use vstd::string::StringExecFns;

verus! {

/// Whether a node of a directory tree is a directory or anything else.
#[derive(Debug, Clone, Copy, PartialEq, Eq, Structural)]
pub enum FileType {
    File,
    Directory,
}

/// One node of a scanned directory tree.
#[derive(Debug)]
pub struct FileInfo {
    pub name: String,
    pub path: String,
    pub file_type: FileType,
    pub extension: Option<String>,
    /// Size in bytes.
    pub size: u64,
    /// Last modification, in seconds since the epoch.
    pub modified: u64,
    /// The nodes of the directory's entries; empty for anything but a directory.
    pub children: Vec<FileInfo>,
    /// How many directories lie between the node and the root of the scan.
    pub depth: usize,
}

/// The mathematical value of a [`FileInfo`].
pub ghost struct FileNode {
    pub name: Seq<char>,
    pub path: Seq<char>,
    pub file_type: FileType,
    pub extension: Option<Seq<char>>,
    pub size: u64,
    pub modified: u64,
    pub children: Seq<FileNode>,
    pub depth: nat,
}

/// The text of a string that may be absent.
pub open spec fn text_of(s: Option<String>) -> Option<Seq<char>> {
    match s {
        Some(t) => Some(t@),
        None => None,
    }
}

impl View for FileInfo {
    type V = FileNode;

    open spec fn view(&self) -> FileNode
        decreases self,
    {
        FileNode {
            name: self.name@,
            path: self.path@,
            file_type: self.file_type,
            extension: text_of(self.extension),
            size: self.size,
            modified: self.modified,
            children: nodes_of(self.children@),
            depth: self.depth as nat,
        }
    }
}

/// The mathematical values of a sequence of nodes.
pub open spec fn nodes_of(items: Seq<FileInfo>) -> Seq<FileNode>
    decreases items,
{
    Seq::new(
        items.len(),
        |i: int|
            if 0 <= i < items.len() {
                items[i]@
            } else {
                arbitrary()
            },
    )
}

/// Why a scan gave no tree.
#[derive(Debug)]
pub enum ScanError {
    /// Nothing exists at the path; the text is the path.
    NotFound(String),
    /// What exists at the path is not a directory; the text is the path.
    NotADirectory(String),
    /// Reading failed on the way; the text is the failure's message.
    Io(String),
}

/// The mathematical value of a [`ScanError`].
pub ghost enum ScanFailure {
    NotFound(Seq<char>),
    NotADirectory(Seq<char>),
    Io(Seq<char>),
}

impl ScanFailure {
    /// The failure in words.
    pub open spec fn message(self) -> Seq<char> {
        match self {
            ScanFailure::NotFound(path) => "Path does not exist: "@ + path,
            ScanFailure::NotADirectory(path) => "Path is not a directory: "@ + path,
            ScanFailure::Io(message) => "Failed to list directory: "@ + message,
        }
    }
}

impl View for ScanError {
    type V = ScanFailure;

    open spec fn view(&self) -> ScanFailure {
        match self {
            ScanError::NotFound(path) => ScanFailure::NotFound(path@),
            ScanError::NotADirectory(path) => ScanFailure::NotADirectory(path@),
            ScanError::Io(message) => ScanFailure::Io(message@),
        }
    }
}

impl ScanError {
    /// The failure in words.
    pub fn message(&self) -> (text: String)
        ensures
            text@ == self@.message(),
    {
        match self {
            ScanError::NotFound(path) => String::from_str("Path does not exist: ").concat(
                path.as_str(),
            ),
            ScanError::NotADirectory(path) => String::from_str("Path is not a directory: ").concat(
                path.as_str(),
            ),
            ScanError::Io(message) => String::from_str("Failed to list directory: ").concat(
                message.as_str(),
            ),
        }
    }
}

/// What the scan of the path `path` yields where `found` is what lies at
/// the path: the tree of the directory, its entries at depth 0, or the reason
/// why there is none.
pub open spec fn scan_path(path: Seq<char>, found: PathState, ignore: Set<Seq<char>>) -> Result<
    Seq<FileNode>,
    ScanFailure,
> {
    match found {
        PathState::Missing => Err(ScanFailure::NotFound(path)),
        PathState::NotADirectory => Err(ScanFailure::NotADirectory(path)),
        PathState::Directory(listing) => match scan_listing(listing, 0, ignore) {
            Ok(nodes) => Ok(nodes),
            Err(message) => Err(ScanFailure::Io(message)),
        },
    }
}

/// The mathematical value of what a scan of a path returned.
pub open spec fn scanned(result: Result<Vec<FileInfo>, ScanError>) -> Result<Seq<FileNode>, ScanFailure> {
    match result {
        Ok(items) => Ok(nodes_of(items@)),
        Err(error) => Err(error@),
    }
}

/// The names that [`File::list_dir_recursive_with_default_ignores`] leaves out.
pub open spec fn default_ignore_names() -> Seq<Seq<char>> {
    seq![
        ".git"@,
        "node_modules"@,
        ".DS_Store"@,
        "Thumbs.db"@,
        ".idea"@,
        ".vscode"@,
        "target"@,
        "__pycache__"@,
        ".pytest_cache"@,
        "venv"@,
        "env"@,
        ".env"@,
        ".env.local"@,
        ".env.development.local"@,
        ".env.test.local"@,
        ".env.production.local"@,
    ]
}

/// The scans of a directory tree.
pub struct File {}

impl File {
    /// Scans the directory at `path`, of which `found` tells what a reader
    /// of the file system found there, and leaves out every entry whose name
    /// is, whatever its case, one of `ignore_list`.
    ///
    /// The result is a function of the arguments alone: a second scan of what
    /// was found gives the same tree. In the tree no node has a name that is
    /// left out, the nodes of every directory stand in ascending order of
    /// their lower-case names, and the nodes of the directory at `path` lie at
    /// depth 0, the children of a node one deeper than the node.
    pub fn list_dir_recursive(path: &str, found: &PathState, ignore_list: Option<Vec<&str>>) -> (result:
        Result<Vec<FileInfo>, ScanError>)
        requires
            found.depth_fits(),
        ensures
            scanned(result) == scan_path(path@, *found, lowered_names(ignore_list)),
            *found is Missing ==> scanned(result) == Err::<Seq<FileNode>, ScanFailure>(
                ScanFailure::NotFound(path@),
            ),
            *found is NotADirectory ==> scanned(result) == Err::<Seq<FileNode>, ScanFailure>(
                ScanFailure::NotADirectory(path@),
            ),
            result matches Ok(items) ==> {
                &&& *found is Directory
                &&& none_ignored(nodes_of(items@), lowered_names(ignore_list))
                &&& sorted_throughout(nodes_of(items@))
                &&& shaped(nodes_of(items@), 0)
            },
    {
        proof {
            if scan_path(path@, *found, lowered_names(ignore_list)) is Ok {
                lemma_scan_path_tree(path@, *found, lowered_names(ignore_list));
            }
        }
        match found {
            PathState::Missing => Err(ScanError::NotFound(String::from_str(path))),
            PathState::NotADirectory => Err(ScanError::NotADirectory(String::from_str(path))),
            PathState::Directory(listing) => {
                let ignore = IgnoreSet::from_names(ignore_list);
                match scan_dir(listing, 0, &ignore) {
                    Ok(items) => Ok(items),
                    Err(message) => Err(ScanError::Io(message)),
                }
            },
        }
    }

    /// Scans the directory at `path` and leaves nothing out.
    pub fn list_dir_recursive_simple(path: &str, found: &PathState) -> (result: Result<
        Vec<FileInfo>,
        ScanError,
    >)
        requires
            found.depth_fits(),
        ensures
            scanned(result) == scan_path(path@, *found, Set::empty()),
    {
        Self::list_dir_recursive(path, found, None)
    }

    /// The names that a scan leaves out by default.
    pub fn default_ignores() -> (names: Vec<&'static str>)
        ensures
            names@.len() == default_ignore_names().len(),
            forall|i: int| 0 <= i < names@.len() ==> (#[trigger] names@[i])@ == default_ignore_names()[i],
    {
        vec![
            ".git",
            "node_modules",
            ".DS_Store",
            "Thumbs.db",
            ".idea",
            ".vscode",
            "target",
            "__pycache__",
            ".pytest_cache",
            "venv",
            "env",
            ".env",
            ".env.local",
            ".env.development.local",
            ".env.test.local",
            ".env.production.local",
        ]
    }

    /// Scans the directory at `path` and leaves out the entries that version
    /// control, editors, build tools and environments keep for themselves.
    pub fn list_dir_recursive_with_default_ignores(path: &str, found: &PathState) -> (result: Result<
        Vec<FileInfo>,
        ScanError,
    >)
        requires
            found.depth_fits(),
        ensures
            scanned(result) == scan_path(path@, *found, default_ignore_keys()),
    {
        let names = Self::default_ignores();
        assert(lowered(names@) =~= Seq::new(
            default_ignore_names().len(),
            |i: int| crate::text::lowercase(default_ignore_names()[i]),
        ));
        Self::list_dir_recursive(path, found, Some(names))
    }
}

/// The lower-case forms of the default names: the keys that
/// [`File::list_dir_recursive_with_default_ignores`] leaves out.
pub open spec fn default_ignore_keys() -> Set<Seq<char>> {
    Seq::new(
        default_ignore_names().len(),
        |i: int| crate::text::lowercase(default_ignore_names()[i]),
    ).to_set()
}

} // verus!
