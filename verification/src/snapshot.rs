//! What a reader of the file system found under a path, as plain values.
//!
//! A scan works on such a snapshot: it never touches the file system itself.

use vstd::prelude::*;

verus! {

/// When an entry was last modified, as far as the file system told.
#[derive(Debug, Clone, Copy, PartialEq, Eq, Structural)]
pub enum ModifiedTime {
    /// The file system could not tell.
    Unavailable,
    /// A time before the epoch.
    BeforeEpoch,
    /// Whole seconds since the epoch.
    SinceEpoch(u64),
}

impl ModifiedTime {
    /// Seconds since the epoch, with every time that is unknown or lies
    /// before the epoch taken as the epoch itself.
    pub open spec fn seconds(self) -> u64 {
        match self {
            ModifiedTime::SinceEpoch(seconds) => seconds,
            _ => 0,
        }
    }

    /// Seconds since the epoch, clamped to the epoch.
    pub fn as_secs(&self) -> (seconds: u64)
        ensures
            seconds == self.seconds(),
    {
        match self {
            ModifiedTime::SinceEpoch(seconds) => *seconds,
            _ => 0,
        }
    }
}

/// What the metadata of a directory entry said.
#[derive(Debug)]
pub enum EntryStatus {
    /// The metadata could not be read; the text is the failure's message.
    Unreadable(String),
    /// Anything that is not a directory.
    File { size: u64, modified: ModifiedTime },
    /// A directory, with what listing it gave.
    Directory { size: u64, modified: ModifiedTime, listing: DirListing },
}

/// One entry of a directory, in the form in which a listing yields it.
#[derive(Debug)]
pub struct DirEntry {
    /// The last component of the entry's path.
    pub name: String,
    /// The entry's full path.
    pub path: String,
    /// The extension of the path, where it has one.
    pub extension: Option<String>,
    pub status: EntryStatus,
}

/// The outcome of listing one directory: the entries that were read, in the
/// order in which they came, and the failure that ended the listing, if one did.
/// A directory that could not be opened has no entries and a failure.
#[derive(Debug)]
pub struct DirListing {
    pub entries: Vec<DirEntry>,
    pub failure: Option<String>,
}

/// What was found at the path that a scan starts from.
#[derive(Debug)]
pub enum PathState {
    /// Nothing exists at the path.
    Missing,
    /// Something exists at the path, and it is not a directory.
    NotADirectory,
    /// A directory, with what listing it gave.
    Directory(DirListing),
}

impl PathState {
    /// No directory of what was found lies deeper than a `usize` can count.
    pub open spec fn depth_fits(self) -> bool {
        match self {
            PathState::Directory(listing) => depth_fits(listing, 0),
            _ => true,
        }
    }

    /// Whether no directory of what was found lies deeper than a `usize` can
    /// count: whether a scan can take it.
    pub fn check_depth(&self) -> (fits: bool)
        ensures
            fits == self.depth_fits(),
    {
        match self {
            PathState::Directory(listing) => check_depth(listing, 0),
            _ => true,
        }
    }
}

/// Whether every directory of the listing lies at a depth that a `usize`
/// can hold, `depth` being the depth of the listing's own entries.
pub fn check_depth(listing: &DirListing, depth: usize) -> (fits: bool)
    ensures
        fits == depth_fits(*listing, depth as nat),
    decreases listing,
{
    let mut i: usize = 0;
    while i < listing.entries.len()
        invariant
            i <= listing.entries.len(),
            forall|k: int|
                0 <= k < i ==> (#[trigger] listing.entries[k].status matches EntryStatus::Directory {
                    listing: inner,
                    ..
                } ==> depth_fits(inner, depth as nat + 1)),
        decreases listing.entries.len() - i,
    {
        match &listing.entries[i].status {
            EntryStatus::Directory { listing: inner, .. } => {
                if depth == usize::MAX {
                    assert(!depth_fits(*inner, depth as nat + 1));
                    assert(listing.entries[i as int].status is Directory);
                    return false;
                }
                if !check_depth(inner, depth + 1) {
                    assert(listing.entries[i as int].status is Directory);
                    return false;
                }
            },
            _ => {},
        }
        i += 1;
    }
    true
}

/// Every directory of the listing lies at a depth that a `usize` can hold,
/// `depth` being the depth of the listing's own entries.
pub open spec fn depth_fits(listing: DirListing, depth: nat) -> bool
    decreases listing,
{
    &&& depth <= usize::MAX
    &&& forall|i: int|
        0 <= i < listing.entries.len() ==> (#[trigger] listing.entries[i].status matches EntryStatus::Directory {
            listing: inner,
            ..
        } ==> depth_fits(inner, depth + 1))
}

} // verus!
