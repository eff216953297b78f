//! The scan of a directory snapshot: what it yields, and the laws of that.

use crate::files::nodes_of;
use crate::files::text_of;
use crate::files::FileInfo;
use crate::files::FileNode;
use crate::files::FileType;
use crate::ignore::IgnoreSet;
use crate::order::stable_sort;
use crate::order::values;
use crate::siblings::Siblings;
use crate::snapshot::depth_fits;
use crate::snapshot::DirEntry;
use crate::snapshot::DirListing;
use crate::snapshot::EntryStatus;
use crate::text::lowercase;
use crate::text::to_lowercase;
use vstd::prelude::*;

verus! {

/// Whether a scan that leaves out the keys `ignore` leaves out an entry of
/// the name `name`: it does when the lower-case form of the name is a key.
pub open spec fn is_ignored(name: Seq<char>, ignore: Set<Seq<char>>) -> bool {
    ignore.contains(lowercase(name))
}

/// The node that stands for `entry` at depth `depth`, or the message of the
/// first failure met on the way: an entry whose metadata could not be read
/// fails, and a directory fails when the scan of its listing does.
pub open spec fn scan_entry(entry: DirEntry, depth: nat, ignore: Set<Seq<char>>) -> Result<
    FileNode,
    Seq<char>,
>
    decreases entry,
{
    match entry.status {
        EntryStatus::Unreadable(message) => Err(message@),
        EntryStatus::File { size, modified } => Ok(
            FileNode {
                name: entry.name@,
                path: entry.path@,
                file_type: FileType::File,
                extension: text_of(entry.extension),
                size,
                modified: modified.seconds(),
                children: Seq::empty(),
                depth,
            },
        ),
        EntryStatus::Directory { size, modified, listing } => match scan_listing(
            listing,
            depth + 1,
            ignore,
        ) {
            Ok(children) => Ok(
                FileNode {
                    name: entry.name@,
                    path: entry.path@,
                    file_type: FileType::Directory,
                    extension: text_of(entry.extension),
                    size,
                    modified: modified.seconds(),
                    children,
                    depth,
                },
            ),
            Err(message) => Err(message),
        },
    }
}

/// The nodes of the entries that are not left out, each with the lower-case
/// form of its name as its key, in the order of the entries; or the message
/// of the first failure met on the way.
pub open spec fn collect_entries(entries: Seq<DirEntry>, depth: nat, ignore: Set<Seq<char>>) -> Result<
    Seq<(Seq<char>, FileNode)>,
    Seq<char>,
>
    decreases entries,
{
    if entries.len() == 0 {
        Ok(Seq::empty())
    } else {
        match collect_entries(entries.drop_last(), depth, ignore) {
            Err(message) => Err(message),
            Ok(found) => {
                let entry = entries.last();
                if is_ignored(entry.name@, ignore) {
                    Ok(found)
                } else {
                    match scan_entry(entry, depth, ignore) {
                        Err(message) => Err(message),
                        Ok(node) => Ok(found.push((lowercase(entry.name@), node))),
                    }
                }
            },
        }
    }
}

/// What the scan of a listing yields: the nodes of its entries that are not
/// left out, in ascending order of their lower-case names, nodes of equal
/// lower-case names in the order of the listing. It fails with the message of
/// the first failure met: that of an entry, in the order of the listing, or
/// else the one that ended the listing.
pub open spec fn scan_listing(listing: DirListing, depth: nat, ignore: Set<Seq<char>>) -> Result<
    Seq<FileNode>,
    Seq<char>,
>
    decreases listing,
{
    match collect_entries(listing.entries@, depth, ignore) {
        Err(message) => Err(message),
        Ok(found) => match listing.failure {
            Some(message) => Err(message@),
            None => Ok(values(stable_sort(found))),
        },
    }
}

/// The mathematical value of what a scan returned.
pub open spec fn outcome_of(result: Result<Vec<FileInfo>, String>) -> Result<Seq<FileNode>, Seq<char>> {
    match result {
        Ok(items) => Ok(nodes_of(items@)),
        Err(message) => Err(message@),
    }
}

/// A failure among the first entries of a listing is the failure of the whole.
pub proof fn lemma_collect_failure_stays(
    entries: Seq<DirEntry>,
    upto: int,
    depth: nat,
    ignore: Set<Seq<char>>,
)
    requires
        0 <= upto <= entries.len(),
        collect_entries(entries.take(upto), depth, ignore) is Err,
    ensures
        collect_entries(entries, depth, ignore) == collect_entries(entries.take(upto), depth, ignore),
    decreases entries.len() - upto,
{
    if upto == entries.len() {
        assert(entries.take(upto) =~= entries);
    } else {
        assert(entries.take(upto + 1).drop_last() =~= entries.take(upto));
        lemma_collect_failure_stays(entries, upto + 1, depth, ignore);
    }
}

fn clone_text(text: &Option<String>) -> (copy: Option<String>)
    ensures
        text_of(copy) == text_of(*text),
{
    match text {
        Some(t) => Some(t.clone()),
        None => None,
    }
}

/// Scans a listing whose entries lie at depth `depth`, leaving out the
/// entries that `ignore` names: the nodes of the others, directories with
/// the scan of their own listing as children, in ascending order of their
/// lower-case names; or the message of the first failure met.
pub fn scan_dir(listing: &DirListing, depth: usize, ignore: &IgnoreSet) -> (result: Result<
    Vec<FileInfo>,
    String,
>)
    requires
        depth_fits(*listing, depth as nat),
    ensures
        outcome_of(result) == scan_listing(*listing, depth as nat, ignore@),
    decreases listing,
{
    let ghost entries = listing.entries@;
    let mut siblings = Siblings::new();
    let ghost mut found: Seq<(Seq<char>, FileNode)> = Seq::empty();
    let mut i: usize = 0;
    assert(entries.take(0) =~= Seq::empty());
    while i < listing.entries.len()
        invariant
            i <= listing.entries.len(),
            entries == listing.entries@,
            depth_fits(*listing, depth as nat),
            siblings.well_formed(),
            collect_entries(entries.take(i as int), depth as nat, ignore@) == Ok::<
                Seq<(Seq<char>, FileNode)>,
                Seq<char>,
            >(found),
            siblings@ == stable_sort(found),
        decreases listing.entries.len() - i,
    {
        let entry = &listing.entries[i];
        proof {
            assert(entries.take(i + 1).drop_last() =~= entries.take(i as int));
            assert(entries.take(i + 1).last() == *entry);
        }
        let key = to_lowercase(entry.name.as_str());
        if !ignore.contains_key(key.as_str()) {
            let mut children: Vec<FileInfo> = Vec::new();
            let file_type: FileType;
            let size: u64;
            let modified: u64;
            match &entry.status {
                EntryStatus::Unreadable(message) => {
                    proof {
                        lemma_collect_failure_stays(entries, i + 1, depth as nat, ignore@);
                    }
                    return Err(message.clone());
                },
                EntryStatus::File { size: bytes, modified: time } => {
                    file_type = FileType::File;
                    size = *bytes;
                    modified = time.as_secs();
                    assert(nodes_of(children@) =~= Seq::empty());
                },
                EntryStatus::Directory { size: bytes, modified: time, listing: inner } => {
                    file_type = FileType::Directory;
                    size = *bytes;
                    modified = time.as_secs();
                    assert(depth_fits(*inner, depth as nat + 1)) by {
                        assert(listing.entries[i as int].status is Directory);
                    }
                    match scan_dir(inner, depth + 1, ignore) {
                        Ok(nodes) => {
                            children = nodes;
                        },
                        Err(message) => {
                            proof {
                                lemma_collect_failure_stays(entries, i + 1, depth as nat, ignore@);
                            }
                            return Err(message);
                        },
                    }
                },
            }
            let info = FileInfo {
                name: entry.name.clone(),
                path: entry.path.clone(),
                file_type,
                extension: clone_text(&entry.extension),
                size,
                modified,
                children,
                depth,
            };
            proof {
                let ranked = (key@, info@);
                assert(scan_entry(*entry, depth as nat, ignore@) == Ok::<FileNode, Seq<char>>(info@));
                assert(found.push(ranked).drop_last() =~= found);
                found = found.push(ranked);
            }
            siblings.insert(key, info);
        }
        i += 1;
    }
    assert(entries.take(i as int) =~= entries);
    match &listing.failure {
        Some(message) => Err(message.clone()),
        None => Ok(siblings.into_items()),
    }
}

} // verus!
