//! What holds of every tree that a scan yields.

use crate::files::scan_path;
use crate::files::scanned;
use crate::files::FileInfo;
use crate::files::ScanError;
use crate::files::ScanFailure;
use crate::files::FileNode;
use crate::files::FileType;
use crate::order::distinct_keys;
use crate::order::lemma_stable_sort_holds;
use crate::order::lemma_stable_sort_ignores_arrival;
use crate::order::lemma_stable_sort_permutes;
use crate::order::lemma_stable_sort_same_entries;
use crate::order::lemma_stable_sort_sorted;
use crate::order::lemma_stable_sort_stable;
use crate::order::same_entries;
use crate::order::stable_sort;
use crate::order::values;
use crate::order::with_key;
use crate::scan::collect_entries;
use crate::scan::is_ignored;
use crate::scan::scan_entry;
use crate::scan::scan_listing;
use crate::snapshot::DirEntry;
use crate::snapshot::DirListing;
use crate::snapshot::EntryStatus;
use crate::snapshot::PathState;
use crate::text::lowercase;
use crate::text::text_le;
use vstd::prelude::*;

verus! {

/// No node of the trees, at any depth, has a name that `ignore` leaves out.
pub open spec fn none_ignored(nodes: Seq<FileNode>, ignore: Set<Seq<char>>) -> bool
    decreases nodes,
{
    forall|i: int|
        #![trigger nodes[i]]
        0 <= i < nodes.len() ==> !is_ignored(nodes[i].name, ignore) && none_ignored(
            nodes[i].children,
            ignore,
        )
}

/// The lower-case names of the nodes never descend.
pub open spec fn sorted_by_name(nodes: Seq<FileNode>) -> bool {
    forall|i: int, j: int|
        #![trigger nodes[i], nodes[j]]
        0 <= i <= j < nodes.len() ==> text_le(lowercase(nodes[i].name), lowercase(nodes[j].name))
}

/// At every depth of the trees the nodes of one directory stand in
/// ascending order of their lower-case names.
pub open spec fn sorted_throughout(nodes: Seq<FileNode>) -> bool
    decreases nodes,
{
    &&& sorted_by_name(nodes)
    &&& forall|i: int|
        #![trigger nodes[i]]
        0 <= i < nodes.len() ==> sorted_throughout(nodes[i].children)
}

/// The trees have the shape of a directory tree whose roots lie at depth
/// `depth`: every node holds its own depth, the children of a node lie one
/// deeper, and only a directory has children.
pub open spec fn shaped(nodes: Seq<FileNode>, depth: nat) -> bool
    decreases nodes,
{
    forall|i: int|
        #![trigger nodes[i]]
        0 <= i < nodes.len() ==> {
            &&& nodes[i].depth == depth
            &&& nodes[i].file_type == FileType::File ==> nodes[i].children.len() == 0
            &&& shaped(nodes[i].children, depth + 1)
        }
}

/// The nodes whose lower-case name is `key`, in the order in which `nodes` holds them.
pub open spec fn named(nodes: Seq<FileNode>, key: Seq<char>) -> Seq<FileNode>
    decreases nodes.len(),
{
    if nodes.len() == 0 {
        Seq::empty()
    } else if lowercase(nodes.last().name) == key {
        named(nodes.drop_last(), key).push(nodes.last())
    } else {
        named(nodes.drop_last(), key)
    }
}

/// What a scan establishes of a node at depth `depth`.
spec fn node_sound(node: FileNode, depth: nat, ignore: Set<Seq<char>>) -> bool
    decreases node,
{
    &&& !is_ignored(node.name, ignore)
    &&& node.depth == depth
    &&& node.file_type == FileType::File ==> node.children.len() == 0
    &&& sound(node.children, depth + 1, ignore)
}

/// What a scan establishes of the nodes of one directory at depth `depth`.
spec fn sound(nodes: Seq<FileNode>, depth: nat, ignore: Set<Seq<char>>) -> bool
    decreases nodes,
{
    &&& sorted_by_name(nodes)
    &&& forall|i: int| #![trigger nodes[i]] 0 <= i < nodes.len() ==> node_sound(nodes[i], depth, ignore)
}

/// A found entry carries the lower-case form of its node's name as its key.
spec fn ranked_sound(ranked: (Seq<char>, FileNode), depth: nat, ignore: Set<Seq<char>>) -> bool {
    &&& ranked.0 == lowercase(ranked.1.name)
    &&& node_sound(ranked.1, depth, ignore)
}

proof fn lemma_entry_sound(entry: DirEntry, depth: nat, ignore: Set<Seq<char>>)
    requires
        scan_entry(entry, depth, ignore) is Ok,
        !is_ignored(entry.name@, ignore),
    ensures
        scan_entry(entry, depth, ignore)->Ok_0.name == entry.name@,
        node_sound(scan_entry(entry, depth, ignore)->Ok_0, depth, ignore),
    decreases entry,
{
    match entry.status {
        EntryStatus::Directory { size, modified, listing } => {
            lemma_listing_sound(listing, depth + 1, ignore);
        },
        _ => {},
    }
}

proof fn lemma_collect_sound(entries: Seq<DirEntry>, depth: nat, ignore: Set<Seq<char>>)
    requires
        collect_entries(entries, depth, ignore) is Ok,
    ensures
        forall|k: int|
            0 <= k < collect_entries(entries, depth, ignore)->Ok_0.len() ==> ranked_sound(
                #[trigger] collect_entries(entries, depth, ignore)->Ok_0[k],
                depth,
                ignore,
            ),
    decreases entries,
{
    if entries.len() > 0 {
        lemma_collect_sound(entries.drop_last(), depth, ignore);
        let entry = entries.last();
        if !is_ignored(entry.name@, ignore) {
            lemma_entry_sound(entry, depth, ignore);
        }
    }
}

proof fn lemma_listing_sound(listing: DirListing, depth: nat, ignore: Set<Seq<char>>)
    requires
        scan_listing(listing, depth, ignore) is Ok,
    ensures
        sound(scan_listing(listing, depth, ignore)->Ok_0, depth, ignore),
    decreases listing,
{
    let found = collect_entries(listing.entries@, depth, ignore)->Ok_0;
    let sorted = stable_sort(found);
    let nodes = values(sorted);
    lemma_collect_sound(listing.entries@, depth, ignore);
    lemma_stable_sort_sorted(found);
    lemma_stable_sort_permutes(found);
    assert forall|i: int| 0 <= i < sorted.len() implies ranked_sound(#[trigger] sorted[i], depth, ignore) by {
        lemma_stable_sort_holds(found, i);
    }
    assert forall|i: int, j: int| 0 <= i <= j < nodes.len() implies text_le(
        lowercase(nodes[i].name),
        lowercase(nodes[j].name),
    ) by {
        assert(ranked_sound(sorted[i], depth, ignore));
        assert(ranked_sound(sorted[j], depth, ignore));
        assert(text_le(sorted[i].0, sorted[j].0));
    }
    assert forall|i: int| 0 <= i < nodes.len() implies node_sound(#[trigger] nodes[i], depth, ignore) by {
        assert(ranked_sound(sorted[i], depth, ignore));
    }
}

proof fn lemma_sound_none_ignored(nodes: Seq<FileNode>, depth: nat, ignore: Set<Seq<char>>)
    requires
        sound(nodes, depth, ignore),
    ensures
        none_ignored(nodes, ignore),
    decreases nodes,
{
    assert forall|i: int| #![trigger nodes[i]] 0 <= i < nodes.len() implies !is_ignored(
        nodes[i].name,
        ignore,
    ) && none_ignored(nodes[i].children, ignore) by {
        assert(node_sound(nodes[i], depth, ignore));
        lemma_sound_none_ignored(nodes[i].children, depth + 1, ignore);
    }
}

proof fn lemma_sound_sorted(nodes: Seq<FileNode>, depth: nat, ignore: Set<Seq<char>>)
    requires
        sound(nodes, depth, ignore),
    ensures
        sorted_throughout(nodes),
    decreases nodes,
{
    assert forall|i: int| #![trigger nodes[i]] 0 <= i < nodes.len() implies sorted_throughout(
        nodes[i].children,
    ) by {
        assert(node_sound(nodes[i], depth, ignore));
        lemma_sound_sorted(nodes[i].children, depth + 1, ignore);
    }
}

proof fn lemma_sound_shaped(nodes: Seq<FileNode>, depth: nat, ignore: Set<Seq<char>>)
    requires
        sound(nodes, depth, ignore),
    ensures
        shaped(nodes, depth),
    decreases nodes,
{
    assert forall|i: int| #![trigger nodes[i]] 0 <= i < nodes.len() implies {
        &&& nodes[i].depth == depth
        &&& nodes[i].file_type == FileType::File ==> nodes[i].children.len() == 0
        &&& shaped(nodes[i].children, depth + 1)
    } by {
        assert(node_sound(nodes[i], depth, ignore));
        lemma_sound_shaped(nodes[i].children, depth + 1, ignore);
    }
}

/// An entry whose lower-case name is left out never shows in the tree of a
/// scan, and nothing below it does: every node of the tree, at every depth,
/// has a name that is not left out.
pub proof fn lemma_scan_leaves_out_ignored(listing: DirListing, depth: nat, ignore: Set<Seq<char>>)
    requires
        scan_listing(listing, depth, ignore) is Ok,
    ensures
        none_ignored(scan_listing(listing, depth, ignore)->Ok_0, ignore),
{
    lemma_listing_sound(listing, depth, ignore);
    lemma_sound_none_ignored(scan_listing(listing, depth, ignore)->Ok_0, depth, ignore);
}

/// In the tree of a scan the nodes of every directory stand in ascending
/// order of their lower-case names.
pub proof fn lemma_scan_sorts_siblings(listing: DirListing, depth: nat, ignore: Set<Seq<char>>)
    requires
        scan_listing(listing, depth, ignore) is Ok,
    ensures
        sorted_throughout(scan_listing(listing, depth, ignore)->Ok_0),
{
    lemma_listing_sound(listing, depth, ignore);
    lemma_sound_sorted(scan_listing(listing, depth, ignore)->Ok_0, depth, ignore);
}

/// The tree of a scan has the shape of a directory tree: the nodes of the
/// scanned listing lie at the depth the scan was given, the children of a
/// node one deeper, and only directories have children.
pub proof fn lemma_scan_shapes_tree(listing: DirListing, depth: nat, ignore: Set<Seq<char>>)
    requires
        scan_listing(listing, depth, ignore) is Ok,
    ensures
        shaped(scan_listing(listing, depth, ignore)->Ok_0, depth),
{
    lemma_listing_sound(listing, depth, ignore);
    lemma_sound_shaped(scan_listing(listing, depth, ignore)->Ok_0, depth, ignore);
}

proof fn lemma_named_values(s: Seq<(Seq<char>, FileNode)>, key: Seq<char>)
    requires
        forall|k: int| 0 <= k < s.len() ==> (#[trigger] s[k]).0 == lowercase(s[k].1.name),
    ensures
        named(values(s), key) == values(with_key(s, key)),
    decreases s.len(),
{
    if s.len() == 0 {
        assert(values(with_key(s, key)) =~= Seq::empty());
    } else {
        let front = s.drop_last();
        lemma_named_values(front, key);
        assert(values(s).drop_last() =~= values(front));
        assert(values(s).last() == s.last().1);
        assert(s.last().0 == lowercase(s.last().1.name));
        if s.last().0 == key {
            assert(values(with_key(front, key).push(s.last())) =~= values(with_key(front, key)).push(
                s.last().1,
            ));
        }
    }
}

/// Nodes whose names differ by case alone keep the order of the listing:
/// the nodes of one lower-case name stand in the result as the entries that
/// are not left out stand in the listing.
pub proof fn lemma_scan_keeps_order_of_equal_names(
    listing: DirListing,
    depth: nat,
    ignore: Set<Seq<char>>,
    key: Seq<char>,
)
    requires
        scan_listing(listing, depth, ignore) is Ok,
    ensures
        named(scan_listing(listing, depth, ignore)->Ok_0, key) == named(
            values(collect_entries(listing.entries@, depth, ignore)->Ok_0),
            key,
        ),
        scan_listing(listing, depth, ignore)->Ok_0.len() == collect_entries(
            listing.entries@,
            depth,
            ignore,
        )->Ok_0.len(),
{
    let found = collect_entries(listing.entries@, depth, ignore)->Ok_0;
    let sorted = stable_sort(found);
    lemma_collect_sound(listing.entries@, depth, ignore);
    lemma_stable_sort_permutes(found);
    assert forall|i: int| 0 <= i < sorted.len() implies (#[trigger] sorted[i]).0 == lowercase(
        sorted[i].1.name,
    ) by {
        lemma_stable_sort_holds(found, i);
        let k = choose|k: int| 0 <= k < found.len() && found[k] == sorted[i];
        assert(ranked_sound(found[k], depth, ignore));
    }
    assert forall|i: int| 0 <= i < found.len() implies (#[trigger] found[i]).0 == lowercase(
        found[i].1.name,
    ) by {
        assert(ranked_sound(found[i], depth, ignore));
    }
    lemma_named_values(sorted, key);
    lemma_named_values(found, key);
    lemma_stable_sort_stable(found, key);
}

/// The node is what a scan makes of the entry, and the scan does not leave
/// the entry out.
pub open spec fn is_node_of(node: FileNode, entry: DirEntry, depth: nat, ignore: Set<Seq<char>>) -> bool {
    &&& !is_ignored(entry.name@, ignore)
    &&& scan_entry(entry, depth, ignore) == Ok::<FileNode, Seq<char>>(node)
}

/// The node is the node of one of the entries, one that is not left out.
pub open spec fn is_node_of_one(
    node: FileNode,
    entries: Seq<DirEntry>,
    depth: nat,
    ignore: Set<Seq<char>>,
) -> bool {
    exists|k: int| 0 <= k < entries.len() && #[trigger] is_node_of(node, entries[k], depth, ignore)
}

/// The entry has its node among the nodes.
pub open spec fn has_node_among(
    entry: DirEntry,
    nodes: Seq<FileNode>,
    depth: nat,
    ignore: Set<Seq<char>>,
) -> bool {
    exists|i: int| 0 <= i < nodes.len() && #[trigger] is_node_of(nodes[i], entry, depth, ignore)
}

proof fn lemma_collect_yields_entries_kept(entries: Seq<DirEntry>, depth: nat, ignore: Set<Seq<char>>)
    requires
        collect_entries(entries, depth, ignore) is Ok,
    ensures
        forall|j: int|
            #![trigger values(collect_entries(entries, depth, ignore)->Ok_0)[j]]
            0 <= j < collect_entries(entries, depth, ignore)->Ok_0.len() ==> is_node_of_one(
                values(collect_entries(entries, depth, ignore)->Ok_0)[j],
                entries,
                depth,
                ignore,
            ),
        forall|k: int|
            #![trigger entries[k]]
            0 <= k < entries.len() && !is_ignored(entries[k].name@, ignore) ==> has_node_among(
                entries[k],
                values(collect_entries(entries, depth, ignore)->Ok_0),
                depth,
                ignore,
            ),
    decreases entries.len(),
{
    let found = values(collect_entries(entries, depth, ignore)->Ok_0);
    if entries.len() > 0 {
        let front = entries.drop_last();
        let before = values(collect_entries(front, depth, ignore)->Ok_0);
        lemma_collect_yields_entries_kept(front, depth, ignore);
        assert forall|j: int| #![trigger found[j]] 0 <= j < found.len() implies is_node_of_one(
            found[j],
            entries,
            depth,
            ignore,
        ) by {
            if j < before.len() {
                assert(found[j] == before[j]);
                assert(is_node_of_one(before[j], front, depth, ignore));
                let k = choose|k: int|
                    0 <= k < front.len() && #[trigger] is_node_of(before[j], front[k], depth, ignore);
                assert(is_node_of(found[j], entries[k], depth, ignore));
            } else {
                assert(is_node_of(found[j], entries[entries.len() - 1], depth, ignore));
            }
        }
        assert forall|k: int|
            #![trigger entries[k]]
            0 <= k < entries.len() && !is_ignored(entries[k].name@, ignore) implies has_node_among(
            entries[k],
            found,
            depth,
            ignore,
        ) by {
            if k < front.len() {
                assert(front[k] == entries[k]);
                assert(has_node_among(front[k], before, depth, ignore));
                let j = choose|j: int|
                    0 <= j < before.len() && #[trigger] is_node_of(before[j], front[k], depth, ignore);
                assert(found[j] == before[j]);
                assert(is_node_of(found[j], entries[k], depth, ignore));
            } else {
                assert(is_node_of(found[found.len() - 1], entries[k], depth, ignore));
            }
        }
    }
}

/// The nodes that the scan of a listing yields are the nodes of the entries
/// that are not left out, and no others: every node is what the scan makes
/// of such an entry, and every such entry has its node. An entry that is left
/// out has no node, and so nothing below it has one.
pub proof fn lemma_scan_yields_entries_kept(listing: DirListing, depth: nat, ignore: Set<Seq<char>>)
    requires
        scan_listing(listing, depth, ignore) is Ok,
    ensures
        forall|i: int|
            #![trigger scan_listing(listing, depth, ignore)->Ok_0[i]]
            0 <= i < scan_listing(listing, depth, ignore)->Ok_0.len() ==> is_node_of_one(
                scan_listing(listing, depth, ignore)->Ok_0[i],
                listing.entries@,
                depth,
                ignore,
            ),
        forall|k: int|
            #![trigger listing.entries@[k]]
            0 <= k < listing.entries@.len() && !is_ignored(listing.entries@[k].name@, ignore)
                ==> has_node_among(
                listing.entries@[k],
                scan_listing(listing, depth, ignore)->Ok_0,
                depth,
                ignore,
            ),
{
    let entries = listing.entries@;
    let ranked = collect_entries(entries, depth, ignore)->Ok_0;
    let found = values(ranked);
    let sorted = stable_sort(ranked);
    let nodes = scan_listing(listing, depth, ignore)->Ok_0;
    lemma_collect_yields_entries_kept(entries, depth, ignore);
    lemma_stable_sort_permutes(ranked);
    lemma_stable_sort_same_entries(ranked);
    assert forall|i: int| #![trigger nodes[i]] 0 <= i < nodes.len() implies is_node_of_one(
        nodes[i],
        entries,
        depth,
        ignore,
    ) by {
        lemma_stable_sort_holds(ranked, i);
        let j = choose|j: int| 0 <= j < ranked.len() && ranked[j] == sorted[i];
        assert(found[j] == nodes[i]);
    }
    assert forall|k: int|
        #![trigger entries[k]]
        0 <= k < entries.len() && !is_ignored(entries[k].name@, ignore) implies has_node_among(
        entries[k],
        nodes,
        depth,
        ignore,
    ) by {
        assert(has_node_among(entries[k], found, depth, ignore));
        let j = choose|j: int|
            0 <= j < found.len() && #[trigger] is_node_of(found[j], entries[k], depth, ignore);
        assert(ranked.contains(ranked[j]));
        assert(sorted.contains(ranked[j]));
        let i = choose|i: int| 0 <= i < sorted.len() && sorted[i] == ranked[j];
        assert(is_node_of(nodes[i], entries[k], depth, ignore));
    }
}

/// An entry passes when the scan leaves it out or makes a node of it.
pub open spec fn passes(entry: DirEntry, depth: nat, ignore: Set<Seq<char>>) -> bool {
    is_ignored(entry.name@, ignore) || scan_entry(entry, depth, ignore) is Ok
}

proof fn lemma_collect_needs_every_entry(entries: Seq<DirEntry>, depth: nat, ignore: Set<Seq<char>>)
    ensures
        collect_entries(entries, depth, ignore) is Ok <==> forall|k: int|
            0 <= k < entries.len() ==> passes(#[trigger] entries[k], depth, ignore),
    decreases entries.len(),
{
    if entries.len() > 0 {
        let front = entries.drop_last();
        lemma_collect_needs_every_entry(front, depth, ignore);
        if collect_entries(entries, depth, ignore) is Ok {
            assert forall|k: int| 0 <= k < entries.len() implies passes(
                #[trigger] entries[k],
                depth,
                ignore,
            ) by {
                if k < front.len() {
                    assert(passes(front[k], depth, ignore));
                }
            }
        }
        if forall|k: int| 0 <= k < entries.len() ==> passes(#[trigger] entries[k], depth, ignore) {
            assert forall|k: int| 0 <= k < front.len() implies passes(
                #[trigger] front[k],
                depth,
                ignore,
            ) by {
                assert(passes(entries[k], depth, ignore));
            }
            assert(passes(entries[entries.len() - 1], depth, ignore));
        }
    }
}

/// A scan gives a tree when nothing fails, and only then: the listing must
/// not have ended in a failure, and the scan must make a node of every
/// entry that it does not leave out. A failure below an entry that is left
/// out does no harm.
pub proof fn lemma_scan_succeeds_unless_something_fails(
    listing: DirListing,
    depth: nat,
    ignore: Set<Seq<char>>,
)
    ensures
        scan_listing(listing, depth, ignore) is Ok <==> listing.failure is None && forall|k: int|
            0 <= k < listing.entries@.len() ==> passes(#[trigger] listing.entries@[k], depth, ignore),
{
    lemma_collect_needs_every_entry(listing.entries@, depth, ignore);
}

/// Where no two entries of a directory have names that differ by case
/// alone, the order in which the listing came does not matter: two listings
/// in which a scan finds the same nodes give the same nodes in the same order.
pub proof fn lemma_scan_ignores_order_of_listing(
    first: DirListing,
    second: DirListing,
    depth: nat,
    ignore: Set<Seq<char>>,
)
    requires
        scan_listing(first, depth, ignore) is Ok,
        scan_listing(second, depth, ignore) is Ok,
        distinct_keys(collect_entries(first.entries@, depth, ignore)->Ok_0),
        distinct_keys(collect_entries(second.entries@, depth, ignore)->Ok_0),
        same_entries(
            collect_entries(first.entries@, depth, ignore)->Ok_0,
            collect_entries(second.entries@, depth, ignore)->Ok_0,
        ),
    ensures
        scan_listing(first, depth, ignore) == scan_listing(second, depth, ignore),
{
    lemma_stable_sort_ignores_arrival(
        collect_entries(first.entries@, depth, ignore)->Ok_0,
        collect_entries(second.entries@, depth, ignore)->Ok_0,
    );
}

/// What holds of the tree that the scan of a path yields: no node has a
/// name that is left out, the nodes of every directory stand in ascending
/// order of their lower-case names, and the tree has the shape of a
/// directory tree with its roots at depth 0.
pub proof fn lemma_scan_path_tree(path: Seq<char>, found: PathState, ignore: Set<Seq<char>>)
    requires
        scan_path(path, found, ignore) is Ok,
    ensures
        none_ignored(scan_path(path, found, ignore)->Ok_0, ignore),
        sorted_throughout(scan_path(path, found, ignore)->Ok_0),
        shaped(scan_path(path, found, ignore)->Ok_0, 0),
{
    let listing = found->Directory_0;
    lemma_scan_leaves_out_ignored(listing, 0, ignore);
    lemma_scan_sorts_siblings(listing, 0, ignore);
    lemma_scan_shapes_tree(listing, 0, ignore);
}

/// A scan gives a tree only of a directory: where nothing lies at the path
/// the scan fails with `NotFound`, and where something else than a directory
/// lies there, with `NotADirectory`.
pub proof fn lemma_scan_path_needs_directory(path: Seq<char>, found: PathState, ignore: Set<Seq<char>>)
    ensures
        found is Missing ==> scan_path(path, found, ignore) == Err::<Seq<FileNode>, ScanFailure>(
            ScanFailure::NotFound(path),
        ),
        found is NotADirectory ==> scan_path(path, found, ignore) == Err::<
            Seq<FileNode>,
            ScanFailure,
        >(ScanFailure::NotADirectory(path)),
        scan_path(path, found, ignore) is Ok ==> found is Directory,
{
}

/// Two scans of one path that found the same and leave out the same give
/// the same: the outcome of a scan is a function of what was found.
pub proof fn lemma_rescan_gives_same(
    first: Result<Vec<FileInfo>, ScanError>,
    second: Result<Vec<FileInfo>, ScanError>,
    path: Seq<char>,
    found: PathState,
    ignore: Set<Seq<char>>,
)
    requires
        scanned(first) == scan_path(path, found, ignore),
        scanned(second) == scan_path(path, found, ignore),
    ensures
        scanned(first) == scanned(second),
{
}

} // verus!
