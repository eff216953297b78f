//! The nodes of one directory, kept in the order of their keys.

use crate::files::nodes_of;
use crate::files::FileInfo;
use crate::files::FileNode;
use crate::order::lemma_stable_insert_at;
use crate::order::stable_insert;
use crate::order::values;
use crate::text::str_le;
use crate::text::text_le;
use vstd::prelude::*;

verus! {

/// The nodes of one directory, each with the key that ranks it. A node is
/// put in with [`Siblings::insert`], behind the nodes whose keys come no
/// later than its own.
#[derive(Debug)]
pub struct Siblings {
    keys: Vec<String>,
    items: Vec<FileInfo>,
}

impl View for Siblings {
    type V = Seq<(Seq<char>, FileNode)>;

    /// The keys and the nodes, pair by pair, in the order in which they are held.
    closed spec fn view(&self) -> Seq<(Seq<char>, FileNode)> {
        Seq::new(self.items.len() as nat, |i: int| (self.keys[i]@, self.items[i]@))
    }
}

impl Siblings {
    /// Every node has its key.
    pub closed spec fn well_formed(&self) -> bool {
        self.keys.len() == self.items.len()
    }

    /// No nodes yet.
    pub fn new() -> (siblings: Siblings)
        ensures
            siblings.well_formed(),
            siblings@ == Seq::<(Seq<char>, FileNode)>::empty(),
    {
        let siblings = Siblings { keys: Vec::new(), items: Vec::new() };
        assert(siblings@ =~= Seq::<(Seq<char>, FileNode)>::empty());
        siblings
    }

    /// Puts `item` in under `key`: behind the last node whose key comes no
    /// later than `key`, so behind every node of the same key.
    pub fn insert(&mut self, key: String, item: FileInfo)
        requires
            old(self).well_formed(),
        ensures
            final(self).well_formed(),
            final(self)@ == stable_insert(old(self)@, (key@, item@)),
    {
        let ghost entry = (key@, item@);
        let mut at: usize = self.keys.len();
        loop
            invariant
                *self == *old(self),
                self.well_formed(),
                at <= self.keys.len(),
                forall|j: int| at <= j < self.keys.len() ==> !text_le(#[trigger] self@[j].0, key@),
            ensures
                at > 0 ==> text_le(self@[at - 1].0, key@),
            decreases at,
        {
            if at == 0 {
                break ;
            }
            if str_le(self.keys[at - 1].as_str(), key.as_str()) {
                break ;
            }
            at -= 1;
        }
        proof {
            lemma_stable_insert_at(self@, entry, at as int);
        }
        self.keys.insert(at, key);
        self.items.insert(at, item);
        assert(self@ =~= old(self)@.insert(at as int, entry));
    }

    /// The nodes in the order in which they are held, without their keys.
    pub fn into_items(self) -> (items: Vec<FileInfo>)
        requires
            self.well_formed(),
        ensures
            nodes_of(items@) == values(self@),
    {
        assert(nodes_of(self.items@) =~= values(self@));
        self.items
    }
}

} // verus!
