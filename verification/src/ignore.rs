//! The names that a scan leaves out, compared without regard to case.

use crate::text::lowercase;
use crate::text::to_lowercase;
use vstd::hash_set::StringHashSet;
use vstd::prelude::*;

verus! {

/// The texts of a sequence of strings.
pub open spec fn texts(strings: Seq<String>) -> Seq<Seq<char>> {
    Seq::new(strings.len(), |i: int| strings[i]@)
}

/// The lower-case forms of a list of names, one for one.
pub open spec fn lowered(names: Seq<&str>) -> Seq<Seq<char>> {
    Seq::new(names.len(), |i: int| lowercase(names[i]@))
}

/// The lower-case forms of the names that a caller wants left out: none
/// where the caller gave no list.
pub open spec fn lowered_names(names: Option<Vec<&str>>) -> Set<Seq<char>> {
    match names {
        Some(list) => lowered(list@).to_set(),
        None => Set::empty(),
    }
}

/// A set of names to leave out, held as lower-case keys.
pub struct IgnoreSet {
    keys: StringHashSet,
}

impl View for IgnoreSet {
    type V = Set<Seq<char>>;

    /// The keys of the set.
    closed spec fn view(&self) -> Set<Seq<char>> {
        self.keys@
    }
}

impl IgnoreSet {
    /// The set whose keys are `keys` as they stand.
    pub fn from_keys(keys: Vec<String>) -> (set: IgnoreSet)
        ensures
            set@ == texts(keys@).to_set(),
    {
        let mut held = StringHashSet::new();
        let mut i: usize = 0;
        while i < keys.len()
            invariant
                i <= keys.len(),
                held@ == texts(keys@).take(i as int).to_set(),
            decreases keys.len() - i,
        {
            held.insert(keys[i].clone());
            proof {
                let before = texts(keys@).take(i as int);
                let after = texts(keys@).take(i + 1);
                assert(after =~= before.push(keys[i as int]@));
                lemma_push_to_set(before, keys[i as int]@);
            }
            i += 1;
        }
        assert(texts(keys@).take(i as int) =~= texts(keys@));
        IgnoreSet { keys: held }
    }

    /// The set that leaves out each of `names`, whatever its case.
    pub fn from_names(names: Option<Vec<&str>>) -> (set: IgnoreSet)
        ensures
            set@ == lowered_names(names),
    {
        let mut held = StringHashSet::new();
        match &names {
            Some(list) => {
                let mut i: usize = 0;
                while i < list.len()
                    invariant
                        i <= list.len(),
                        held@ == lowered(list@).take(i as int).to_set(),
                    decreases list.len() - i,
                {
                    held.insert(to_lowercase(list[i]));
                    proof {
                        let before = lowered(list@).take(i as int);
                        let after = lowered(list@).take(i + 1);
                        assert(after =~= before.push(lowercase(list[i as int]@)));
                        lemma_push_to_set(before, lowercase(list[i as int]@));
                    }
                    i += 1;
                }
                assert(lowered(list@).take(i as int) =~= lowered(list@));
            },
            None => {},
        }
        IgnoreSet { keys: held }
    }

    /// Whether `key` is one of the keys of the set.
    pub fn contains_key(&self, key: &str) -> (found: bool)
        ensures
            found == self@.contains(key@),
    {
        self.keys.contains(key)
    }

    /// Whether the set leaves out an entry of the name `name`.
    pub fn contains_name(&self, name: &str) -> (found: bool)
        ensures
            found == self@.contains(lowercase(name@)),
    {
        let key = to_lowercase(name);
        self.contains_key(key.as_str())
    }
}

/// The texts of a sequence with one more at its end are the texts of the
/// sequence and that one.
pub proof fn lemma_push_to_set(s: Seq<Seq<char>>, text: Seq<char>)
    ensures
        s.push(text).to_set() == s.to_set().insert(text),
{
    assert forall|t: Seq<char>| s.push(text).to_set().contains(t) <==> s.to_set().insert(
        text,
    ).contains(t) by {
        if s.push(text).contains(t) {
            let i = choose|i: int| 0 <= i < s.push(text).len() && s.push(text)[i] == t;
            if i < s.len() {
                assert(s[i] == t);
            }
        }
        if s.contains(t) {
            let i = choose|i: int| 0 <= i < s.len() && s[i] == t;
            assert(s.push(text)[i] == t);
        }
        if t == text {
            assert(s.push(text)[s.len() as int] == t);
        }
    }
    assert(s.push(text).to_set() =~= s.to_set().insert(text));
}

} // verus!
