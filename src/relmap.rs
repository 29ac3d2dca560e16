//! The relationships mapping of a resource: relationship names to their data.
use crate::wire::{RelationshipData, RelationshipView};
use vstd::prelude::*;

verus! {

/// A mapping from relationship names to relationship data.
///
/// Each name occurs at most once; entries are kept in insertion order. The
/// entries live in a `Vec` rather than a `BTreeMap<String, _>`: vstd states
/// what `BTreeMap` does only for keys whose order obeys its comparison
/// model, and gives `String` no such model, so lookups by name in a
/// `BTreeMap` could not be reasoned about. Where the mapping is written as
/// JSON, it is turned into a `BTreeMap`, which orders the names.
pub struct RelationshipMap {
    entries: Vec<(String, RelationshipData)>,
    model: Ghost<Map<Seq<char>, RelationshipView>>,
}

impl View for RelationshipMap {
    type V = Map<Seq<char>, RelationshipView>;

    closed spec fn view(&self) -> Map<Seq<char>, RelationshipView> {
        self.model@
    }
}

/// Each name occurs at most once among `entries`.
spec fn names_unique(entries: Seq<(String, RelationshipData)>) -> bool {
    forall|i: int, j: int| 0 <= i < j < entries.len() ==> entries[i].0@ != entries[j].0@
}

/// Every entry is recorded in `model`.
spec fn entries_in_model(
    entries: Seq<(String, RelationshipData)>,
    model: Map<Seq<char>, RelationshipView>,
) -> bool {
    forall|i: int|
        0 <= i < entries.len() ==> {
            &&& #[trigger] model.contains_key(entries[i].0@)
            &&& model[entries[i].0@] == entries[i].1@
        }
}

/// Every name of `model` has an entry.
spec fn model_in_entries(
    entries: Seq<(String, RelationshipData)>,
    model: Map<Seq<char>, RelationshipView>,
) -> bool {
    forall|k: Seq<char>| #[trigger]
        model.contains_key(k) ==> exists|i: int| 0 <= i < entries.len() && entries[i].0@ == k
}

/// `entries` and `model` describe the same mapping.
spec fn represents(
    entries: Seq<(String, RelationshipData)>,
    model: Map<Seq<char>, RelationshipView>,
) -> bool {
    &&& names_unique(entries)
    &&& entries_in_model(entries, model)
    &&& model_in_entries(entries, model)
    &&& model.dom().finite()
    &&& model.len() == entries.len()
}

impl RelationshipMap {
    #[verifier::type_invariant]
    closed spec fn wf(self) -> bool {
        represents(self.entries@, self.model@)
    }

    /// The empty mapping.
    pub fn new() -> (r: RelationshipMap)
        ensures
            r@ == Map::<Seq<char>, RelationshipView>::empty(),
    {
        RelationshipMap { entries: Vec::new(), model: Ghost(Map::empty()) }
    }

    /// The number of names in the mapping.
    pub fn len(&self) -> (r: usize)
        ensures
            r == self@.len(),
    {
        proof {
            use_type_invariant(self);
        }
        self.entries.len()
    }

    /// Whether the mapping holds no name.
    pub fn is_empty(&self) -> (r: bool)
        ensures
            r == (self@.len() == 0),
    {
        self.len() == 0
    }

    /// The position of `name` among the entries, if it is there.
    fn find(&self, name: &String) -> (r: Option<usize>)
        ensures
            match r {
                Some(i) => i < self.entries@.len() && self.entries@[i as int].0@ == name@,
                None => !self@.contains_key(name@),
            },
    {
        proof {
            use_type_invariant(self);
        }
        let mut i: usize = 0;
        while i < self.entries.len()
            invariant
                i <= self.entries@.len(),
                forall|j: int| 0 <= j < i ==> self.entries@[j].0@ != name@,
            decreases self.entries@.len() - i,
        {
            if self.entries[i].0 == *name {
                return Some(i);
            }
            i = i + 1;
        }
        None
    }

    /// Whether `name` is in the mapping.
    pub fn contains_key(&self, name: &str) -> (r: bool)
        ensures
            r == self@.contains_key(name@),
    {
        proof {
            use_type_invariant(self);
        }
        let key = name.to_owned();
        match self.find(&key) {
            Some(_) => true,
            None => false,
        }
    }

    /// The data stored under `name`, if any.
    pub fn get(&self, name: &str) -> (r: Option<&RelationshipData>)
        ensures
            match r {
                Some(d) => self@.contains_key(name@) && d@ == self@[name@],
                None => !self@.contains_key(name@),
            },
    {
        proof {
            use_type_invariant(self);
        }
        let key = name.to_owned();
        match self.find(&key) {
            Some(i) => Some(&self.entries[i].1),
            None => None,
        }
    }

    /// Stores `data` under `name`, and hands back what was stored there before.
    pub fn insert(&mut self, name: String, data: RelationshipData) -> (r: Option<RelationshipData>)
        ensures
            final(self)@ == old(self)@.insert(name@, data@),
            match r {
                Some(d) => old(self)@.contains_key(name@) && d@ == old(self)@[name@],
                None => !old(self)@.contains_key(name@),
            },
    {
        proof {
            use_type_invariant(&*self);
        }
        let found = self.find(&name);
        let ghost new_model = self.model@.insert(name@, data@);
        let mut taken = RelationshipMap::new();
        std::mem::swap(self, &mut taken);
        proof {
            use_type_invariant(&taken);
        }
        let RelationshipMap { mut entries, model } = taken;
        let ghost old_entries = entries@;
        match found {
            Some(i) => {
                let (_, old_data) = entries.remove(i);
                entries.insert(i, (name, data));
                proof {
                    assert(entries@ =~= old_entries.update(i as int, entries@[i as int]));
                    assert(new_model.dom() =~= model@.dom());
                    assert forall|k: Seq<char>| #[trigger] new_model.contains_key(k) implies exists|j: int|
                        0 <= j < entries@.len() && entries@[j].0@ == k by {
                        let j = choose|j: int| 0 <= j < old_entries.len() && old_entries[j].0@ == k;
                        assert(entries@[j].0@ == old_entries[j].0@);
                    }
                }
                *self = RelationshipMap { entries, model: Ghost(new_model) };
                Some(old_data)
            },
            None => {
                entries.push((name, data));
                proof {
                    assert forall|k: Seq<char>| #[trigger] new_model.contains_key(k) implies exists|i: int|
                        0 <= i < entries@.len() && entries@[i].0@ == k by {
                        if k != name@ {
                            let j = choose|j: int| 0 <= j < old_entries.len() && old_entries[j].0@ == k;
                            assert(entries@[j] == old_entries[j]);
                        } else {
                            assert(entries@[old_entries.len() as int].0@ == k);
                        }
                    }
                }
                *self = RelationshipMap { entries, model: Ghost(new_model) };
                None
            },
        }
    }

    /// Takes `name` out of the mapping, and hands back what was stored there.
    pub fn remove(&mut self, name: &str) -> (r: Option<RelationshipData>)
        ensures
            final(self)@ == old(self)@.remove(name@),
            match r {
                Some(d) => old(self)@.contains_key(name@) && d@ == old(self)@[name@],
                None => !old(self)@.contains_key(name@),
            },
    {
        proof {
            use_type_invariant(&*self);
        }
        let key = name.to_owned();
        let found = self.find(&key);
        match found {
            Some(i) => {
                let ghost new_model = self.model@.remove(name@);
                let mut taken = RelationshipMap::new();
                std::mem::swap(self, &mut taken);
                proof {
                    use_type_invariant(&taken);
                }
                let RelationshipMap { mut entries, model } = taken;
                let ghost old_entries = entries@;
                let (_, d) = entries.remove(i);
                proof {
                    assert forall|k: Seq<char>| #[trigger] new_model.contains_key(k) implies exists|j: int|
                        0 <= j < entries@.len() && entries@[j].0@ == k by {
                        let j = choose|j: int| 0 <= j < old_entries.len() && old_entries[j].0@ == k;
                        if j < i {
                            assert(entries@[j] == old_entries[j]);
                        } else {
                            assert(entries@[j - 1] == old_entries[j]);
                        }
                    }
                }
                *self = RelationshipMap { entries, model: Ghost(new_model) };
                Some(d)
            },
            None => {
                assert(old(self)@.remove(name@) =~= old(self)@);
                None
            },
        }
    }

    /// The entries of the mapping, one per name, in insertion order.
    pub fn into_entries(self) -> (r: Vec<(String, RelationshipData)>)
        ensures
            r@.len() == self@.len(),
            forall|i: int, j: int| 0 <= i < j < r@.len() ==> r@[i].0@ != r@[j].0@,
            forall|i: int|
                0 <= i < r@.len() ==> {
                    &&& #[trigger] self@.contains_key(r@[i].0@)
                    &&& self@[r@[i].0@] == r@[i].1@
                },
    {
        proof {
            use_type_invariant(&self);
        }
        self.entries
    }
}

impl Clone for RelationshipMap {
    fn clone(&self) -> (r: RelationshipMap)
        ensures
            r@ == self@,
    {
        proof {
            use_type_invariant(self);
        }
        let mut entries: Vec<(String, RelationshipData)> = Vec::new();
        let mut i: usize = 0;
        while i < self.entries.len()
            invariant
                i <= self.entries@.len(),
                entries@.len() == i,
                forall|j: int| #![auto]
                    0 <= j < i ==> entries@[j].0@ == self.entries@[j].0@ && entries@[j].1@
                        == self.entries@[j].1@,
            decreases self.entries@.len() - i,
        {
            let e = (self.entries[i].0.clone(), self.entries[i].1.clone());
            entries.push(e);
            i = i + 1;
        }
        assert forall|k: Seq<char>| #[trigger] self.model@.contains_key(k) implies exists|j: int|
            0 <= j < entries@.len() && entries@[j].0@ == k by {
            let j = choose|j: int| 0 <= j < self.entries@.len() && self.entries@[j].0@ == k;
            assert(entries@[j].0@ == self.entries@[j].0@);
        }
        RelationshipMap { entries, model: Ghost(self.model@) }
    }
}

} // verus!
