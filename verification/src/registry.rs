//! The profile registry: each known profile name with its current key pair.
//!
//! The registry keeps its profiles in the order in which they were first
//! inserted, and no name occurs twice.

use crate::aws_config::AWSConfig;
use vstd::prelude::*;

verus! {

/// One registry entry as plain text: the name, then identifier and secret.
pub type EntryModel = (Seq<char>, (Seq<char>, Seq<char>));

/// The index of the first entry at or after `from` named `name`, or the
/// number of entries where there is none.
pub open spec fn entry_index_from(entries: Seq<EntryModel>, name: Seq<char>, from: int) -> int
    decreases entries.len() - from,
{
    if from < 0 || from >= entries.len() {
        entries.len() as int
    } else if entries[from].0 == name {
        from
    } else {
        entry_index_from(entries, name, from + 1)
    }
}

/// The index of the first entry named `name`, or the number of entries.
pub open spec fn entry_index(entries: Seq<EntryModel>, name: Seq<char>) -> int {
    entry_index_from(entries, name, 0)
}

/// No name occurs twice.
pub open spec fn names_distinct(entries: Seq<EntryModel>) -> bool {
    forall|i: int, j: int| 0 <= i < j < entries.len() ==> entries[i].0 != entries[j].0
}

/// The entries as a mapping from name to key pair.
pub open spec fn entries_map(entries: Seq<EntryModel>) -> Map<Seq<char>, (Seq<char>, Seq<char>)> {
    Map::new(
        |name: Seq<char>| entry_index(entries, name) < entries.len(),
        |name: Seq<char>| entries[entry_index(entries, name)].1,
    )
}

/// The entries after `name` is bound to `credential`: replaced in place
/// where the name is present, appended where it is not.
pub open spec fn entries_put(entries: Seq<EntryModel>, name: Seq<char>, credential: (Seq<char>, Seq<char>)) -> Seq<EntryModel> {
    let i = entry_index(entries, name);
    if i < entries.len() {
        entries.update(i, (name, credential))
    } else {
        entries.push((name, credential))
    }
}

/// What [`entry_index_from`] finds: an entry of that name with none before
/// it, or the end with no entry of that name at or after `from`.
pub proof fn lemma_entry_index_from(entries: Seq<EntryModel>, name: Seq<char>, from: int)
    requires
        0 <= from <= entries.len(),
    ensures
        from <= entry_index_from(entries, name, from) <= entries.len(),
        entry_index_from(entries, name, from) < entries.len() ==> entries[entry_index_from(
            entries,
            name,
            from,
        )].0 == name,
        forall|k: int| from <= k < entry_index_from(entries, name, from) ==> entries[k].0 != name,
    decreases entries.len() - from,
{
    if from < entries.len() && entries[from].0 != name {
        lemma_entry_index_from(entries, name, from + 1);
    }
}

/// Binding a name changes the mapping at that name and nowhere else, and
/// keeps distinct names distinct.
pub proof fn lemma_entries_put(entries: Seq<EntryModel>, name: Seq<char>, credential: (Seq<char>, Seq<char>))
    ensures
        names_distinct(entries) ==> names_distinct(entries_put(entries, name, credential)),
        entries_map(entries_put(entries, name, credential)) == entries_map(entries).insert(
            name,
            credential,
        ),
{
    let after = entries_put(entries, name, credential);
    let i = entry_index(entries, name);
    lemma_entry_index_from(entries, name, 0);
    let target = entries_map(entries).insert(name, credential);
    assert forall|n: Seq<char>|
        entries_map(after).dom().contains(n) == #[trigger] target.dom().contains(n) && (
        target.dom().contains(n) ==> entries_map(after)[n] == target[n]) by {
        lemma_entry_index_from(entries, n, 0);
        lemma_entry_index_from(after, n, 0);
        let a = entry_index(after, n);
        let b = entry_index(entries, n);
        if n == name {
            if i < entries.len() {
                assert(after[i].0 == name);
            } else {
                assert(after[entries.len() as int].0 == name);
            }
            if a != i && a < entries.len() {
                assert(entries[a].0 == name);
            }
        } else {
            if b < entries.len() {
                assert(after[b].0 == n);
                if a < b {
                    assert(entries[a].0 == n);
                }
            } else if a < entries.len() {
                assert(entries[a].0 == n);
            }
        }
    }
    assert(entries_map(after).dom() =~= target.dom());
    assert(entries_map(after) =~= entries_map(entries).insert(name, credential));
}

/// A profile: a name bound to its current key pair.
#[derive(Debug)]
pub struct Profile {
    pub name: String,
    pub config: AWSConfig,
}

impl View for Profile {
    type V = EntryModel;

    open spec fn view(&self) -> EntryModel {
        (self.name@, self.config@)
    }
}

impl Clone for Profile {
    fn clone(&self) -> (c: Self)
        ensures
            c == *self,
    {
        Profile { name: self.name.clone(), config: self.config.clone() }
    }
}

/// The registry of profiles.
#[derive(Debug)]
pub struct ProfileRegistry {
    profiles: Vec<Profile>,
}

impl View for ProfileRegistry {
    type V = Map<Seq<char>, (Seq<char>, Seq<char>)>;

    /// The registry as a mapping from profile name to key pair.
    open spec fn view(&self) -> Map<Seq<char>, (Seq<char>, Seq<char>)> {
        entries_map(self.entries())
    }
}

impl ProfileRegistry {
    /// The profiles in registry order.
    pub closed spec fn entries(&self) -> Seq<EntryModel> {
        Seq::new(self.profiles@.len(), |i: int| self.profiles@[i]@)
    }

    /// The registry's invariant: no name occurs twice.
    pub open spec fn wf(&self) -> bool {
        names_distinct(self.entries())
    }

    /// The empty registry.
    pub fn new() -> (r: Self)
        ensures
            r.entries() == Seq::<EntryModel>::empty(),
            r@ == Map::<Seq<char>, (Seq<char>, Seq<char>)>::empty(),
            r.wf(),
    {
        let r = ProfileRegistry { profiles: Vec::new() };
        assert(r.entries() =~= Seq::<EntryModel>::empty());
        assert(r@ =~= Map::<Seq<char>, (Seq<char>, Seq<char>)>::empty());
        r
    }

    /// The number of profiles.
    pub fn len(&self) -> (n: usize)
        ensures
            n == self.entries().len(),
    {
        self.profiles.len()
    }

    /// The profile at position `i` of the registry order.
    pub fn profile(&self, i: usize) -> (p: &Profile)
        requires
            i < self.entries().len(),
        ensures
            p@ == self.entries()[i as int],
    {
        &self.profiles[i]
    }

    /// The position of the profile named `name`, or `len()`.
    fn position(&self, name: &str) -> (i: usize)
        ensures
            i == entry_index(self.entries(), name@),
    {
        let mut i: usize = 0;
        while i < self.profiles.len()
            invariant
                i <= self.profiles@.len(),
                entry_index(self.entries(), name@) == entry_index_from(self.entries(), name@, i as int),
            decreases self.profiles@.len() - i,
        {
            if crate::text::same_text(self.profiles[i].name.as_str(), name) {
                return i;
            }
            i = i + 1;
        }
        i
    }

    /// Whether a profile named `name` is present.
    pub fn contains(&self, name: &str) -> (present: bool)
        ensures
            present == self@.dom().contains(name@),
    {
        self.position(name) < self.profiles.len()
    }

    /// The key pair of the profile named `name`, if it is present.
    pub fn get(&self, name: &str) -> (found: Option<&AWSConfig>)
        ensures
            found is Some <==> self@.dom().contains(name@),
            found matches Some(c) ==> c@ == self@[name@],
    {
        let i: usize = self.position(name);
        if i < self.profiles.len() {
            Some(&self.profiles[i].config)
        } else {
            None
        }
    }

    /// Binds `name` to `config`: the profile's entry is replaced where the
    /// name is present, and a new entry is appended where it is not.
    pub fn insert(&mut self, name: String, config: AWSConfig)
        ensures
            old(self).wf() ==> final(self).wf(),
            final(self).entries() == entries_put(old(self).entries(), name@, config@),
            final(self)@ == old(self)@.insert(name@, config@),
    {
        let i: usize = self.position(name.as_str());
        proof {
            lemma_entries_put(self.entries(), name@, config@);
        }
        if i < self.profiles.len() {
            self.profiles.set(i, Profile { name, config });
        } else {
            self.profiles.push(Profile { name, config });
        }
        assert(self.entries() =~= entries_put(old(self).entries(), name@, config@));
    }
}

impl Clone for ProfileRegistry {
    fn clone(&self) -> (c: Self)
        ensures
            c.entries() == self.entries(),
    {
        let mut profiles: Vec<Profile> = Vec::new();
        let mut i: usize = 0;
        while i < self.profiles.len()
            invariant
                i <= self.profiles@.len(),
                profiles@.len() == i,
                forall|k: int| 0 <= k < i ==> profiles@[k] == self.profiles@[k],
            decreases self.profiles@.len() - i,
        {
            profiles.push(self.profiles[i].clone());
            i = i + 1;
        }
        let c = ProfileRegistry { profiles };
        assert(c.entries() =~= self.entries());
        c
    }
}

} // verus!
