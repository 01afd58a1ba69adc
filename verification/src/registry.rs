use vstd::prelude::*;
use bevy::utils::hashbrown::{HashMap, HashSet};

verus! {

/// Transient table from an entity to the entities recorded as overlapping it,
/// in the order in which they were recorded. It is a hash map of the
/// `hashbrown` crate, reached through `bevy::utils`; its contents are known to
/// the verifier only through [`registry_contents`].
#[verifier::external_body]
pub struct OverlapRegistry {
    table: HashMap<u64, Vec<u64>>,
}

/// What an [`OverlapRegistry`] holds: for each key present, its list.
pub uninterp spec fn registry_contents(registry: OverlapRegistry) -> Map<u64, Seq<u64>>;

/// The set of entities whose pairs have all been examined. It is a hash set
/// of the `hashbrown` crate; its contents are known to the verifier only
/// through [`checked_contents`].
#[verifier::external_body]
pub struct CheckedSet {
    members: HashSet<u64>,
}

/// What a [`CheckedSet`] holds.
pub uninterp spec fn checked_contents(checked: CheckedSet) -> Set<u64>;

/// The list recorded for `entity`, empty where the registry has no such key.
pub open spec fn recorded(contents: Map<u64, Seq<u64>>, entity: u64) -> Seq<u64> {
    if contents.contains_key(entity) {
        contents[entity]
    } else {
        Seq::empty()
    }
}

impl OverlapRegistry {
    /// `HashMap::new`: a map without entries.
    #[verifier::external_body]
    pub(crate) fn new() -> (made: OverlapRegistry)
        ensures
            registry_contents(made).dom() == Set::<u64>::empty(),
    {
        OverlapRegistry { table: HashMap::new() }
    }

    /// `HashMap::entry` followed by `Entry::or_insert_with` and `Vec::push`:
    /// the key's list, created empty where the key was absent, grows by
    /// `other` at its end; no other key changes.
    #[verifier::external_body]
    pub(crate) fn record(&mut self, entity: u64, other: u64)
        ensures
            registry_contents(*final(self)) == registry_contents(*old(self)).insert(
                entity,
                recorded(registry_contents(*old(self)), entity).push(other),
            ),
    {
        self.table.entry(entity).or_insert_with(Vec::new).push(other);
    }

    /// `HashMap::get`: a copy of the key's list, or `None` where the key is
    /// absent.
    #[verifier::external_body]
    pub(crate) fn get(&self, entity: u64) -> (list: Option<Vec<u64>>)
        ensures
            list.is_some() == registry_contents(*self).contains_key(entity),
            list.is_some() ==> list.unwrap()@ == registry_contents(*self)[entity],
    {
        self.table.get(&entity).cloned()
    }
}

impl CheckedSet {
    /// `HashSet::new`: a set without members.
    #[verifier::external_body]
    pub(crate) fn new() -> (made: CheckedSet)
        ensures
            checked_contents(made) == Set::<u64>::empty(),
    {
        CheckedSet { members: HashSet::new() }
    }

    /// `HashSet::contains`: whether `entity` is a member.
    #[verifier::external_body]
    pub(crate) fn contains(&self, entity: u64) -> (found: bool)
        ensures
            found == checked_contents(*self).contains(entity),
    {
        self.members.contains(&entity)
    }

    /// `HashSet::insert`: `entity` becomes a member; the others stay.
    #[verifier::external_body]
    pub(crate) fn insert(&mut self, entity: u64)
        ensures
            checked_contents(*final(self)) == checked_contents(*old(self)).insert(entity),
    {
        self.members.insert(entity);
    }
}

} // verus!
