//! A table whose members are filed under identifiers that are never used twice.

use std::collections::HashMap;
use vstd::prelude::*;
use vstd::std_specs::iter::IteratorSpec;

verus! {

broadcast use vstd::std_specs::hash::group_hash_axioms;

/// A table of members, each filed under an identifier that is handed out once and never again.
pub struct Registry<M> {
    auto_increment: u64,
    members: HashMap<u64, M>,
}

impl<M> Registry<M> {
    /// The next identifier that `register` hands out.
    pub closed spec fn next_id(&self) -> u64 {
        self.auto_increment
    }

    /// The members, by identifier.
    pub closed spec fn members(&self) -> Map<u64, M> {
        self.members@
    }

    #[verifier::type_invariant]
    spec fn inv(&self) -> bool {
        forall|id: u64| #[trigger] self.members@.contains_key(id) ==> id < self.auto_increment
    }

    /// An empty registry, whose first identifier is 0.
    pub fn new() -> (registry: Self)
        ensures
            registry.next_id() == 0,
            registry.members() == Map::<u64, M>::empty(),
    {
        Registry { auto_increment: 0, members: HashMap::new() }
    }

    /// The next identifier that `register` hands out.
    pub fn next(&self) -> (id: u64)
        ensures
            id == self.next_id(),
    {
        self.auto_increment
    }

    /// Files `member` under a fresh identifier and returns it.
    pub fn register(&mut self, member: M) -> (id: u64)
        requires
            old(self).next_id() < u64::MAX,
        ensures
            id == old(self).next_id(),
            !old(self).members().contains_key(id),
            final(self).next_id() == id + 1,
            final(self).members() == old(self).members().insert(id, member),
    {
        proof {
            use_type_invariant(&*self);
        }
        let id = self.auto_increment;
        self.auto_increment = id + 1;
        let mut members: HashMap<u64, M> = HashMap::new();
        std::mem::swap(&mut self.members, &mut members);
        members.insert(id, member);
        std::mem::swap(&mut self.members, &mut members);
        id
    }

    /// Removes the member filed under `id`, if there is one.
    pub fn unregister(&mut self, id: u64) -> (member: Option<M>)
        ensures
            final(self).next_id() == old(self).next_id(),
            final(self).members() == old(self).members().remove(id),
            member == if old(self).members().contains_key(id) {
                Some(old(self).members()[id])
            } else {
                None
            },
            member is Some ==> id < old(self).next_id(),
    {
        proof {
            use_type_invariant(&*self);
        }
        let mut members: HashMap<u64, M> = HashMap::new();
        std::mem::swap(&mut self.members, &mut members);
        let member = members.remove(&id);
        std::mem::swap(&mut self.members, &mut members);
        member
    }

    /// Files `member` under an identifier that was handed out before, in place of what is
    /// filed there.
    pub fn restore(&mut self, id: u64, member: M)
        requires
            id < old(self).next_id(),
        ensures
            final(self).next_id() == old(self).next_id(),
            final(self).members() == old(self).members().insert(id, member),
    {
        proof {
            use_type_invariant(&*self);
        }
        let mut members: HashMap<u64, M> = HashMap::new();
        std::mem::swap(&mut self.members, &mut members);
        members.insert(id, member);
        std::mem::swap(&mut self.members, &mut members);
    }

    /// The member filed under `id`, if there is one.
    pub fn get(&self, id: u64) -> (member: Option<&M>)
        ensures
            member == if self.members().contains_key(id) {
                Some(&self.members()[id])
            } else {
                None
            },
            member is Some ==> id < self.next_id(),
    {
        proof {
            use_type_invariant(self);
        }
        self.members.get(&id)
    }

    /// The identifiers in use, each once, in no particular order.
    pub fn ids(&self) -> (ids: Vec<u64>)
        ensures
            ids@.no_duplicates(),
            ids@.to_set() == self.members().dom(),
            forall|i: int| 0 <= i < ids@.len() ==> #[trigger] ids@[i] < self.next_id(),
    {
        let mut ids: Vec<u64> = Vec::new();
        let ghost keys = vstd::std_specs::hash::spec_keys_iter(&self.members).remaining();
        for id in it: self.members.keys()
            invariant
                it.seq() == keys,
                ids@ == keys.take(it.index()).unref(),
        {
            ids.push(*id);
            assert(keys.take(it.index() + 1).unref() =~= keys.take(it.index()).unref().push(*id));
        }
        proof {
            assert(keys.take(keys.len() as int) =~= keys);
            use_type_invariant(self);
            assert forall|i: int, j: int| 0 <= i < j < ids@.len() implies ids@[i] != ids@[j] by {
                assert(keys[i] != keys[j]);
            }
            assert forall|i: int| 0 <= i < ids@.len() implies #[trigger] ids@[i] < self.next_id() by {
                assert(ids@.to_set().contains(ids@[i]));
            }
        }
        ids
    }
}

impl<M> Default for Registry<M> {
    /// An empty registry, whose first identifier is 0.
    fn default() -> (registry: Self)
        ensures
            registry.next_id() == 0,
            registry.members() == Map::<u64, M>::empty(),
    {
        Registry::new()
    }
}

} // verus!
