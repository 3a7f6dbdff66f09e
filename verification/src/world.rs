//! The entity store: `Entity` pairs a fresh identifier with a component
//! bundle, and `World` owns the ordered sequence of live identifiers together
//! with the mapping from identifier to bundle.

use vstd::prelude::*;
use std::collections::HashMap;
use crate::component::{Component, Name, Position};
use crate::identifier::{Identifier, fresh_identifier};
use crate::query::{name_matches, position_matches, position_name_matches};

verus! {

broadcast use vstd::std_specs::hash::group_hash_axioms;

/// A freshly identified entity: the unit of insertion into a `World`. It is
/// consumed by `World::spawn`, which keeps the identifier and the bundle.
pub struct Entity<C> {
    id: Identifier,
    component: C,
}

impl<C> Entity<C> {
    /// The identifier this entity was created with.
    pub closed spec fn id_spec(&self) -> Identifier {
        self.id
    }

    /// The component bundle this entity carries.
    pub closed spec fn component_spec(&self) -> C {
        self.component
    }

    /// Draws a fresh identifier and pairs it with the given bundle.
    pub fn new(component: C) -> (r: Self)
        ensures
            r.component_spec() == component,
    {
        Entity { id: fresh_identifier(), component }
    }

    /// The identifier this entity was created with.
    pub fn id(&self) -> (r: Identifier)
        ensures
            r == self.id_spec(),
    {
        self.id
    }
}

/// The authoritative store: an ordered sequence of live identifiers (spawn
/// order, never reordered) and a mapping from identifier to component bundle.
pub struct World<C> {
    entities: Vec<Identifier>,
    components: HashMap<Identifier, C>,
}

impl<C> World<C> {
    /// The live identifiers, in spawn order.
    pub closed spec fn ids(&self) -> Seq<Identifier> {
        self.entities@
    }

    /// The mapping from identifier to component bundle.
    pub closed spec fn table(&self) -> Map<Identifier, C> {
        self.components@
    }

    /// The store's invariant: the sequence and the mapping stay in lockstep —
    /// every identifier in the sequence has an entry in the mapping, and the
    /// mapping holds no identifier absent from the sequence.
    pub closed spec fn wf(&self) -> bool {
        &&& forall|i: int|
            0 <= i < self.ids().len() ==> self.table().contains_key(#[trigger] self.ids()[i])
        &&& forall|k: Identifier| self.table().contains_key(k) ==> self.ids().contains(k)
    }

    /// An empty world: no identifiers, no bundles.
    pub fn new() -> (r: Self)
        ensures
            r.wf(),
            r.ids() == Seq::<Identifier>::empty(),
            r.table() == Map::<Identifier, C>::empty(),
    {
        World { entities: Vec::new(), components: HashMap::new() }
    }

    /// Consumes the entity, appends its identifier to the sequence and
    /// inserts its bundle into the mapping. Never rejects a spawn: a bundle
    /// with every field absent is as valid as any other.
    pub fn spawn(&mut self, entity: Entity<C>)
        ensures
            final(self).ids() == old(self).ids().push(entity.id_spec()),
            final(self).table() == old(self).table().insert(
                entity.id_spec(),
                entity.component_spec(),
            ),
            final(self).ids().len() == old(self).ids().len() + 1,
            old(self).wf() ==> final(self).wf(),
    {
        let Entity { id, component } = entity;
        self.entities.push(id);
        self.components.insert(id, component);
        proof {
            if old(self).wf() {
                assert forall|i: int|
                    0 <= i < self.ids().len() implies self.table().contains_key(
                    #[trigger] self.ids()[i],
                ) by {
                    if i < old(self).ids().len() {
                        assert(old(self).table().contains_key(old(self).ids()[i]));
                    }
                }
                assert forall|k: Identifier|
                    self.table().contains_key(k) implies self.ids().contains(k) by {
                    if k == id {
                        assert(self.ids()[self.ids().len() - 1] == k);
                    } else {
                        assert(old(self).table().contains_key(k));
                        assert(old(self).ids().contains(k));
                        let j = choose|j: int|
                            0 <= j < old(self).ids().len() && old(self).ids()[j] == k;
                        assert(0 <= j < self.ids().len() && self.ids()[j] == k);
                    }
                }
            }
        }
    }

    /// The number of spawned entities.
    pub fn count(&self) -> (r: usize)
        ensures
            r == self.ids().len(),
    {
        self.entities.len()
    }
}

impl World<Component> {
    /// Yields `(identifier, position)` for every entity holding a position,
    /// in spawn order; entities without a position are silently skipped.
    /// The values are copies: the world's stored bundles are untouched.
    pub fn query_position(&self) -> (r: Vec<(Identifier, Position)>)
        ensures
            r@ == position_matches(self.ids(), self.table()),
    {
        let mut r: Vec<(Identifier, Position)> = Vec::new();
        let mut i: usize = 0;
        while i < self.entities.len()
            invariant
                i <= self.entities@.len(),
                r@ == position_matches(self.entities@.take(i as int), self.components@),
            decreases self.entities@.len() - i,
        {
            let ghost prefix_ids = self.entities@.take(i as int);
            let id = self.entities[i];
            match self.components.get(&id) {
                Some(c) => {
                    match &c.position {
                        Some(p) => {
                            r.push((id, *p));
                        },
                        None => {},
                    }
                },
                None => {},
            }
            proof {
                let next = self.entities@.take(i as int + 1);
                assert(next.drop_last() =~= prefix_ids);
                assert(next.last() == self.entities@[i as int]);
            }
            i = i + 1;
        }
        proof {
            assert(self.entities@.take(self.entities@.len() as int) =~= self.entities@);
        }
        r
    }

    /// Yields `(identifier, name)` for every entity holding a name, in
    /// spawn order; entities without a name are silently skipped.
    /// The values are clones: the world's stored bundles are untouched.
    pub fn query_name(&self) -> (r: Vec<(Identifier, Name)>)
        ensures
            r@ == name_matches(self.ids(), self.table()),
    {
        let mut r: Vec<(Identifier, Name)> = Vec::new();
        let mut i: usize = 0;
        while i < self.entities.len()
            invariant
                i <= self.entities@.len(),
                r@ == name_matches(self.entities@.take(i as int), self.components@),
            decreases self.entities@.len() - i,
        {
            let ghost prefix_ids = self.entities@.take(i as int);
            let id = self.entities[i];
            match self.components.get(&id) {
                Some(c) => {
                    match &c.name {
                        Some(n) => {
                            r.push((id, n.clone()));
                        },
                        None => {},
                    }
                },
                None => {},
            }
            proof {
                let next = self.entities@.take(i as int + 1);
                assert(next.drop_last() =~= prefix_ids);
                assert(next.last() == self.entities@[i as int]);
            }
            i = i + 1;
        }
        proof {
            assert(self.entities@.take(self.entities@.len() as int) =~= self.entities@);
        }
        r
    }

    /// Yields `(identifier, position, name)` for every entity holding both a
    /// position and a name, in spawn order; an entity missing either field
    /// is skipped entirely (all-or-nothing field matching).
    /// The values are copies and clones: the world's stored bundles are
    /// untouched.
    pub fn query_position_name(&self) -> (r: Vec<(Identifier, Position, Name)>)
        ensures
            r@ == position_name_matches(self.ids(), self.table()),
    {
        let mut r: Vec<(Identifier, Position, Name)> = Vec::new();
        let mut i: usize = 0;
        while i < self.entities.len()
            invariant
                i <= self.entities@.len(),
                r@ == position_name_matches(self.entities@.take(i as int), self.components@),
            decreases self.entities@.len() - i,
        {
            let ghost prefix_ids = self.entities@.take(i as int);
            let id = self.entities[i];
            match self.components.get(&id) {
                Some(c) => {
                    match (&c.position, &c.name) {
                        (Some(p), Some(n)) => {
                            r.push((id, *p, n.clone()));
                        },
                        _ => {},
                    }
                },
                None => {},
            }
            proof {
                let next = self.entities@.take(i as int + 1);
                assert(next.drop_last() =~= prefix_ids);
                assert(next.last() == self.entities@[i as int]);
            }
            i = i + 1;
        }
        proof {
            assert(self.entities@.take(self.entities@.len() as int) =~= self.entities@);
        }
        r
    }
}

} // verus!
