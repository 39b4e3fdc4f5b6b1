//! A dense store of one component type, indexed by entity.
//!
//! Components sit packed in a vector next to the entity that owns them; a
//! table from entity to position finds them. Removing a component moves the
//! last one into its place.
use vstd::prelude::*;

verus! {

/// The number of entities a component list can index.
pub const MAX_ENTITY_COUNT: usize = 1000;

pub struct ComponentList<T> {
    components: Vec<(usize, T)>,
    entity_to_index_map: Vec<Option<usize>>,
}

impl<T> View for ComponentList<T> {
    type V = Map<usize, T>;

    /// The component of each entity that has one.
    closed spec fn view(&self) -> Map<usize, T> {
        Map::new(
            |e: usize| e < MAX_ENTITY_COUNT && self.entity_to_index_map@[e as int] is Some,
            |e: usize| self.components@[self.entity_to_index_map@[e as int]->Some_0 as int].1,
        )
    }
}

impl<T> ComponentList<T> {
    /// The table and the packed components agree: each component's entity
    /// points back at it, and each entry of the table points at a component
    /// of that entity.
    pub closed spec fn wf(&self) -> bool {
        &&& self.entity_to_index_map@.len() == MAX_ENTITY_COUNT
        &&& forall|i: int|
            0 <= i < self.components@.len() ==> {
                let e = #[trigger] self.components@[i].0;
                &&& e < MAX_ENTITY_COUNT
                &&& self.entity_to_index_map@[e as int] == Some(i as usize)
            }
        &&& forall|e: int|
            0 <= e < MAX_ENTITY_COUNT ==> (#[trigger] self.entity_to_index_map@[e] matches Some(i) ==> {
                &&& i < self.components@.len()
                &&& self.components@[i as int].0 == e
            })
    }

    /// The components in their packed order, with their entities.
    pub closed spec fn entries(&self) -> Seq<(usize, T)> {
        self.components@
    }

    /// Where the component of `entity` sits in the packed order.
    pub closed spec fn position(&self, entity: usize) -> int {
        self.entity_to_index_map@[entity as int]->Some_0 as int
    }

    pub fn new() -> (r: Self)
        ensures
            r.wf(),
            r@ == Map::<usize, T>::empty(),
            r.entries() == Seq::<(usize, T)>::empty(),
    {
        let mut entity_to_index_map: Vec<Option<usize>> = Vec::new();
        let mut i: usize = 0;
        while i < MAX_ENTITY_COUNT
            invariant
                i <= MAX_ENTITY_COUNT,
                entity_to_index_map@.len() == i,
                forall|j: int| 0 <= j < i ==> #[trigger] entity_to_index_map@[j] is None,
            decreases MAX_ENTITY_COUNT - i,
        {
            entity_to_index_map.push(None);
            i = i + 1;
        }
        let r = ComponentList { components: Vec::new(), entity_to_index_map };
        assert(r@ =~= Map::<usize, T>::empty());
        r
    }

    /// Gives `entity` the component `component`, appended at the end of the
    /// packed order; the entity must not have one yet.
    pub fn add(&mut self, entity: usize, component: T)
        requires
            old(self).wf(),
            entity < MAX_ENTITY_COUNT,
            !old(self)@.contains_key(entity),
        ensures
            final(self).wf(),
            final(self)@ == old(self)@.insert(entity, component),
            final(self).entries() == old(self).entries().push((entity, component)),
    {
        let ghost old_components = self.components@;
        self.components.push((entity, component));
        let index = self.components.len() - 1;
        self.entity_to_index_map.set(entity, Some(index));
        proof {
            assert forall|i: int| 0 <= i < self.components@.len() implies {
                let e = #[trigger] self.components@[i].0;
                &&& e < MAX_ENTITY_COUNT
                &&& self.entity_to_index_map@[e as int] == Some(i as usize)
            } by {
                if i < index {
                    assert(old_components[i] == self.components@[i]);
                }
            }
            assert(self@ =~= old(self)@.insert(entity, component));
        }
    }

    /// Takes the component of `entity` away; the entity must have one. The
    /// last component of the packed order moves into its place.
    pub fn remove(&mut self, entity: usize)
        requires
            old(self).wf(),
            old(self)@.contains_key(entity),
        ensures
            final(self).wf(),
            final(self)@ == old(self)@.remove(entity),
            0 <= old(self).position(entity) < old(self).entries().len(),
            old(self).entries()[old(self).position(entity)].0 == entity,
            final(self).entries() == old(self).entries().update(
                old(self).position(entity),
                old(self).entries().last(),
            ).drop_last(),
    {
        let ghost old_components = self.components@;
        let ghost old_map = self.entity_to_index_map@;
        let index = match self.entity_to_index_map[entity] {
            Some(i) => i,
            None => 0,
        };
        let ghost last = (old_components.len() - 1) as int;
        self.entity_to_index_map.set(entity, None);
        let _removed = self.components.swap_remove(index);
        if index < self.components.len() {
            let swapped_entity = self.components[index].0;
            self.entity_to_index_map.set(swapped_entity, Some(index));
            proof {
                assert(old_components[last].0 == swapped_entity);
                assert(old_map[swapped_entity as int] == Some(last as usize));
            }
        }
        proof {
            assert forall|i: int| 0 <= i < self.components@.len() implies {
                let e = #[trigger] self.components@[i].0;
                &&& e < MAX_ENTITY_COUNT
                &&& self.entity_to_index_map@[e as int] == Some(i as usize)
            } by {
                if i != index {
                    assert(self.components@[i] == old_components[i]);
                    assert(old_map[old_components[i].0 as int] == Some(i as usize));
                }
            }
            assert forall|e: int| 0 <= e < MAX_ENTITY_COUNT implies (
            #[trigger] self.entity_to_index_map@[e] matches Some(i) ==> {
                &&& i < self.components@.len()
                &&& self.components@[i as int].0 == e
            }) by {
                if e != entity && (index >= self.components@.len() || e != old_components[last].0) {
                    assert(self.entity_to_index_map@[e] == old_map[e]);
                    if let Some(i) = old_map[e] {
                        assert(i != index);
                        if i as int == last {
                            assert(old_components[last].0 == e);
                        }
                    }
                }
            }
            assert(self@ =~= old(self)@.remove(entity));
        }
    }

    /// The component of `entity`, which must have one.
    pub fn borrow(&self, entity: usize) -> (r: &T)
        requires
            self.wf(),
            self@.contains_key(entity),
        ensures
            *r == self@[entity],
    {
        let index = match self.entity_to_index_map[entity] {
            Some(i) => i,
            None => 0,
        };
        &self.components[index].1
    }

    /// The component of `entity`, which must have one, to change in place.
    pub fn borrow_mut(&mut self, entity: usize) -> (r: &mut T)
        requires
            old(self).wf(),
            old(self)@.contains_key(entity),
        ensures
            *r == old(self)@[entity],
            final(self).wf(),
            final(self)@ == old(self)@.insert(entity, *final(r)),
            final(self).entries() == old(self).entries().update(old(self).position(entity), (entity, *final(r))),
    {
        let index = match self.entity_to_index_map[entity] {
            Some(i) => i,
            None => 0,
        };
        &mut self.components[index].1
    }

    /// The component of `entity`, or `None` where it has none.
    pub fn try_borrow(&self, entity: usize) -> (r: Option<&T>)
        requires
            self.wf(),
        ensures
            r is Some <==> self@.contains_key(entity),
            r matches Some(c) ==> *c == self@[entity],
    {
        if entity >= MAX_ENTITY_COUNT {
            return None;
        }
        match self.entity_to_index_map[entity] {
            Some(index) => Some(&self.components[index].1),
            None => None,
        }
    }

    /// The component of `entity` to change in place, or `None` where it has
    /// none.
    pub fn try_borrow_mut(&mut self, entity: usize) -> (r: Option<&mut T>)
        requires
            old(self).wf(),
        ensures
            r is Some <==> old(self)@.contains_key(entity),
            r is None ==> *final(self) == *old(self),
            r matches Some(c) ==> *c == old(self)@[entity] && final(self).wf() && final(self)@ == old(
                self,
            )@.insert(entity, *final(c)) && final(self).entries() == old(self).entries().update(
                old(self).position(entity),
                (entity, *final(c)),
            ),
    {
        if entity >= MAX_ENTITY_COUNT {
            return None;
        }
        match self.entity_to_index_map[entity] {
            Some(index) => Some(&mut self.components[index].1),
            None => None,
        }
    }

    /// Every component with its entity, in packed order: each entity once,
    /// each with the component it has.
    pub fn iter(&self) -> (r: &[(usize, T)])
        requires
            self.wf(),
        ensures
            r@ == self.entries(),
            forall|i: int|
                0 <= i < r@.len() ==> #[trigger] self@.contains_key(r@[i].0) && self@[r@[i].0] == r@[i].1,
            forall|i: int, j: int| 0 <= i < j < r@.len() ==> #[trigger] r@[i].0 != #[trigger] r@[j].0,
            forall|e: usize| #[trigger] self@.contains_key(e) ==> exists|i: int| 0 <= i < r@.len() && r@[i].0 == e,
    {
        let r = self.components.as_slice();
        proof {
            assert(self.components.len() == self.components@.len());
            assert forall|e: usize| #[trigger] self@.contains_key(e) implies exists|i: int| 0 <= i < r@.len() && r@[i].0 == e by {
                let i = self.entity_to_index_map@[e as int]->Some_0 as int;
                assert(r@[i].0 == e);
            }
            assert forall|i: int, j: int| 0 <= i < j < r@.len() implies #[trigger] r@[i].0 != #[trigger] r@[j].0 by {
                let (a, b) = (self.components@[i].0, self.components@[j].0);
                assert(self.entity_to_index_map@[a as int] == Some(i as usize));
                assert(self.entity_to_index_map@[b as int] == Some(j as usize));
            }
        }
        r
    }
}

} // verus!
