//! The resource store: at most one value per type, found by the type.
use vstd::prelude::*;
use std::any::TypeId;
use crate::ecs::cell::new_resource;
use crate::ecs::cell::resource_mut;
use crate::ecs::cell::resource_ref;
use crate::ecs::cell::same_type;
use crate::ecs::cell::type_id_of;
use crate::ecs::cell::Resource;

verus! {

/// The resource store. Its view maps each type that has a resource to that
/// resource.
#[derive(Debug)]
pub struct Resources {
    type_ids: Vec<TypeId>,
    data: Vec<Resource>,
}

impl View for Resources {
    type V = Map<TypeId, Resource>;

    closed spec fn view(&self) -> Map<TypeId, Resource> {
        Map::new(
            |id: TypeId| self.type_ids@.contains(id),
            |id: TypeId| self.data@[self.type_ids@.index_of(id)],
        )
    }
}

/// Storing two resources of one type, one after the other, leaves the second
/// as the resource of the type and nothing of the first; the resources of
/// other types are as they were.
pub proof fn lemma_second_insert_replaces_first(
    resources: Map<TypeId, Resource>,
    id: TypeId,
    first: Resource,
    second: Resource,
)
    ensures
        resources.insert(id, first).insert(id, second) == resources.insert(id, second),
        resources.insert(id, first).insert(id, second)[id] == second,
        resources.insert(id, first).insert(id, second).dom() == resources.dom().insert(id),
        forall|other: TypeId|
            other != id && resources.contains_key(other) ==> #[trigger] resources.insert(
                id,
                first,
            ).insert(id, second)[other] == resources[other],
{
    assert(resources.insert(id, first).insert(id, second) =~= resources.insert(id, second));
}

impl Default for Resources {
    /// The store with no resource.
    fn default() -> (r: Self)
        ensures
            r.wf(),
            r@ == Map::<TypeId, Resource>::empty(),
    {
        let r = Resources { type_ids: Vec::new(), data: Vec::new() };
        assert(r@ =~= Map::<TypeId, Resource>::empty());
        r
    }
}

impl Resources {
    /// The store is consistent: it keeps one resource for each type it
    /// knows, and knows no type twice.
    pub closed spec fn wf(&self) -> bool {
        &&& self.type_ids@.len() == self.data@.len()
        &&& self.type_ids@.no_duplicates()
    }

    fn position(&self, id: &TypeId) -> (r: Option<usize>)
        requires
            self.wf(),
        ensures
            match r {
                Some(k) => k < self.type_ids@.len() && self.type_ids@[k as int] == *id
                    && self.type_ids@.index_of(*id) == k && self@.contains_key(*id),
                None => !self@.contains_key(*id),
            },
    {
        let mut k: usize = 0;
        while k < self.type_ids.len()
            invariant
                self.wf(),
                k <= self.type_ids.len(),
                forall|j: int| 0 <= j < k ==> self.type_ids@[j] != *id,
            decreases self.type_ids.len() - k,
        {
            if same_type(&self.type_ids[k], id) {
                assert(self.type_ids@[k as int] == *id);
                assert(self.type_ids@.index_of(*id) == k);
                return Some(k);
            }
            k += 1;
        }
        None
    }

    /// Makes `resource` the resource of the type `id`, in place of the one
    /// that the type had, if it had one.
    pub fn insert(&mut self, id: TypeId, resource: Resource)
        requires
            old(self).wf(),
        ensures
            final(self).wf(),
            final(self)@ == old(self)@.insert(id, resource),
    {
        match self.position(&id) {
            Some(k) => {
                self.data[k] = resource;
                proof {
                    assert forall|other: TypeId| self@.contains_key(other) implies #[trigger] self@[other]
                        == old(self)@.insert(id, resource)[other] by {
                        let j = self.type_ids@.index_of(other);
                        assert(self.type_ids@[j] == other);
                    }
                    assert(self@ =~= old(self)@.insert(id, resource));
                }
            },
            None => {
                self.type_ids.push(id);
                self.data.push(resource);
                proof {
                    let before = old(self).type_ids@;
                    let after = self.type_ids@;
                    assert(after[before.len() as int] == id);
                    assert forall|other: TypeId| #[trigger]
                        self@.contains_key(other) == old(self)@.insert(id, resource).contains_key(
                            other,
                        ) by {
                        if before.contains(other) {
                            let j = before.index_of(other);
                            assert(after[j] == other);
                        }
                        if after.contains(other) && other != id {
                            let j = after.index_of(other);
                            assert(before[j] == other);
                        }
                    }
                    assert forall|other: TypeId| self@.contains_key(other) implies #[trigger] self@[other]
                        == old(self)@.insert(id, resource)[other] by {
                        let j = after.index_of(other);
                        assert(after[j] == other);
                        if other != id {
                            assert(before[j] == other);
                            assert(before.index_of(other) == j);
                        }
                    }
                    assert(self@ =~= old(self)@.insert(id, resource));
                }
            },
        }
    }

    /// Stores `data` as the resource of its type `T`; see
    /// [`Resources::insert`].
    pub fn add<T: 'static>(&mut self, data: T)
        requires
            old(self).wf(),
        ensures
            final(self).wf(),
            exists|id: TypeId, resource: Resource|
                final(self)@ == #[trigger] old(self)@.insert(id, resource),
    {
        let id = type_id_of::<T>();
        let resource = new_resource(data);
        self.insert(id, resource);
    }

    /// The resource of the type `id`, or `None` when the type has none.
    pub fn lookup(&self, id: &TypeId) -> (r: Option<&Resource>)
        requires
            self.wf(),
        ensures
            match r {
                Some(resource) => self@.contains_key(*id) && *resource == self@[*id],
                None => !self@.contains_key(*id),
            },
    {
        match self.position(id) {
            Some(k) => Some(&self.data[k]),
            None => None,
        }
    }

    /// The resource of the type `id`, to be changed in place, or `None` when
    /// the type has none. No other resource changes.
    pub fn lookup_mut(&mut self, id: &TypeId) -> (r: Option<&mut Resource>)
        requires
            old(self).wf(),
        ensures
            final(self).wf(),
            match r {
                Some(resource) => {
                    &&& old(self)@.contains_key(*id)
                    &&& *resource == old(self)@[*id]
                    &&& final(self)@ == old(self)@.insert(*id, *final(resource))
                },
                None => !old(self)@.contains_key(*id) && *final(self) == *old(self),
            },
    {
        match self.position(id) {
            Some(k) => Some(&mut self.data[k]),
            None => None,
        }
    }

    /// The resource of type `T`, or `None` when there is none.
    pub fn get_ref<T: 'static>(&self) -> (r: Option<&T>)
        requires
            self.wf(),
        ensures
            exists|id: TypeId| (#[trigger] self@.contains_key(id)) || r.is_none(),
    {
        let id = type_id_of::<T>();
        match self.lookup(&id) {
            Some(resource) => resource_ref::<T>(resource),
            None => {
                assert(!self@.contains_key(id));
                None
            },
        }
    }

    /// The resource of type `T`, to be changed in place, or `None` when
    /// there is none. No resource of another type changes.
    pub fn get_mut<T: 'static>(&mut self) -> (r: Option<&mut T>)
        requires
            old(self).wf(),
        ensures
            final(self).wf(),
            final(self)@.dom() == old(self)@.dom(),
            exists|id: TypeId|
                {
                    &&& (#[trigger] old(self)@.contains_key(id)) || r.is_none()
                    &&& final(self)@.remove(id) == old(self)@.remove(id)
                },
    {
        let id = type_id_of::<T>();
        match self.lookup_mut(&id) {
            Some(resource) => resource_mut::<T>(resource),
            None => {
                assert(!old(self)@.contains_key(id));
                None
            },
        }
    }
}

} // verus!
