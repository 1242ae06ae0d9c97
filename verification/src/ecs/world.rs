//! The world: one component store and one resource store behind one owner.
use vstd::prelude::*;
use std::any::TypeId;
use crate::ecs::cell::Resource;
use crate::ecs::entity::query::Query;
use crate::ecs::entity::query::QueryView;
use crate::ecs::entity::Entities;
use crate::ecs::entity::model::EntitiesView;
use crate::ecs::resource::Resources;

verus! {

/// The owner of a component store and a resource store.
#[derive(Debug)]
pub struct World {
    entities: Entities,
    resources: Resources,
}

impl Default for World {
    /// The world with no component type, no entity and no resource.
    fn default() -> (r: Self)
        ensures
            r.wf(),
            r.entities()@ == EntitiesView::empty(),
            r.resources()@ == Map::<TypeId, Resource>::empty(),
    {
        World { entities: Entities::default(), resources: Resources::default() }
    }
}

impl World {
    /// The component store of the world.
    pub closed spec fn entities(&self) -> Entities {
        self.entities
    }

    /// The resource store of the world.
    pub closed spec fn resources(&self) -> Resources {
        self.resources
    }

    /// Both stores are consistent.
    pub open spec fn wf(&self) -> bool {
        self.entities().wf() && self.resources().wf()
    }

    /// The world with no component type, no entity and no resource.
    pub fn new() -> (r: Self)
        ensures
            r.wf(),
            r.entities()@ == EntitiesView::empty(),
            r.resources()@ == Map::<TypeId, Resource>::empty(),
    {
        World { entities: Entities::default(), resources: Resources::default() }
    }

    /// Makes `resource` the resource of the type `id`, in place of the one
    /// that the type had, if it had one; see [`Resources::insert`].
    pub fn insert_resource(&mut self, id: TypeId, resource: Resource)
        requires
            old(self).wf(),
        ensures
            final(self).wf(),
            final(self).entities() == old(self).entities(),
            final(self).resources()@ == old(self).resources()@.insert(id, resource),
    {
        self.resources.insert(id, resource);
    }

    /// The resource of the type `id`, or `None` when the type has none; see
    /// [`Resources::lookup`].
    pub fn resource(&self, id: &TypeId) -> (r: Option<&Resource>)
        requires
            self.wf(),
        ensures
            match r {
                Some(resource) => self.resources()@.contains_key(*id) && *resource
                    == self.resources()@[*id],
                None => !self.resources()@.contains_key(*id),
            },
    {
        self.resources.lookup(id)
    }

    /// Gives the type `id` the next unused bit and a column; see
    /// [`Entities::register_type`].
    pub fn register_type(&mut self, id: TypeId) -> (r: Result<(), &'static str>)
        requires
            old(self).wf(),
        ensures
            final(self).wf(),
            final(self).resources() == old(self).resources(),
            r == old(self).entities()@.register_outcome(id),
            final(self).entities()@ == if r.is_ok() {
                old(self).entities()@.register(id)
            } else {
                old(self).entities()@
            },
    {
        self.entities.register_type(id)
    }

    /// Stores `resource_data` as the resource of its type, in place of the
    /// one that the type had, if it had one; see [`Resources::add`].
    pub fn add_resource<T: 'static>(&mut self, resource_data: T)
        requires
            old(self).wf(),
        ensures
            final(self).wf(),
            final(self).entities() == old(self).entities(),
            exists|id: TypeId, resource: Resource|
                final(self).resources()@ == #[trigger] old(self).resources()@.insert(id, resource),
    {
        self.resources.add(resource_data);
    }

    /// The resource of type `T`, or `None` when there is none; see
    /// [`Resources::get_ref`].
    pub fn get_resource<T: 'static>(&self) -> (r: Option<&T>)
        requires
            self.wf(),
        ensures
            exists|id: TypeId| (#[trigger] self.resources()@.contains_key(id)) || r.is_none(),
    {
        self.resources.get_ref::<T>()
    }

    /// The resource of type `T`, to be changed in place, or `None` when
    /// there is none; see [`Resources::get_mut`].
    pub fn get_resource_mut<T: 'static>(&mut self) -> (r: Option<&mut T>)
        requires
            old(self).wf(),
        ensures
            final(self).wf(),
            final(self).entities() == old(self).entities(),
            final(self).resources()@.dom() == old(self).resources()@.dom(),
            exists|id: TypeId|
                {
                    &&& (#[trigger] old(self).resources()@.contains_key(id)) || r.is_none()
                    &&& final(self).resources()@.remove(id) == old(self).resources()@.remove(id)
                },
    {
        self.resources.get_mut::<T>()
    }

    /// Registers the component type `T`; see
    /// [`Entities::register_component`].
    pub fn register_component<T: 'static>(&mut self) -> (r: Result<(), &'static str>)
        requires
            old(self).wf(),
        ensures
            final(self).wf(),
            final(self).resources() == old(self).resources(),
            exists|id: TypeId|
                {
                    &&& r == #[trigger] old(self).entities()@.register_outcome(id)
                    &&& final(self).entities()@ == if r.is_ok() {
                        old(self).entities()@.register(id)
                    } else {
                        old(self).entities()@
                    }
                },
    {
        self.entities.register_component::<T>()
    }

    /// Picks the entity that the next components are attached to and hands
    /// out the component store for attaching them; see
    /// [`Entities::create_entity`].
    pub fn create_entity(&mut self) -> (r: &mut Entities)
        requires
            old(self).wf(),
        ensures
            r.wf(),
            r@ == old(self).entities()@.create(),
            final(self).entities() == *final(r),
            final(self).resources() == old(self).resources(),
    {
        self.entities.create_entity()
    }

    /// A query on the component store of the world; see [`Query::new`].
    pub fn query(&self) -> (r: Query<'_>)
        requires
            self.wf(),
        ensures
            r.wf(),
            r@ == (QueryView { filter: 0, types: Seq::empty(), store: self.entities()@ }),
    {
        Query::new(&self.entities)
    }
}

} // verus!
