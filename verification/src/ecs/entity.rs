//! The component store: one column of optional cells per registered
//! component type, and one bitmask per entity that records which columns
//! hold a cell for it.
pub mod model;
pub mod query;

use vstd::prelude::*;
use std::any::TypeId;
use crate::ecs::bits::bit_at;
use crate::ecs::bits::MAX_COMPONENT_TYPES;
use crate::ecs::cell::new_component;
use crate::ecs::cell::same_type;
use crate::ecs::cell::type_id_of;
use crate::ecs::cell::Component;
use crate::ecs::entity::model::lemma_first_free;
use crate::ecs::entity::model::lemma_first_free_unique;
use crate::ecs::entity::model::EntitiesView;
use crate::ecs::entity::model::Operation;
use crate::ecs::error::ALREADY_REGISTERED;
use crate::ecs::error::CAPACITY_EXHAUSTED;
use crate::ecs::error::NOT_FOUND;
use crate::ecs::error::NOT_REGISTERED;
use crate::ecs::error::NO_ENTITY;
use crate::ecs::error::NO_SUCH_ENTITY;

verus! {

/// The component store.
///
/// Component types are kept in the order of their registration; the type at
/// position `k` owns bit `k` of every mask and the column at position `k`.
#[derive(Debug)]
pub struct Entities {
    type_ids: Vec<TypeId>,
    components: Vec<Vec<Option<Component>>>,
    map: Vec<u32>,
    inserting_into_index: usize,
}

impl View for Entities {
    type V = EntitiesView;

    closed spec fn view(&self) -> EntitiesView {
        EntitiesView {
            types: self.type_ids@,
            columns: Seq::new(self.components@.len(), |k: int| self.components@[k]@),
            masks: self.map@,
            cursor: self.inserting_into_index as int,
        }
    }
}

impl Default for Entities {
    /// The store with no type and no entity.
    fn default() -> (r: Self)
        ensures
            r.wf(),
            r@ == EntitiesView::empty(),
    {
        let r = Entities {
            type_ids: Vec::new(),
            components: Vec::new(),
            map: Vec::new(),
            inserting_into_index: 0,
        };
        assert(r@ =~= EntitiesView::empty());
        r
    }
}

impl Entities {
    /// The store is consistent; see [`EntitiesView::wf`].
    pub open spec fn wf(&self) -> bool {
        self@.wf()
    }

    fn position(&self, id: &TypeId) -> (r: Option<usize>)
        requires
            self.wf(),
        ensures
            match r {
                Some(k) => self@.position(*id) == Some(k as int) && k < self.type_ids.len(),
                None => self@.position(*id).is_none(),
            },
    {
        let mut k: usize = 0;
        while k < self.type_ids.len()
            invariant
                self.wf(),
                k <= self.type_ids.len(),
                forall|j: int| 0 <= j < k ==> self.type_ids@[j] != *id,
            decreases self.type_ids.len() - k,
        {
            if same_type(&self.type_ids[k], id) {
                assert(self@.types[k as int] == *id);
                assert(self@.types.index_of(*id) == k);
                return Some(k);
            }
            k += 1;
        }
        None
    }

    /// Gives the type `id` the next unused bit and a column with an empty
    /// slot for every entity.
    ///
    /// Fails with [`ALREADY_REGISTERED`] when the type has a bit already, and
    /// with [`CAPACITY_EXHAUSTED`] when all bits are taken by other types;
    /// the store is then left as it was.
    pub fn register_type(&mut self, id: TypeId) -> (r: Result<(), &'static str>)
        requires
            old(self).wf(),
        ensures
            final(self).wf(),
            r == old(self)@.register_outcome(id),
            final(self)@ == if r.is_ok() {
                old(self)@.register(id)
            } else {
                old(self)@
            },
            final(self)@ == old(self)@.step(Operation::Register(id)),
    {
        if self.position(&id).is_some() {
            return Err(ALREADY_REGISTERED);
        }
        if self.type_ids.len() >= MAX_COMPONENT_TYPES {
            return Err(CAPACITY_EXHAUSTED);
        }
        let mut column: Vec<Option<Component>> = Vec::new();
        let mut i: usize = 0;
        while i < self.map.len()
            invariant
                i <= self.map.len(),
                column.len() == i,
                forall|j: int| 0 <= j < i ==> column@[j].is_none(),
            decreases self.map.len() - i,
        {
            column.push(None);
            i += 1;
        }
        self.type_ids.push(id);
        self.components.push(column);
        proof {
            let before = old(self)@;
            let after = self@;
            assert(column@ =~= Seq::new(before.masks.len(), |i: int| None::<Component>));
            assert(after.columns =~= before.register(id).columns);
            assert(after =~= before.register(id));
            before.lemma_register(id);
        }
        Ok(())
    }

    /// Registers the component type `T`; see [`Entities::register_type`].
    pub fn register_component<T: 'static>(&mut self) -> (r: Result<(), &'static str>)
        requires
            old(self).wf(),
        ensures
            final(self).wf(),
            exists|id: TypeId|
                {
                    &&& r == #[trigger] old(self)@.register_outcome(id)
                    &&& final(self)@ == if r.is_ok() {
                        old(self)@.register(id)
                    } else {
                        old(self)@
                    }
                },
    {
        let id = type_id_of::<T>();
        self.register_type(id)
    }

    /// Picks the entity that the next components are attached to: the lowest
    /// entity whose mask is zero, or else a new entity, for which every column
    /// gets an empty slot.
    pub fn create_entity(&mut self) -> (r: &mut Self)
        requires
            old(self).wf(),
        ensures
            r.wf(),
            r@ == old(self)@.create(),
            r@ == old(self)@.step(Operation::Create),
            *final(self) == *final(r),
    {
        proof {
            lemma_first_free(self.map@);
        }
        let mut i: usize = 0;
        while i < self.map.len()
            invariant
                *self == *old(self),
                self.wf(),
                i <= self.map.len(),
                forall|j: int| 0 <= j < i ==> self.map@[j] != 0,
            decreases self.map.len() - i,
        {
            if self.map[i] == 0 {
                self.inserting_into_index = i;
                proof {
                    lemma_first_free_unique(old(self).map@, i as int);
                    assert(self@ =~= old(self)@.create());
                    old(self)@.lemma_create();
                }
                return self;
            }
            i += 1;
        }
        proof {
            lemma_first_free_unique(old(self).map@, i as int);
        }
        let mut k: usize = 0;
        while k < self.components.len()
            invariant
                self.type_ids == old(self).type_ids,
                self.map == old(self).map,
                self.components.len() == old(self).components.len(),
                k <= self.components.len(),
                forall|j: int|
                    0 <= j < k ==> (#[trigger] self.components@[j])@ == old(self).components@[j]@.push(
                        None,
                    ),
                forall|j: int|
                    k <= j < self.components.len() ==> #[trigger] self.components@[j]
                        == old(self).components@[j],
            decreases self.components.len() - k,
        {
            self.components[k].push(None);
            k += 1;
        }
        self.map.push(0);
        self.inserting_into_index = i;
        proof {
            let before = old(self)@;
            let after = self@;
            assert(after.columns =~= before.create().columns);
            assert(after =~= before.create());
            before.lemma_create();
        }
        self
    }

    /// Puts `cell` into the slot that the entity at the cursor has for the
    /// type `id`, and sets the type's bit in the entity's mask. A cell that
    /// was in the slot is replaced.
    ///
    /// Fails with [`NOT_REGISTERED`] when the type has no column, and with
    /// [`NO_ENTITY`] when the cursor is at no entity; the store is then left
    /// as it was.
    pub fn with_cell(&mut self, id: TypeId, cell: Component) -> (r: Result<
        &mut Self,
        &'static str,
    >)
        requires
            old(self).wf(),
        ensures
            match r {
                Ok(s) => {
                    &&& old(self)@.attach_outcome(id) == Ok::<(), &'static str>(())
                    &&& s.wf()
                    &&& s@ == old(self)@.attach(id, cell)
                    &&& s@ == old(self)@.step(Operation::Attach(id, cell))
                    &&& *final(self) == *final(s)
                },
                Err(text) => {
                    &&& old(self)@.attach_outcome(id) == Err::<(), &'static str>(text)
                    &&& *final(self) == *old(self)
                    &&& old(self)@ == old(self)@.step(Operation::Attach(id, cell))
                },
            },
    {
        let index = self.inserting_into_index;
        match self.position(&id) {
            None => Err(NOT_REGISTERED),
            Some(k) => {
                if index >= self.map.len() {
                    return Err(NO_ENTITY);
                }
                assert(self@.columns[k as int].len() == self@.masks.len());
                self.components[k][index] = Some(cell);
                self.map[index] = self.map[index] | bit_at(k);
                proof {
                    let before = old(self)@;
                    let after = self@;
                    assert(after.columns =~= before.attach(id, cell).columns);
                    assert(after =~= before.attach(id, cell));
                    before.lemma_attach(id, cell);
                }
                Ok(self)
            },
        }
    }

    /// Attaches `data` to the entity at the cursor, in a new cell; see
    /// [`Entities::with_cell`].
    pub fn with_component<T: 'static>(&mut self, data: T) -> (r: Result<&mut Self, &'static str>)
        requires
            old(self).wf(),
        ensures
            match r {
                Ok(s) => {
                    &&& s.wf()
                    &&& *final(self) == *final(s)
                    &&& exists|id: TypeId, cell: Component|
                        {
                            &&& old(self)@.attach_outcome(id) == Ok::<(), &'static str>(())
                            &&& s@ == #[trigger] old(self)@.attach(id, cell)
                        }
                },
                Err(text) => {
                    &&& *final(self) == *old(self)
                    &&& exists|id: TypeId| #[trigger]
                        old(self)@.attach_outcome(id) == Err::<(), &'static str>(text)
                },
            },
    {
        let id = type_id_of::<T>();
        let cell = new_component(data);
        self.with_cell(id, cell)
    }

    /// The bit of a registered type, or `None` for a type that is not
    /// registered.
    pub fn get_bitmask(&self, type_id: &TypeId) -> (r: Option<u32>)
        requires
            self.wf(),
        ensures
            r == self@.bit_of(*type_id),
    {
        match self.position(type_id) {
            Some(k) => Some(bit_at(k)),
            None => None,
        }
    }

    /// Empties every slot of entity `index` and sets its mask to zero, so
    /// that a later [`Entities::create_entity`] can take the entity again.
    ///
    /// Fails with [`NO_SUCH_ENTITY`] when there is no entity `index`; the
    /// store is then left as it was.
    pub fn remove_entity(&mut self, index: usize) -> (r: Result<(), &'static str>)
        requires
            old(self).wf(),
        ensures
            final(self).wf(),
            r == if index < old(self)@.masks.len() {
                Ok::<(), &'static str>(())
            } else {
                Err(NO_SUCH_ENTITY)
            },
            final(self)@ == if r.is_ok() {
                old(self)@.remove(index as int)
            } else {
                old(self)@
            },
            final(self)@ == old(self)@.step(Operation::Remove(index as int)),
    {
        if index >= self.map.len() {
            return Err(NO_SUCH_ENTITY);
        }
        let mut k: usize = 0;
        while k < self.components.len()
            invariant
                old(self).wf(),
                index < old(self).map.len(),
                self.type_ids == old(self).type_ids,
                self.map == old(self).map,
                self.inserting_into_index == old(self).inserting_into_index,
                self.components.len() == old(self).components.len(),
                k <= self.components.len(),
                forall|j: int|
                    0 <= j < k ==> (#[trigger] self.components@[j])@ == old(
                        self,
                    ).components@[j]@.update(index as int, None),
                forall|j: int|
                    k <= j < self.components.len() ==> #[trigger] self.components@[j] == old(
                        self,
                    ).components@[j],
            decreases self.components.len() - k,
        {
            assert(old(self)@.columns[k as int].len() == old(self)@.masks.len());
            self.components[k][index] = None;
            k += 1;
        }
        self.map[index] = 0;
        proof {
            let before = old(self)@;
            let after = self@;
            assert(after.columns =~= before.remove(index as int).columns);
            assert(after =~= before.remove(index as int));
            before.lemma_remove(index as int);
        }
        Ok(())
    }

    /// The number of entities, free ones included.
    pub fn len(&self) -> (n: usize)
        ensures
            n == self@.masks.len(),
    {
        self.map.len()
    }

    /// The number of registered component types.
    pub fn type_count(&self) -> (n: usize)
        ensures
            n == self@.types.len(),
    {
        self.type_ids.len()
    }

    /// The mask of entity `index`, or `None` when there is no such entity.
    pub fn mask(&self, index: usize) -> (r: Option<u32>)
        ensures
            r == if index < self@.masks.len() {
                Some(self@.masks[index as int])
            } else {
                None
            },
    {
        if index < self.map.len() {
            Some(self.map[index])
        } else {
            None
        }
    }

    /// The number of slots in the column of a type, or `None` for a type
    /// that is not registered.
    pub fn column_len(&self, type_id: &TypeId) -> (r: Option<usize>)
        requires
            self.wf(),
        ensures
            r == match self@.position(*type_id) {
                Some(k) => Some(self@.columns[k].len() as usize),
                None => None,
            },
            r.is_some() ==> r == Some(self@.masks.len() as usize),
    {
        match self.position(type_id) {
            Some(k) => {
                assert(self@.columns[k as int].len() == self@.masks.len());
                Some(self.components[k].len())
            },
            None => None,
        }
    }

    /// The cell that entity `index` holds for a type.
    ///
    /// Fails with [`NOT_REGISTERED`] when the type has no column, and with
    /// [`NOT_FOUND`] when the entity does not exist or its slot is empty.
    pub fn cell(&self, type_id: &TypeId, index: usize) -> (r: Result<&Component, &'static str>)
        requires
            self.wf(),
        ensures
            match r {
                Ok(cell) => self@.cell_outcome(*type_id, index as int) == Ok::<Component, &'static str>(*cell),
                Err(text) => self@.cell_outcome(*type_id, index as int) == Err::<Component, &'static str>(text),
            },
    {
        match self.position(type_id) {
            None => Err(NOT_REGISTERED),
            Some(k) => {
                if index >= self.map.len() {
                    return Err(NOT_FOUND);
                }
                assert(self@.columns[k as int].len() == self@.masks.len());
                match &self.components[k][index] {
                    Some(cell) => Ok(cell),
                    None => Err(NOT_FOUND),
                }
            },
        }
    }
}

} // verus!
