//! Queries over the component store: a filter made of component types is
//! held against every entity's mask, and the entities whose mask covers it
//! are handed out, either with their cells column by column or as accessors.
use vstd::prelude::*;
use std::any::TypeId;
use std::cell::Ref;
use std::cell::RefMut;
use crate::ecs::bits::covers;
use crate::ecs::bits::lemma_covers_pointwise;
use crate::ecs::bits::lemma_mask_of_none;
use crate::ecs::bits::lemma_mask_of_set;
use crate::ecs::bits::mask_covers;
use crate::ecs::bits::mask_of;
use crate::ecs::cell::type_id_of;
use crate::ecs::cell::Component;
use crate::ecs::entity::Entities;
use crate::ecs::entity::model::EntitiesView;
use crate::ecs::error::ALREADY_BORROWED;
use crate::ecs::error::NOT_REGISTERED;
use crate::ecs::error::TYPE_MISMATCH;

verus! {

/// The indices whose mask covers `filter`, in ascending order.
pub open spec fn matching(masks: Seq<u32>, filter: u32) -> Seq<usize>
    decreases masks.len(),
{
    if masks.len() == 0 {
        Seq::empty()
    } else if covers(masks.last(), filter) {
        matching(masks.drop_last(), filter).push((masks.len() - 1) as usize)
    } else {
        matching(masks.drop_last(), filter)
    }
}

/// `matching` holds exactly the indices whose mask covers the filter, each
/// once and in ascending order.
pub proof fn lemma_matching(masks: Seq<u32>, filter: u32)
    requires
        masks.len() <= usize::MAX,
    ensures
        matching(masks, filter).len() <= masks.len(),
        forall|m: int|
            0 <= m < matching(masks, filter).len() ==> {
                let i = #[trigger] matching(masks, filter)[m];
                i < masks.len() && covers(masks[i as int], filter)
            },
        forall|m: int, n: int|
            0 <= m < n < matching(masks, filter).len() ==> matching(masks, filter)[m] < matching(
                masks,
                filter,
            )[n],
        forall|i: int|
            0 <= i < masks.len() && covers(#[trigger] masks[i], filter) ==> matching(
                masks,
                filter,
            ).contains(i as usize),
    decreases masks.len(),
{
    if masks.len() > 0 {
        let shorter = masks.drop_last();
        let found = matching(masks, filter);
        let before = matching(shorter, filter);
        let last = (masks.len() - 1) as usize;
        lemma_matching(shorter, filter);
        assert forall|m: int| 0 <= m < found.len() implies {
            let i = #[trigger] found[m];
            i < masks.len() && covers(masks[i as int], filter)
        } by {
            if m < before.len() {
                assert(found[m] == before[m]);
                assert(masks[before[m] as int] == shorter[before[m] as int]);
            }
        }
        assert forall|m: int, n: int| 0 <= m < n < found.len() implies found[m] < found[n] by {
            assert(found[m] == before[m]);
            if n < before.len() {
                assert(found[n] == before[n]);
            }
        }
        assert forall|i: int| 0 <= i < masks.len() && covers(#[trigger] masks[i], filter) implies found.contains(
            i as usize,
        ) by {
            if i < shorter.len() {
                assert(shorter[i] == masks[i]);
                let m = choose|m: int| 0 <= m < before.len() && before[m] == i as usize;
                assert(found[m] == i as usize);
            } else {
                assert(found[found.len() - 1] == last);
            }
        }
    }
}

/// For each registered type of `store`, whether `types` asks for it.
pub open spec fn requested(store: EntitiesView, types: Seq<TypeId>) -> Seq<bool> {
    Seq::new(store.types.len(), |k: int| types.contains(store.types[k]))
}

/// What a query holds.
#[verifier::ext_equal]
pub struct QueryView {
    /// The OR of the bits of the requested types.
    pub filter: u32,
    /// The requested types, in the order of the requests.
    pub types: Seq<TypeId>,
    /// The store that the query reads.
    pub store: EntitiesView,
}

impl QueryView {
    /// The query is consistent: its store is, every requested type is
    /// registered there, and the filter is the OR of the requested bits.
    pub open spec fn wf(self) -> bool {
        &&& self.store.wf()
        &&& forall|j: int| 0 <= j < self.types.len() ==> self.store.types.contains(#[trigger] self.types[j])
        &&& self.filter == mask_of(requested(self.store, self.types))
    }

    /// The query after one more type was requested.
    pub open spec fn with(self, id: TypeId) -> Self {
        QueryView {
            filter: self.filter | self.store.bit_of(id).unwrap(),
            types: self.types.push(id),
            store: self.store,
        }
    }

    /// The entities that the query selects, in ascending order.
    pub open spec fn indexes(self) -> Seq<usize> {
        matching(self.store.masks, self.filter)
    }

    /// The cells that the selected entities hold for the requested type
    /// number `j`, in the order of `indexes`.
    pub open spec fn column(self, j: int) -> Seq<Component> {
        Seq::new(
            self.indexes().len(),
            |m: int| self.store.slot(self.types[j], self.indexes()[m] as int).unwrap(),
        )
    }
}

/// A consistent query selects an entity exactly when the entity holds a
/// cell for every requested type.
pub proof fn lemma_selected_iff_holds_requested(query: QueryView, i: int)
    requires
        query.wf(),
        0 <= i < query.store.masks.len(),
    ensures
        covers(query.store.masks[i], query.filter) <==> (forall|j: int|
            0 <= j < query.types.len() ==> query.store.slot(#[trigger] query.types[j], i).is_some()),
{
    let store = query.store;
    let wanted = requested(store, query.types);
    lemma_covers_pointwise(store.presence(i), wanted);
    if covers(store.masks[i], query.filter) {
        assert forall|j: int| 0 <= j < query.types.len() implies store.slot(
            #[trigger] query.types[j],
            i,
        ).is_some() by {
            let k = store.types.index_of(query.types[j]);
            assert(store.types.contains(query.types[j]));
            assert(wanted[k]);
            assert(store.presence(i)[k]);
        }
    }
    if forall|j: int| 0 <= j < query.types.len() ==> store.slot(#[trigger] query.types[j], i).is_some() {
        assert forall|k: int| 0 <= k < wanted.len() && wanted[k] implies store.presence(i)[k] by {
            let j = choose|j: int| 0 <= j < query.types.len() && query.types[j] == store.types[k];
            store.lemma_bit_of_position(k);
            assert(store.slot(query.types[j], i).is_some());
        }
    }
}

/// A cell that was attached to an entity is the cell that a query on the
/// store hands out for that entity and type, in either form: in the column
/// of the type at the entity's place among the selected entities, and
/// through the accessor of the entity.
pub proof fn lemma_attached_cell_is_read_back(
    store: EntitiesView,
    id: TypeId,
    cell: Component,
    query: QueryView,
    j: int,
    m: int,
)
    requires
        store.wf(),
        store.can_attach(id),
        query.wf(),
        query.store == store.attach(id, cell),
        0 <= j < query.types.len(),
        query.types[j] == id,
        0 <= m < query.indexes().len(),
        query.indexes()[m] == store.cursor,
    ensures
        query.column(j)[m] == cell,
        query.store.cell_outcome(id, query.indexes()[m] as int) == Ok::<Component, &'static str>(
            cell,
        ),
{
    store.lemma_attached_cell_is_held(id, cell);
}

/// A query under construction or ready to run.
#[derive(Debug)]
pub struct Query<'a> {
    map: u32,
    entities: &'a Entities,
    type_ids: Vec<TypeId>,
}

impl<'a> View for Query<'a> {
    type V = QueryView;

    closed spec fn view(&self) -> QueryView {
        QueryView { filter: self.map, types: self.type_ids@, store: self.entities@ }
    }
}

/// One entity that a query selected, with access to its components.
#[derive(Debug)]
pub struct QueryEntity<'a> {
    id: usize,
    entities: &'a Entities,
}

/// What an accessor holds.
pub struct QueryEntityView {
    /// The index of the entity.
    pub id: usize,
    /// The store that the accessor reads.
    pub store: EntitiesView,
}

impl<'a> View for QueryEntity<'a> {
    type V = QueryEntityView;

    closed spec fn view(&self) -> QueryEntityView {
        QueryEntityView { id: self.id, store: self.entities@ }
    }
}

impl<'a> QueryEntity<'a> {
    /// An accessor for entity `id` of `entities`.
    pub fn new(id: usize, entities: &'a Entities) -> (r: Self)
        ensures
            r@.id == id,
            r@.store == entities@,
    {
        QueryEntity { id, entities }
    }

    /// The index of the entity.
    pub fn id(&self) -> (id: usize)
        ensures
            id == self@.id,
    {
        self.id
    }

    /// The cell that the entity holds for a type; see [`Entities::cell`].
    pub fn cell(&self, type_id: &TypeId) -> (r: Result<&Component, &'static str>)
        requires
            self@.store.wf(),
        ensures
            match r {
                Ok(cell) => self@.store.cell_outcome(*type_id, self@.id as int) == Ok::<
                    Component,
                    &'static str,
                >(*cell),
                Err(text) => self@.store.cell_outcome(*type_id, self@.id as int) == Err::<
                    Component,
                    &'static str,
                >(text),
            },
    {
        self.entities.cell(type_id, self.id)
    }

    /// Borrows the entity's component of type `T` for reading.
    ///
    /// Fails as [`QueryEntity::cell`] does when the entity holds no such
    /// component, and as [`Component::borrow`] does when the cell refuses
    /// the borrow.
    pub fn get_component<T: 'static>(&self) -> (r: Result<Ref<'_, T>, &'static str>)
        requires
            self@.store.wf(),
        ensures
            exists|id: TypeId|
                match #[trigger] self@.store.cell_outcome(id, self@.id as int) {
                    Ok(_) => r matches Err(text) ==> text == ALREADY_BORROWED || text
                        == TYPE_MISMATCH,
                    Err(text) => r matches Err(e) && e == text,
                },
    {
        let id = type_id_of::<T>();
        match self.cell(&id) {
            Ok(cell) => cell.borrow::<T>(),
            Err(text) => Err(text),
        }
    }

    /// Borrows the entity's component of type `T` for writing.
    ///
    /// Fails as [`QueryEntity::cell`] does when the entity holds no such
    /// component, and as [`Component::borrow_mut`] does when the cell
    /// refuses the borrow.
    pub fn get_component_mut<T: 'static>(&self) -> (r: Result<RefMut<'_, T>, &'static str>)
        requires
            self@.store.wf(),
        ensures
            exists|id: TypeId|
                match #[trigger] self@.store.cell_outcome(id, self@.id as int) {
                    Ok(_) => r matches Err(text) ==> text == ALREADY_BORROWED || text
                        == TYPE_MISMATCH,
                    Err(text) => r matches Err(e) && e == text,
                },
    {
        let id = type_id_of::<T>();
        match self.cell(&id) {
            Ok(cell) => cell.borrow_mut::<T>(),
            Err(text) => Err(text),
        }
    }
}

impl<'a> Query<'a> {
    /// The query is consistent; see [`QueryView::wf`].
    pub open spec fn wf(&self) -> bool {
        self@.wf()
    }

    /// A query on `entities` that asks for no type yet and so selects every
    /// entity.
    pub fn new(entities: &'a Entities) -> (r: Self)
        requires
            entities.wf(),
        ensures
            r.wf(),
            r@ == (QueryView { filter: 0, types: Seq::empty(), store: entities@ }),
    {
        let r = Query { entities, map: 0, type_ids: Vec::new() };
        proof {
            lemma_mask_of_none(requested(r@.store, r@.types));
        }
        r
    }

    /// The filter: the OR of the bits of the requested types.
    pub fn filter(&self) -> (filter: u32)
        ensures
            filter == self@.filter,
    {
        self.map
    }

    /// The requested types, in the order of the requests.
    pub fn type_ids(&self) -> (types: &Vec<TypeId>)
        ensures
            types@ == self@.types,
    {
        &self.type_ids
    }

    /// Asks for the type `id`: its bit joins the filter and the type joins
    /// the list of requested types.
    ///
    /// Fails with [`NOT_REGISTERED`] when the store has no such type; the
    /// query is then left as it was.
    pub fn with_type(&mut self, id: TypeId) -> (r: Result<&mut Self, &'static str>)
        requires
            old(self).wf(),
        ensures
            match r {
                Ok(s) => {
                    &&& old(self)@.store.types.contains(id)
                    &&& s.wf()
                    &&& s@ == old(self)@.with(id)
                    &&& *final(self) == *final(s)
                },
                Err(text) => {
                    &&& !old(self)@.store.types.contains(id)
                    &&& text == NOT_REGISTERED
                    &&& *final(self) == *old(self)
                },
            },
    {
        match self.entities.get_bitmask(&id) {
            Some(bit_mask) => {
                self.map = self.map | bit_mask;
                self.type_ids.push(id);
                proof {
                    let before = old(self)@;
                    let store = before.store;
                    let k = store.types.index_of(id);
                    lemma_mask_of_set(requested(store, before.types), k);
                    assert(requested(store, self@.types) =~= requested(store, before.types).update(
                        k,
                        true,
                    )) by {
                        assert forall|n: int| 0 <= n < store.types.len() implies requested(
                            store,
                            self@.types,
                        )[n] == requested(store, before.types).update(k, true)[n] by {
                            let t = store.types[n];
                            if before.types.contains(t) {
                                let w = choose|w: int| 0 <= w < before.types.len() && before.types[w] == t;
                                assert(self@.types[w] == t);
                            }
                            if n == k {
                                assert(self@.types[before.types.len() as int] == t);
                            }
                        }
                    }
                    assert(self@ =~= before.with(id));
                }
                Ok(self)
            },
            None => Err(NOT_REGISTERED),
        }
    }

    /// Asks for the component type `T`; see [`Query::with_type`].
    pub fn with_component<T: 'static>(&mut self) -> (r: Result<&mut Self, &'static str>)
        requires
            old(self).wf(),
        ensures
            match r {
                Ok(s) => {
                    &&& s.wf()
                    &&& *final(self) == *final(s)
                    &&& exists|id: TypeId|
                        old(self)@.store.types.contains(id) && s@ == #[trigger] old(self)@.with(id)
                },
                Err(text) => {
                    &&& text == NOT_REGISTERED
                    &&& *final(self) == *old(self)
                    &&& exists|id: TypeId| !(#[trigger] old(self)@.store.types.contains(id))
                },
            },
    {
        let id = type_id_of::<T>();
        self.with_type(id)
    }

    fn select(&self) -> (indexes: Vec<usize>)
        requires
            self.wf(),
        ensures
            indexes@ == self@.indexes(),
            self@.store.masks.len() <= usize::MAX,
    {
        let mut indexes: Vec<usize> = Vec::new();
        let mut i: usize = 0;
        while i < self.entities.map.len()
            invariant
                i <= self.entities.map.len(),
                indexes@ == matching(self.entities.map@.take(i as int), self.map),
            decreases self.entities.map.len() - i,
        {
            proof {
                let masks = self.entities.map@;
                assert(masks.take(i + 1).drop_last() =~= masks.take(i as int));
            }
            if mask_covers(self.entities.map[i], self.map) {
                indexes.push(i);
            }
            i += 1;
        }
        proof {
            let masks = self.entities.map@;
            assert(masks.take(masks.len() as int) =~= masks);
        }
        indexes
    }

    /// Runs the query and hands out the cells of the selected entities.
    ///
    /// The first part of the result holds the entities whose mask covers the
    /// filter, in ascending order. The second part holds one column per
    /// requested type, in the order of the requests; each column holds, for
    /// the selected entities in the same order, the cell of that type.
    pub fn run(&self) -> (r: (Vec<usize>, Vec<Vec<Component>>))
        requires
            self.wf(),
        ensures
            r.0@ == self@.indexes(),
            forall|m: int|
                0 <= m < r.0@.len() ==> (#[trigger] r.0@[m]) < self@.store.masks.len() && covers(
                    self@.store.masks[r.0@[m] as int],
                    self@.filter,
                ),
            forall|m: int, n: int| 0 <= m < n < r.0@.len() ==> r.0@[m] < r.0@[n],
            forall|i: int|
                0 <= i < self@.store.masks.len() && covers(
                    #[trigger] self@.store.masks[i],
                    self@.filter,
                ) ==> r.0@.contains(i as usize),
            r.1@.len() == self@.types.len(),
            forall|j: int| 0 <= j < self@.types.len() ==> (#[trigger] r.1@[j])@ == self@.column(j),
    {
        let indexes = self.select();
        proof {
            lemma_matching(self@.store.masks, self@.filter);
        }
        let mut result: Vec<Vec<Component>> = Vec::new();
        let mut j: usize = 0;
        while j < self.type_ids.len()
            invariant
                self.wf(),
                indexes@ == self@.indexes(),
                self@.store.masks.len() <= usize::MAX,
                j <= self.type_ids.len(),
                result.len() == j,
                forall|n: int| 0 <= n < j ==> (#[trigger] result@[n])@ == self@.column(n),
            decreases self.type_ids.len() - j,
        {
            let components_to_keep = self.collect(j, &indexes);
            result.push(components_to_keep);
            j += 1;
        }
        (indexes, result)
    }

    fn collect(&self, j: usize, indexes: &Vec<usize>) -> (cells: Vec<Component>)
        requires
            self.wf(),
            indexes@ == self@.indexes(),
            j < self@.types.len(),
            self@.store.masks.len() <= usize::MAX,
        ensures
            cells@ == self@.column(j as int),
    {
        proof {
            lemma_matching(self@.store.masks, self@.filter);
        }
        let mut cells: Vec<Component> = Vec::new();
        let mut m: usize = 0;
        while m < indexes.len()
            invariant
                self.wf(),
                indexes@ == self@.indexes(),
                j < self@.types.len(),
                m <= indexes.len(),
                cells.len() == m,
                forall|n: int| 0 <= n < m ==> #[trigger] cells@[n] == self@.column(j as int)[n],
                forall|n: int|
                    0 <= n < indexes@.len() ==> {
                        let i = #[trigger] indexes@[n];
                        i < self@.store.masks.len() && covers(
                            self@.store.masks[i as int],
                            self@.filter,
                        )
                    },
            decreases indexes.len() - m,
        {
            let index = indexes[m];
            proof {
                lemma_selected_iff_holds_requested(self@, index as int);
                assert(self@.store.slot(self@.types[j as int], index as int).is_some());
            }
            match self.entities.cell(&self.type_ids[j], index) {
                Ok(cell) => {
                    cells.push(cell.clone());
                },
                Err(_) => {
                    // A selected entity holds a cell for every requested type.
                    assert(false);
                },
            }
            m += 1;
        }
        assert(cells@ =~= self@.column(j as int));
        cells
    }

    /// Runs the query and hands out one accessor per selected entity, for
    /// the entities whose mask covers the filter, in ascending order.
    pub fn run_query(&self) -> (r: Vec<QueryEntity<'a>>)
        requires
            self.wf(),
        ensures
            r@.len() == self@.indexes().len(),
            r@.len() <= self@.store.masks.len(),
            forall|m: int|
                0 <= m < r@.len() ==> (#[trigger] r@[m])@ == (QueryEntityView {
                    id: self@.indexes()[m],
                    store: self@.store,
                }),
            forall|m: int|
                0 <= m < r@.len() ==> (#[trigger] r@[m])@.id < self@.store.masks.len() && covers(
                    self@.store.masks[r@[m]@.id as int],
                    self@.filter,
                ),
            forall|m: int, n: int| 0 <= m < n < r@.len() ==> r@[m]@.id < r@[n]@.id,
            forall|i: int|
                0 <= i < self@.store.masks.len() && covers(
                    #[trigger] self@.store.masks[i],
                    self@.filter,
                ) ==> exists|m: int| 0 <= m < r@.len() && r@[m]@.id == i,
    {
        let indexes = self.select();
        proof {
            lemma_matching(self@.store.masks, self@.filter);
        }
        let mut found: Vec<QueryEntity<'a>> = Vec::new();
        let mut m: usize = 0;
        while m < indexes.len()
            invariant
                indexes@ == self@.indexes(),
                m <= indexes.len(),
                found.len() == m,
                forall|n: int|
                    0 <= n < m ==> (#[trigger] found@[n])@ == (QueryEntityView {
                        id: self@.indexes()[n],
                        store: self@.store,
                    }),
            decreases indexes.len() - m,
        {
            found.push(QueryEntity::new(indexes[m], self.entities));
            m += 1;
        }
        proof {
            lemma_matching(self@.store.masks, self@.filter);
            assert forall|i: int|
                0 <= i < self@.store.masks.len() && covers(
                    #[trigger] self@.store.masks[i],
                    self@.filter,
                ) implies exists|m: int| 0 <= m < found@.len() && found@[m]@.id == i by {
                let n = choose|n: int| 0 <= n < indexes@.len() && indexes@[n] == i as usize;
                assert(found@[n]@.id == i);
            }
        }
        found
    }
}

} // verus!
