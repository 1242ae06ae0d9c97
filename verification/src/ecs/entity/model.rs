//! The mathematical model of the component store: what it holds, when that
//! is consistent, and what each operation makes of it.
use vstd::prelude::*;
use std::any::TypeId;
use crate::ecs::bits::bit;
use crate::ecs::bits::covers;
use crate::ecs::bits::lemma_mask_of_bit;
use crate::ecs::bits::lemma_mask_of_none;
use crate::ecs::bits::lemma_mask_of_push;
use crate::ecs::bits::lemma_mask_of_set;
use crate::ecs::bits::mask_of;
use crate::ecs::bits::MAX_COMPONENT_TYPES;
use crate::ecs::cell::Component;
use crate::ecs::error::ALREADY_REGISTERED;
use crate::ecs::error::CAPACITY_EXHAUSTED;
use crate::ecs::error::NOT_FOUND;
use crate::ecs::error::NOT_REGISTERED;
use crate::ecs::error::NO_ENTITY;

verus! {

/// What a component store holds.
#[verifier::ext_equal]
pub struct EntitiesView {
    /// The registered component types, in registration order.
    pub types: Seq<TypeId>,
    /// One column per registered type, in the same order; `columns[k][i]` is
    /// the slot of entity `i` for type `k`.
    pub columns: Seq<Seq<Option<Component>>>,
    /// One mask per entity.
    pub masks: Seq<u32>,
    /// The entity that the next attached component goes to.
    pub cursor: int,
}

/// The lowest index whose mask is zero, or the length when there is none.
pub open spec fn first_free(masks: Seq<u32>) -> int
    decreases masks.len(),
{
    if masks.len() == 0 {
        0
    } else if masks[0] == 0 {
        0
    } else {
        1 + first_free(masks.drop_first())
    }
}

/// `first_free` is in range, nothing below it is free, and it is free itself
/// unless it is the length.
pub proof fn lemma_first_free(masks: Seq<u32>)
    ensures
        0 <= first_free(masks) <= masks.len(),
        forall|j: int| 0 <= j < first_free(masks) ==> masks[j] != 0,
        first_free(masks) < masks.len() ==> masks[first_free(masks)] == 0,
    decreases masks.len(),
{
    if masks.len() > 0 && masks[0] != 0 {
        let rest = masks.drop_first();
        lemma_first_free(rest);
        assert forall|j: int| 0 <= j < first_free(masks) implies masks[j] != 0 by {
            if j > 0 {
                assert(masks[j] == rest[j - 1]);
            }
        }
    }
}

/// An index with the three properties of `first_free` is `first_free`.
pub proof fn lemma_first_free_unique(masks: Seq<u32>, c: int)
    requires
        0 <= c <= masks.len(),
        forall|j: int| 0 <= j < c ==> masks[j] != 0,
        c < masks.len() ==> masks[c] == 0,
    ensures
        first_free(masks) == c,
{
    lemma_first_free(masks);
    let f = first_free(masks);
    if f < c {
        assert(masks[f] != 0);
    } else if c < f {
        assert(masks[c] != 0);
    }
}

impl EntitiesView {
    /// The store with no type and no entity.
    pub open spec fn empty() -> Self {
        EntitiesView { types: Seq::empty(), columns: Seq::empty(), masks: Seq::empty(), cursor: 0 }
    }

    /// The registration number of a type, counting from zero.
    pub open spec fn position(self, id: TypeId) -> Option<int> {
        if self.types.contains(id) {
            Some(self.types.index_of(id))
        } else {
            None
        }
    }

    /// The bit that a type was given when it was registered.
    pub open spec fn bit_of(self, id: TypeId) -> Option<u32> {
        match self.position(id) {
            Some(k) => Some(bit(k)),
            None => None,
        }
    }

    /// For entity `i`, which columns hold a cell.
    pub open spec fn presence(self, i: int) -> Seq<bool> {
        Seq::new(self.columns.len(), |k: int| self.columns[k][i].is_some())
    }

    /// The cell of entity `i` for a type, if the type is registered, the
    /// entity exists and it holds one.
    pub open spec fn slot(self, id: TypeId, i: int) -> Option<Component> {
        match self.position(id) {
            Some(k) => if 0 <= i < self.masks.len() {
                self.columns[k][i]
            } else {
                None
            },
            None => None,
        }
    }

    /// How reading the cell of entity `i` for a type ends.
    pub open spec fn cell_outcome(self, id: TypeId, i: int) -> Result<Component, &'static str> {
        if !self.types.contains(id) {
            Err(NOT_REGISTERED)
        } else {
            match self.slot(id, i) {
                Some(cell) => Ok(cell),
                None => Err(NOT_FOUND),
            }
        }
    }

    /// The store is consistent: every type has one column, every column has
    /// one slot per entity, and each mask is the OR of the bits of exactly
    /// the types whose column holds a cell for that entity.
    pub open spec fn wf(self) -> bool {
        &&& self.types.len() <= MAX_COMPONENT_TYPES
        &&& self.types.no_duplicates()
        &&& self.columns.len() == self.types.len()
        &&& forall|k: int|
            0 <= k < self.columns.len() ==> (#[trigger] self.columns[k]).len() == self.masks.len()
        &&& forall|i: int|
            0 <= i < self.masks.len() ==> #[trigger] self.masks[i] == mask_of(self.presence(i))
        &&& 0 <= self.cursor
    }

    /// A type can be registered when it is new and a bit is left for it.
    pub open spec fn can_register(self, id: TypeId) -> bool {
        !self.types.contains(id) && self.types.len() < MAX_COMPONENT_TYPES
    }

    /// How registering a type ends.
    pub open spec fn register_outcome(self, id: TypeId) -> Result<(), &'static str> {
        if self.types.contains(id) {
            Err(ALREADY_REGISTERED)
        } else if self.types.len() >= MAX_COMPONENT_TYPES {
            Err(CAPACITY_EXHAUSTED)
        } else {
            Ok(())
        }
    }

    /// The store after a type was registered: the type comes last and gets a
    /// column with an empty slot for every entity.
    pub open spec fn register(self, id: TypeId) -> Self {
        EntitiesView {
            types: self.types.push(id),
            columns: self.columns.push(Seq::new(self.masks.len(), |i: int| None)),
            masks: self.masks,
            cursor: self.cursor,
        }
    }

    /// The store after an entity was created: the cursor is at the lowest
    /// entity whose mask is zero, or at a new entity with empty slots when
    /// every mask is taken.
    pub open spec fn create(self) -> Self {
        let target = first_free(self.masks);
        if target < self.masks.len() {
            EntitiesView { cursor: target, ..self }
        } else {
            EntitiesView {
                types: self.types,
                columns: Seq::new(self.columns.len(), |k: int| self.columns[k].push(None)),
                masks: self.masks.push(0),
                cursor: target,
            }
        }
    }

    /// A cell of a type can be attached when the type is registered and the
    /// cursor is at an entity.
    pub open spec fn can_attach(self, id: TypeId) -> bool {
        self.types.contains(id) && 0 <= self.cursor < self.masks.len()
    }

    /// How attaching a cell of a type ends.
    pub open spec fn attach_outcome(self, id: TypeId) -> Result<(), &'static str> {
        if !self.types.contains(id) {
            Err(NOT_REGISTERED)
        } else if self.cursor >= self.masks.len() {
            Err(NO_ENTITY)
        } else {
            Ok(())
        }
    }

    /// The store after a cell of a type was attached to the entity at the
    /// cursor: the cell is in the slot and the type's bit is in the mask.
    pub open spec fn attach(self, id: TypeId, cell: Component) -> Self {
        let k = self.types.index_of(id);
        EntitiesView {
            types: self.types,
            columns: self.columns.update(k, self.columns[k].update(self.cursor, Some(cell))),
            masks: self.masks.update(self.cursor, self.masks[self.cursor] | bit(k)),
            cursor: self.cursor,
        }
    }

    /// The store after entity `i` was removed: its slots are empty and its
    /// mask is zero.
    pub open spec fn remove(self, i: int) -> Self {
        EntitiesView {
            types: self.types,
            columns: Seq::new(self.columns.len(), |k: int| self.columns[k].update(i, None)),
            masks: self.masks.update(i, 0),
            cursor: self.cursor,
        }
    }
}

/// One call on the component store, as far as it bears on what the store
/// holds.
pub enum Operation {
    /// Register a component type.
    Register(TypeId),
    /// Create an entity.
    Create,
    /// Attach a cell of a type to the entity at the cursor.
    Attach(TypeId, Component),
    /// Remove the entity with an index.
    Remove(int),
}

impl EntitiesView {
    /// The store after one call. A call that fails leaves the store as it
    /// was.
    pub open spec fn step(self, op: Operation) -> Self {
        match op {
            Operation::Register(id) => if self.can_register(id) {
                self.register(id)
            } else {
                self
            },
            Operation::Create => self.create(),
            Operation::Attach(id, cell) => if self.can_attach(id) {
                self.attach(id, cell)
            } else {
                self
            },
            Operation::Remove(i) => if 0 <= i < self.masks.len() {
                self.remove(i)
            } else {
                self
            },
        }
    }

    /// The store after a sequence of calls, the first call first.
    pub open spec fn steps(self, ops: Seq<Operation>) -> Self
        decreases ops.len(),
    {
        if ops.len() == 0 {
            self
        } else {
            self.steps(ops.drop_last()).step(ops.last())
        }
    }

    /// Registering a type keeps the store consistent, and gives the type
    /// the position and the bit that follow those of the types registered
    /// before it.
    pub proof fn lemma_register(self, id: TypeId)
        requires
            self.wf(),
            self.can_register(id),
        ensures
            self.register(id).wf(),
            self.register(id).position(id) == Some(self.types.len() as int),
            self.register(id).bit_of(id) == Some(bit(self.types.len() as int)),
    {
        let after = self.register(id);
        assert(after.types[self.types.len() as int] == id);
        assert forall|i: int| 0 <= i < after.masks.len() implies #[trigger] after.masks[i]
            == mask_of(after.presence(i)) by {
            lemma_mask_of_push(self.presence(i), false);
            assert(after.presence(i) =~= self.presence(i).push(false));
        }
    }

    /// Creating an entity keeps the store consistent.
    pub proof fn lemma_create(self)
        requires
            self.wf(),
        ensures
            self.create().wf(),
    {
        let after = self.create();
        lemma_first_free(self.masks);
        assert forall|i: int| 0 <= i < after.masks.len() implies #[trigger] after.masks[i]
            == mask_of(after.presence(i)) by {
            if i < self.masks.len() {
                assert(after.presence(i) =~= self.presence(i));
            } else {
                lemma_mask_of_none(after.presence(i));
            }
        }
    }

    /// Attaching a cell keeps the store consistent.
    pub proof fn lemma_attach(self, id: TypeId, cell: Component)
        requires
            self.wf(),
            self.can_attach(id),
        ensures
            self.attach(id, cell).wf(),
    {
        let after = self.attach(id, cell);
        let k = self.types.index_of(id);
        assert(self.columns[k].len() == self.masks.len());
        assert forall|i: int| 0 <= i < after.masks.len() implies #[trigger] after.masks[i]
            == mask_of(after.presence(i)) by {
            if i == self.cursor {
                lemma_mask_of_set(self.presence(i), k);
                assert(after.presence(i) =~= self.presence(i).update(k, true));
            } else {
                assert(after.presence(i) =~= self.presence(i));
            }
        }
    }

    /// Removing an entity keeps the store consistent.
    pub proof fn lemma_remove(self, i: int)
        requires
            self.wf(),
            0 <= i < self.masks.len(),
        ensures
            self.remove(i).wf(),
    {
        let after = self.remove(i);
        assert forall|k: int| 0 <= k < after.columns.len() implies (#[trigger] after.columns[k]).len()
            == after.masks.len() by {
            assert(self.columns[k].len() == self.masks.len());
        }
        assert forall|j: int| 0 <= j < after.masks.len() implies #[trigger] after.masks[j]
            == mask_of(after.presence(j)) by {
            if j == i {
                lemma_mask_of_none(after.presence(j));
            } else {
                assert(after.presence(j) =~= self.presence(j));
            }
        }
    }

    /// No call, whether it succeeds or fails, makes a consistent store
    /// inconsistent.
    pub proof fn lemma_step_keeps_consistency(self, op: Operation)
        requires
            self.wf(),
        ensures
            self.step(op).wf(),
    {
        match op {
            Operation::Register(id) => {
                if self.can_register(id) {
                    self.lemma_register(id);
                }
            },
            Operation::Create => {
                self.lemma_create();
            },
            Operation::Attach(id, cell) => {
                if self.can_attach(id) {
                    self.lemma_attach(id, cell);
                }
            },
            Operation::Remove(i) => {
                if 0 <= i < self.masks.len() {
                    self.lemma_remove(i);
                }
            },
        }
    }

    /// Mask and columns agree at every point: after any sequence of calls on
    /// a consistent store, and so after any sequence of calls on the empty
    /// store, the store is consistent.
    pub proof fn lemma_steps_keep_consistency(self, ops: Seq<Operation>)
        requires
            self.wf(),
        ensures
            self.steps(ops).wf(),
            EntitiesView::empty().wf(),
        decreases ops.len(),
    {
        if ops.len() > 0 {
            self.lemma_steps_keep_consistency(ops.drop_last());
            self.steps(ops.drop_last()).lemma_step_keeps_consistency(ops.last());
        }
    }

    /// In a consistent store, bit `k` of the mask of entity `i` is set
    /// exactly when `k` is the position of a registered type and the column
    /// of that type holds a cell for the entity.
    pub proof fn lemma_mask_bit_means_cell(self, i: int, k: int)
        requires
            self.wf(),
            0 <= i < self.masks.len(),
            0 <= k < 32,
        ensures
            covers(self.masks[i], bit(k)) <==> (k < self.types.len() && self.columns[k][i].is_some()),
    {
        lemma_mask_of_bit(self.presence(i), k);
    }

    /// The type at position `k` has bit `k`.
    pub proof fn lemma_bit_of_position(self, k: int)
        requires
            self.wf(),
            0 <= k < self.types.len(),
        ensures
            self.position(self.types[k]) == Some(k),
            self.bit_of(self.types[k]) == Some(bit(k)),
    {
        assert(self.types.contains(self.types[k]));
    }

    /// A call leaves every registered type registered, at its position and
    /// with its bit.
    pub proof fn lemma_step_keeps_bits(self, op: Operation, id: TypeId)
        requires
            self.wf(),
            self.types.contains(id),
        ensures
            self.step(op).types.contains(id),
            self.step(op).position(id) == self.position(id),
            self.step(op).bit_of(id) == self.bit_of(id),
    {
        let after = self.step(op);
        let k = self.types.index_of(id);
        self.lemma_step_keeps_consistency(op);
        assert(after.types[k] == id);
        after.lemma_bit_of_position(k);
    }

    /// The bit of a type never changes: whatever calls follow, a registered
    /// type keeps its position and its bit.
    pub proof fn lemma_bits_are_stable(self, ops: Seq<Operation>, id: TypeId)
        requires
            self.wf(),
            self.types.contains(id),
        ensures
            self.steps(ops).types.contains(id),
            self.steps(ops).position(id) == self.position(id),
            self.steps(ops).bit_of(id) == self.bit_of(id),
        decreases ops.len(),
    {
        if ops.len() > 0 {
            self.lemma_bits_are_stable(ops.drop_last(), id);
            self.lemma_steps_keep_consistency(ops.drop_last());
            self.steps(ops.drop_last()).lemma_step_keeps_bits(ops.last(), id);
        }
    }

    /// Creating an entity takes the lowest entity whose mask is zero and
    /// adds none; only when no mask is zero does it add one, with mask zero,
    /// at the end.
    pub proof fn lemma_create_reuses_lowest_free(self)
        requires
            self.wf(),
        ensures
            0 <= self.create().cursor <= self.masks.len(),
            forall|j: int| 0 <= j < self.create().cursor ==> self.masks[j] != 0,
            self.create().cursor < self.masks.len() ==> {
                &&& self.masks[self.create().cursor] == 0
                &&& self.create().masks == self.masks
                &&& self.create().columns == self.columns
            },
            self.create().cursor == self.masks.len() ==> {
                &&& self.create().masks == self.masks.push(0)
                &&& forall|k: int|
                    0 <= k < self.columns.len() ==> #[trigger] self.create().columns[k]
                        == self.columns[k].push(None)
            },
            self.create().types == self.types,
    {
        lemma_first_free(self.masks);
    }

    /// An entity that was removed is taken again by the next creation,
    /// unless a lower entity is free as well; no entity is added.
    pub proof fn lemma_removed_entity_is_reused(self, i: int)
        requires
            self.wf(),
            0 <= i < self.masks.len(),
        ensures
            self.remove(i).create().masks.len() == self.masks.len(),
            self.remove(i).create().cursor <= i,
            self.remove(i).create().cursor < i ==> self.masks[self.remove(i).create().cursor] == 0,
            forall|j: int| 0 <= j < self.remove(i).create().cursor ==> self.masks[j] != 0,
    {
        let removed = self.remove(i);
        lemma_first_free(removed.masks);
        let c = first_free(removed.masks);
        if c > i {
            assert(removed.masks[i] != 0);
        }
        assert forall|j: int| 0 <= j < c implies self.masks[j] != 0 by {
            assert(removed.masks[j] != 0);
        }
    }

    /// A cell that was attached is the cell that the entity holds for the
    /// type, the type's bit is in the entity's mask, and every other slot is
    /// as it was.
    pub proof fn lemma_attached_cell_is_held(self, id: TypeId, cell: Component)
        requires
            self.wf(),
            self.can_attach(id),
        ensures
            self.attach(id, cell).slot(id, self.cursor) == Some(cell),
            self.attach(id, cell).cell_outcome(id, self.cursor) == Ok::<Component, &'static str>(
                cell,
            ),
            covers(
                self.attach(id, cell).masks[self.cursor],
                self.attach(id, cell).bit_of(id).unwrap(),
            ),
            forall|other: TypeId, i: int|
                other != id || i != self.cursor ==> #[trigger] self.attach(id, cell).slot(other, i)
                    == self.slot(other, i),
    {
        let after = self.attach(id, cell);
        let k = self.types.index_of(id);
        self.lemma_attach(id, cell);
        assert(self.columns[k].len() == self.masks.len());
        after.lemma_mask_bit_means_cell(self.cursor, k);
        assert forall|other: TypeId, i: int| other != id || i != self.cursor implies #[trigger] after.slot(
            other,
            i,
        ) == self.slot(other, i) by {
            if self.types.contains(other) && 0 <= i < self.masks.len() {
                let n = self.types.index_of(other);
                if n == k {
                    assert(self.columns[k].len() == self.masks.len());
                }
            }
        }
    }
}

} // verus!
