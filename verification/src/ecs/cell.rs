//! Type identities and the dynamically typed cells that hold component and
//! resource values.
//!
//! The values themselves are kept by the standard library: a component lives
//! in a reference-counted `RefCell`, a resource in a `Box`, both behind
//! `dyn Any`. Nothing here is proved about what a cell holds. A cell is known
//! to the rest of the engine only by its identity, and every function that
//! looks inside one says what it returns for each possible outcome.
use vstd::prelude::*;
use std::any::Any;
use std::any::TypeId;
use std::cell::Ref;
use std::cell::RefCell;
use std::cell::RefMut;
use std::rc::Rc;
use crate::ecs::error::ALREADY_BORROWED;
use crate::ecs::error::TYPE_MISMATCH;

verus! {

/// `std::any::TypeId`, the identity of a Rust type. Two identities are equal
/// exactly when they stand for the same type.
#[verifier::external_type_specification]
#[verifier::external_body]
pub struct ExTypeId(TypeId);

/// `std::cell::Ref`, the guard of a shared borrow of a cell's value.
#[verifier::external_type_specification]
#[verifier::external_body]
#[verifier::reject_recursive_types(T)]
pub struct ExRef<'b, T: ?Sized>(Ref<'b, T>);

/// `std::cell::RefMut`, the guard of an exclusive borrow of a cell's value.
#[verifier::external_type_specification]
#[verifier::external_body]
#[verifier::reject_recursive_types(T)]
pub struct ExRefMut<'b, T: ?Sized + 'b>(RefMut<'b, T>);

/// A shared, dynamically typed component value: an `Rc<RefCell<dyn Any>>`.
///
/// The verifier cannot name `dyn Any`, so the cell is opaque to it. Two
/// handles are equal when they point to the same cell, whatever the cell
/// holds at the time.
#[verifier::external_body]
#[derive(Debug)]
pub struct Component {
    cell: Rc<RefCell<dyn Any>>,
}

/// A dynamically typed resource value: a `Box<dyn Any>`, opaque to the
/// verifier for the same reason as [`Component`].
#[verifier::external_body]
#[derive(Debug)]
pub struct Resource {
    value: Box<dyn Any>,
}

/// Why a typed borrow of a component was refused.
#[derive(Clone, Copy, Debug, PartialEq, Eq)]
pub enum BorrowFailure {
    /// A live borrow of the same cell excludes the requested one.
    InUse,
    /// The cell holds a value of another type.
    WrongType,
}

/// Calls `TypeId::of::<T>()`. Nothing is claimed of the identity returned.
#[verifier::external_body]
pub(crate) fn type_id_of<T: 'static>() -> (id: TypeId) {
    TypeId::of::<T>()
}

/// Calls `==` on two `TypeId`s (`<TypeId as PartialEq>::eq`), which is true
/// exactly when both are the identity of one type.
#[verifier::external_body]
pub(crate) fn same_type(a: &TypeId, b: &TypeId) -> (same: bool)
    ensures
        same == (*a == *b),
{
    a == b
}

/// Calls `Rc::new(RefCell::new(data))` and forgets the value's type. Nothing
/// is claimed of the cell returned.
#[verifier::external_body]
pub(crate) fn new_component<T: 'static>(data: T) -> (cell: Component) {
    Component { cell: Rc::new(RefCell::new(data)) }
}

/// Calls `Rc::clone`, which returns another handle to the same cell.
#[verifier::external_body]
pub(crate) fn share_component(cell: &Component) -> (shared: Component)
    ensures
        shared == *cell,
{
    Component { cell: Rc::clone(&cell.cell) }
}

/// Calls `RefCell::try_borrow` and narrows the guard to `T` with
/// `Ref::filter_map` over `<dyn Any>::downcast_ref`. Which of the three
/// outcomes comes back depends on the borrows that are live and on the value
/// in the cell; nothing is claimed of it.
#[verifier::external_body]
pub(crate) fn try_read<'a, T: 'static>(cell: &'a Component) -> (outcome: Result<
    Ref<'a, T>,
    BorrowFailure,
>) {
    match cell.cell.try_borrow() {
        Ok(guard) => match Ref::filter_map(guard, <dyn Any>::downcast_ref::<T>) {
            Ok(typed) => Ok(typed),
            Err(_) => Err(BorrowFailure::WrongType),
        },
        Err(_) => Err(BorrowFailure::InUse),
    }
}

/// Calls `RefCell::try_borrow_mut` and narrows the guard to `T` with
/// `RefMut::filter_map` over `<dyn Any>::downcast_mut`. Nothing is claimed of
/// the outcome.
#[verifier::external_body]
pub(crate) fn try_write<'a, T: 'static>(cell: &'a Component) -> (outcome: Result<
    RefMut<'a, T>,
    BorrowFailure,
>) {
    match cell.cell.try_borrow_mut() {
        Ok(guard) => match RefMut::filter_map(guard, <dyn Any>::downcast_mut::<T>) {
            Ok(typed) => Ok(typed),
            Err(_) => Err(BorrowFailure::WrongType),
        },
        Err(_) => Err(BorrowFailure::InUse),
    }
}

/// Calls `Box::new(data)` and forgets the value's type. Nothing is claimed of
/// the resource returned.
#[verifier::external_body]
pub(crate) fn new_resource<T: 'static>(data: T) -> (resource: Resource) {
    Resource { value: Box::new(data) }
}

/// Calls `<dyn Any>::downcast_ref::<T>()`, which is `None` when the resource
/// holds a value of another type.
#[verifier::external_body]
pub(crate) fn resource_ref<T: 'static>(resource: &Resource) -> (value: Option<&T>) {
    resource.value.downcast_ref::<T>()
}

/// Calls `<dyn Any>::downcast_mut::<T>()`, which is `None` when the resource
/// holds a value of another type. Nothing is claimed of the resource after
/// the borrow ends.
#[verifier::external_body]
pub(crate) fn resource_mut<T: 'static>(resource: &mut Resource) -> (value: Option<&mut T>) {
    resource.value.downcast_mut::<T>()
}

/// Calls `<Ref<T> as Deref>::deref`, which gives access to the borrowed
/// value. Nothing is claimed of the value: it is whatever the cell holds.
#[verifier::external_body]
pub(crate) fn guarded<'a, 'b, T>(guard: &'a Ref<'b, T>) -> (value: &'a T) {
    std::ops::Deref::deref(guard)
}

/// Calls `<RefMut<T> as DerefMut>::deref_mut`, which gives access to the
/// borrowed value for writing. Nothing is claimed of the value.
#[verifier::external_body]
pub(crate) fn guarded_mut<'a, 'b, T>(guard: &'a mut RefMut<'b, T>) -> (value: &'a mut T) {
    std::ops::DerefMut::deref_mut(guard)
}

impl BorrowFailure {
    /// The message that reports this failure.
    pub open spec fn text(self) -> &'static str {
        match self {
            BorrowFailure::InUse => ALREADY_BORROWED,
            BorrowFailure::WrongType => TYPE_MISMATCH,
        }
    }

    /// The message that reports this failure.
    pub fn message(self) -> (text: &'static str)
        ensures
            text == self.text(),
    {
        match self {
            BorrowFailure::InUse => ALREADY_BORROWED,
            BorrowFailure::WrongType => TYPE_MISMATCH,
        }
    }

    /// What a typed borrow hands to its caller for what the cell answered:
    /// the guard that the cell gave, or the message of the failure.
    pub fn report<G>(outcome: Result<G, BorrowFailure>) -> (r: Result<G, &'static str>)
        ensures
            r == match outcome {
                Ok(guard) => Ok::<G, &'static str>(guard),
                Err(failure) => Err(failure.text()),
            },
    {
        match outcome {
            Ok(guard) => Ok(guard),
            Err(failure) => Err(failure.message()),
        }
    }
}

impl Clone for Component {
    /// Another handle to the same cell.
    fn clone(&self) -> (shared: Self)
        ensures
            shared == *self,
    {
        share_component(self)
    }
}

impl Component {
    /// Borrows the value for reading, as a `T`.
    ///
    /// Fails with [`ALREADY_BORROWED`] while the value is borrowed for
    /// writing and with [`TYPE_MISMATCH`] when it is not a `T`.
    pub fn borrow<T: 'static>(&self) -> (r: Result<Ref<'_, T>, &'static str>)
        ensures
            r matches Err(text) ==> text == ALREADY_BORROWED || text == TYPE_MISMATCH,
    {
        BorrowFailure::report(try_read::<T>(self))
    }

    /// Borrows the value for writing, as a `T`.
    ///
    /// Fails with [`ALREADY_BORROWED`] while the value is borrowed in any
    /// way and with [`TYPE_MISMATCH`] when it is not a `T`.
    pub fn borrow_mut<T: 'static>(&self) -> (r: Result<RefMut<'_, T>, &'static str>)
        ensures
            r matches Err(text) ==> text == ALREADY_BORROWED || text == TYPE_MISMATCH,
    {
        BorrowFailure::report(try_write::<T>(self))
    }
}

} // verus!
