//! The messages with which the engine reports a failed operation.
use vstd::prelude::*;

verus! {

/// The component type has no column: it was never registered.
pub const NOT_REGISTERED: &'static str = "Component not registered";

/// The entity has no component of the requested type.
pub const NOT_FOUND: &'static str = "Component not found";

/// A component was attached before any entity was created.
pub const NO_ENTITY: &'static str = "Create component never called";

/// The component type already has a column and a bit.
pub const ALREADY_REGISTERED: &'static str = "Component already registered";

/// Every bit of the mask is taken by a registered component type.
pub const CAPACITY_EXHAUSTED: &'static str = "Component capacity exhausted";

/// The component is borrowed in a way that excludes the requested borrow.
pub const ALREADY_BORROWED: &'static str = "Component already borrowed";

/// The component holds a value of another type than the requested one.
pub const TYPE_MISMATCH: &'static str = "Component type mismatch";

/// No entity has the given index.
pub const NO_SUCH_ENTITY: &'static str = "Entity not found";

} // verus!
