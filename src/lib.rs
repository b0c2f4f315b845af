//! Parent/child relations between the entities of one id space.
//!
//! Every entity is either a parent, owning zero or more children, or a child,
//! owning exactly one parent. Nothing deeper is allowed, and nothing is ever
//! unlinked: an entity's role, once set, is permanent. Two stores are
//! offered: `VecRelations` keeps each parent's children in the order they
//! were attached, from any slots; `RangeRelations` keeps them as one
//! interval of consecutive slots, in constant space.
use vstd::prelude::*;

pub mod id;
pub mod laws;
pub mod ordered;
pub mod range;
pub mod relation;
pub mod store;

pub use id::Id;
pub use ordered::{VecRelation, VecRelations};
pub use range::{IdRange, RangeRelation, RangeRelations};
pub use relation::RelationError;

verus! {

} // verus!
