use vstd::prelude::*;

verus! {

/// The SQL type of the state of a friendship.
pub struct Relationship;

/// The SQL type of a privacy setting.
pub struct VisibilityEnum;

} // verus!
