use vstd::prelude::*;

verus! {

/// Index of a joint in a skeleton.
#[derive(Clone, Copy, Debug)]
pub struct JointId(pub usize);

} // verus!
