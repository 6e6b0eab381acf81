//! The ray-tracing pass's place in the render graph.

use vstd::prelude::*;

verus! {

/// Label of the ray-tracing compute pass in the render graph.
#[derive(Clone, PartialEq, Eq, Structural, Debug, Hash)]
pub struct NEVRNodeLabel;

} // verus!
