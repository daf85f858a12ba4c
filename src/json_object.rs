use vstd::prelude::*;

verus! {

/// What a successful parse yields. The validator only decides whether the
/// text is well formed, so the object carries no fields.
#[derive(Debug, Clone, Copy, PartialEq, Eq)]
pub struct Object {}

} // verus!
