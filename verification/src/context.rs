//! What the library asks of the context that a paint pass runs in.
use crate::geometry::{EngineLayout, LayoutId};
use vstd::prelude::*;

verus! {

#[verifier::external_type_specification]
#[verifier::external_body]
pub struct ExAnyhowError(anyhow::Error);

/// The paint pass's access to the layout engine. Elements paint through a
/// context of their own choosing; the library itself only asks it for solved
/// geometry.
pub trait PaintContext: Sized {
    /// What one call of `computed_layout` may do: the context before it, the
    /// identifier asked for, the context after it and the engine's answer.
    /// A context that states nothing of itself allows everything.
    open spec fn answers(
        self,
        id: LayoutId,
        after: Self,
        outcome: Result<EngineLayout, anyhow::Error>,
    ) -> bool {
        true
    }

    /// Asks the engine for the geometry it solved for `id`; fails where the
    /// engine has none.
    fn computed_layout(&mut self, id: LayoutId) -> (outcome: Result<EngineLayout, anyhow::Error>)
        ensures
            old(self).answers(id, *final(self), outcome),
    ;
}

} // verus!
