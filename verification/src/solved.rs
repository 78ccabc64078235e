//! A paint context over geometry that the engine has already solved.
use crate::context::PaintContext;
use crate::geometry::{EngineLayout, LayoutId};
use vstd::prelude::*;

verus! {

/// The geometry of one finished layout pass, as plain values, together with
/// a record of what was asked of it. A paint pass can run on it without the
/// engine at hand.
pub struct SolvedGeometry {
    solved: Vec<(LayoutId, EngineLayout)>,
    asked: Vec<LayoutId>,
}

/// The geometry that `solved` has for `id`: that of the entry recorded last
/// for it, or none where no entry names it.
pub open spec fn found(solved: Seq<(LayoutId, EngineLayout)>, id: LayoutId) -> Option<
    EngineLayout,
>
    decreases solved.len(),
{
    if solved.len() == 0 {
        None
    } else if solved.last().0 == id {
        Some(solved.last().1)
    } else {
        found(solved.drop_last(), id)
    }
}

/// `anyhow::Error::msg`: makes an error out of a message, here one that
/// names the identifier. Nothing is claimed of the error.
#[verifier::external_body]
fn unsolved(id: LayoutId) -> anyhow::Error {
    anyhow::Error::msg(format!("no computed layout for {:?}", id))
}

impl SolvedGeometry {
    /// The entries, in the order they were recorded.
    pub closed spec fn solved(&self) -> Seq<(LayoutId, EngineLayout)> {
        self.solved@
    }

    /// The identifiers that were asked for, oldest first.
    pub closed spec fn asked(&self) -> Seq<LayoutId> {
        self.asked@
    }

    /// A context that knows no geometry and was asked nothing.
    pub fn new() -> (cx: Self)
        ensures
            cx.solved() == Seq::<(LayoutId, EngineLayout)>::empty(),
            cx.asked() == Seq::<LayoutId>::empty(),
    {
        SolvedGeometry { solved: Vec::new(), asked: Vec::new() }
    }

    /// Records that the engine solved `geometry` for `id`. A later entry for
    /// the same identifier takes the place of an earlier one.
    pub fn record(&mut self, id: LayoutId, geometry: EngineLayout)
        ensures
            final(self).solved() == old(self).solved().push((id, geometry)),
            final(self).asked() == old(self).asked(),
    {
        self.solved.push((id, geometry));
    }

    /// How often geometry was asked for.
    pub fn queries(&self) -> (count: usize)
        ensures
            count == self.asked().len(),
    {
        self.asked.len()
    }

    /// The geometry recorded for `id`, without counting as a query.
    pub fn lookup(&self, id: LayoutId) -> (geometry: Option<EngineLayout>)
        ensures
            geometry == found(self.solved(), id),
    {
        let mut i: usize = self.solved.len();
        proof {
            assert(self.solved@.subrange(0, i as int) == self.solved@);
        }
        while i > 0
            invariant
                i <= self.solved@.len(),
                found(self.solved@, id) == found(self.solved@.subrange(0, i as int), id),
            decreases i,
        {
            let entry = self.solved[i - 1];
            proof {
                let part = self.solved@.subrange(0, i as int);
                assert(part.last() == self.solved@[i - 1]);
                assert(part.drop_last() == self.solved@.subrange(0, i - 1));
            }
            if entry.0 == id {
                return Some(entry.1);
            }
            i = i - 1;
        }
        None
    }
}

impl PaintContext for SolvedGeometry {
    /// The query is noted down, the entries stay, and the answer is the
    /// geometry recorded for `id`; it is an error exactly where there is none.
    open spec fn answers(
        self,
        id: LayoutId,
        after: Self,
        outcome: Result<EngineLayout, anyhow::Error>,
    ) -> bool {
        &&& after.solved() == self.solved()
        &&& after.asked() == self.asked().push(id)
        &&& match found(self.solved(), id) {
            Some(geometry) => outcome == Ok::<EngineLayout, anyhow::Error>(geometry),
            None => outcome is Err,
        }
    }

    fn computed_layout(&mut self, id: LayoutId) -> (outcome: Result<EngineLayout, anyhow::Error>) {
        self.asked.push(id);
        match self.lookup(id) {
            Some(geometry) => Ok(geometry),
            None => Err(unsolved(id)),
        }
    }
}

} // verus!
