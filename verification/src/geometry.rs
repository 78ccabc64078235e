//! Plain values that stand for what the layout engine hands out.
use vstd::prelude::*;

verus! {

/// The token by which the layout engine knows one node during one pass.
#[derive(Clone, Copy, Debug, PartialEq, Eq, Structural, Hash)]
pub struct LayoutId(pub u64);

/// A rectangle as the engine solved it. Each field holds the bit pattern of a
/// single-precision number, so that the value travels through unchanged; the
/// all-zero pattern is the number zero.
#[derive(Clone, Copy, Debug, PartialEq, Eq, Structural)]
pub struct RectF {
    pub origin_x: u32,
    pub origin_y: u32,
    pub width: u32,
    pub height: u32,
}

/// The geometry solved for one layout identifier: where it lies and when it is
/// painted among its siblings.
#[derive(Clone, Copy, Debug, PartialEq, Eq, Structural)]
pub struct EngineLayout {
    pub bounds: RectF,
    pub order: u32,
}

impl RectF {
    /// The empty rectangle at the origin.
    pub open spec fn zero() -> RectF {
        RectF { origin_x: 0, origin_y: 0, width: 0, height: 0 }
    }
}

impl EngineLayout {
    /// The geometry that stands in when the engine has none: an empty
    /// rectangle at the origin, painted first.
    pub open spec fn zero() -> EngineLayout {
        EngineLayout { bounds: RectF::zero(), order: 0 }
    }
}

impl Default for RectF {
    fn default() -> (r: RectF)
        ensures
            r == RectF::zero(),
    {
        RectF { origin_x: 0, origin_y: 0, width: 0, height: 0 }
    }
}

impl Default for EngineLayout {
    fn default() -> (r: EngineLayout)
        ensures
            r == EngineLayout::zero(),
    {
        EngineLayout { bounds: RectF::default(), order: 0 }
    }
}

} // verus!
