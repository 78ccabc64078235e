//! The record an element makes of one layout pass, and the geometry it
//! remembers from the engine.
use crate::context::PaintContext;
use crate::geometry::{EngineLayout, LayoutId, RectF};
use std::marker::PhantomData;
use vstd::prelude::*;

verus! {

/// What one element produced in a layout pass: the identifier the engine gave
/// it, the element's own data, and, once it has been asked for, the geometry
/// the engine solved.
pub struct Layout<V, D> {
    id: LayoutId,
    engine_layout: Option<EngineLayout>,
    element_data: Option<D>,
    view_type: PhantomData<V>,
}

/// The geometry that is kept when the engine answers with `outcome`: its
/// answer, or the zero geometry where it has none.
pub open spec fn answered(outcome: Result<EngineLayout, anyhow::Error>) -> EngineLayout {
    match outcome {
        Ok(geometry) => geometry,
        Err(_) => EngineLayout::zero(),
    }
}

/// The cache after an engine answer is offered to it: a cache that is filled
/// keeps what it has, an empty one takes the answer.
pub open spec fn cache_after(
    cache: Option<EngineLayout>,
    outcome: Result<EngineLayout, anyhow::Error>,
) -> Option<EngineLayout> {
    match cache {
        Some(geometry) => Some(geometry),
        None => Some(answered(outcome)),
    }
}

/// Whether one query for `id` takes the context from `cx` to `cx_after` and
/// leaves `cache` filled with its answer.
pub open spec fn asked_once<P: PaintContext>(
    cx: P,
    id: LayoutId,
    cx_after: P,
    cache: Option<EngineLayout>,
) -> bool {
    exists|outcome: Result<EngineLayout, anyhow::Error>|
        #[trigger] cx.answers(id, cx_after, outcome) && cache == Some(answered(outcome))
}

/// Once the cache is filled, no later answer of the engine changes it: a
/// second read gives what the first one gave.
pub proof fn lemma_cache_is_fixed(
    cache: Option<EngineLayout>,
    first: Result<EngineLayout, anyhow::Error>,
    second: Result<EngineLayout, anyhow::Error>,
)
    ensures
        cache_after(cache, first) is Some,
        cache_after(cache_after(cache, first), second) == cache_after(cache, first),
{
}

/// The record that `update` hands to its closure holds no payload, so the
/// closure cannot meet what a second `update` on it requires.
pub proof fn lemma_lent_record_has_no_payload<V, D>(
    record: Layout<V, D>,
    holder: Layout<V, D>,
    data: D,
)
    requires
        record.lends(holder, data),
    ensures
        holder.payload() is None,
        record.payload() is Some,
{
}

impl<V, D> Layout<V, D> {
    /// The identifier the engine gave this node.
    pub closed spec fn ident(&self) -> LayoutId {
        self.id
    }

    /// The geometry remembered from the engine, if it was asked for yet.
    pub closed spec fn geometry(&self) -> Option<EngineLayout> {
        self.engine_layout
    }

    /// The element's own data; absent only while `update` has lent it out.
    pub closed spec fn payload(&self) -> Option<D> {
        self.element_data
    }

    /// Whether `holder` and `data` are this record taken apart for `update`:
    /// the holder is the record without its payload, the data is the payload.
    pub open spec fn lends(&self, holder: Self, data: D) -> bool {
        &&& holder.ident() == self.ident()
        &&& holder.geometry() == self.geometry()
        &&& holder.payload() is None
        &&& self.payload() == Some(data)
    }

    /// A fresh record for `id`, holding `element_data` and no geometry.
    pub fn new(id: LayoutId, element_data: D) -> (layout: Self)
        ensures
            layout.ident() == id,
            layout.geometry() is None,
            layout.payload() == Some(element_data),
    {
        Self { id, engine_layout: None, element_data: Some(element_data), view_type: PhantomData }
    }

    /// The identifier the engine gave this node.
    pub fn id(&self) -> (id: LayoutId)
        ensures
            id == self.ident(),
    {
        self.id
    }

    /// Takes in what the engine answered for this record's identifier and
    /// returns the geometry that is remembered from now on.
    pub fn settle(&mut self, outcome: Result<EngineLayout, anyhow::Error>) -> (geometry:
        EngineLayout)
        ensures
            final(self).ident() == old(self).ident(),
            final(self).payload() == old(self).payload(),
            final(self).geometry() == cache_after(old(self).geometry(), outcome),
            final(self).geometry() == Some(geometry),
    {
        match self.engine_layout {
            Some(geometry) => geometry,
            None => {
                let geometry = match outcome {
                    Ok(geometry) => geometry,
                    Err(_) => EngineLayout::default(),
                };
                self.engine_layout = Some(geometry);
                geometry
            },
        }
    }

    /// The rectangle the engine solved for this node. The engine is asked at
    /// most once in the life of the record: a filled cache answers without
    /// touching the context.
    pub fn bounds<P: PaintContext>(&mut self, cx: &mut P) -> (bounds: RectF)
        ensures
            final(self).ident() == old(self).ident(),
            final(self).payload() == old(self).payload(),
            final(self).geometry() is Some,
            bounds == final(self).geometry().unwrap().bounds,
            old(self).geometry() is Some ==> final(self).geometry() == old(self).geometry()
                && *final(cx) == *old(cx),
            old(self).geometry() is None ==> asked_once(
                *old(cx),
                old(self).ident(),
                *final(cx),
                final(self).geometry(),
            ),
    {
        self.engine_layout(cx).bounds
    }

    /// The place of this node in the paint order, from the same cache as
    /// `bounds`.
    pub fn order<P: PaintContext>(&mut self, cx: &mut P) -> (order: u32)
        ensures
            final(self).ident() == old(self).ident(),
            final(self).payload() == old(self).payload(),
            final(self).geometry() is Some,
            order == final(self).geometry().unwrap().order,
            old(self).geometry() is Some ==> final(self).geometry() == old(self).geometry()
                && *final(cx) == *old(cx),
            old(self).geometry() is None ==> asked_once(
                *old(cx),
                old(self).ident(),
                *final(cx),
                final(self).geometry(),
            ),
    {
        self.engine_layout(cx).order
    }

    /// Hands `update` the record and its payload at the same time, and puts
    /// the payload back when it returns. While the payload is lent out the
    /// record holds none, so `update` cannot be entered a second time from
    /// inside.
    pub fn update<F, T>(&mut self, update: F) -> (result: T) where
        F: FnOnce(&mut Self, &mut D) -> T,

        requires
            old(self).payload() is Some,
            forall|holder: &mut Self, data: &mut D|
                old(self).lends(*holder, *data) ==> #[trigger] call_requires(update, (holder, data)),
        ensures
            exists|holder: &mut Self, data: &mut D|
                {
                    &&& old(self).lends(*holder, *data)
                    &&& #[trigger] call_ensures(update, (holder, data), result)
                    &&& final(self).ident() == final(holder).ident()
                    &&& final(self).geometry() == final(holder).geometry()
                    &&& final(self).payload() == Some(*final(data))
                },
    {
        let mut element_data = self.element_data.take().expect(
            "reentrant calls to Layout::update are not supported",
        );
        let result = update(self, &mut element_data);
        self.element_data = Some(element_data);
        result
    }

    /// Drops the remembered geometry, so that the next read asks the engine.
    pub(crate) fn forget_geometry(&mut self)
        ensures
            final(self).ident() == old(self).ident(),
            final(self).payload() == old(self).payload(),
            final(self).geometry() is None,
    {
        self.engine_layout = None;
    }

    /// The remembered geometry, fetched from the engine on first use.
    pub(crate) fn engine_layout<P: PaintContext>(&mut self, cx: &mut P) -> (geometry: EngineLayout)
        ensures
            final(self).ident() == old(self).ident(),
            final(self).payload() == old(self).payload(),
            final(self).geometry() == Some(geometry),
            old(self).geometry() is Some ==> final(self).geometry() == old(self).geometry()
                && *final(cx) == *old(cx),
            old(self).geometry() is None ==> asked_once(
                *old(cx),
                old(self).ident(),
                *final(cx),
                final(self).geometry(),
            ),
    {
        match self.engine_layout {
            Some(geometry) => geometry,
            None => {
                let outcome = cx.computed_layout(self.id);
                self.settle(outcome)
            },
        }
    }
}

} // verus!
