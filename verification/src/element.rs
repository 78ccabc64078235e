//! The element contract and the handle that hides an element's type.
use crate::context::PaintContext;
use crate::geometry::{EngineLayout, LayoutId};
use crate::layout::{asked_once, Layout};
use vstd::prelude::*;

verus! {

/// A unit of interface content bound to a view of type `V`. It is laid out in
/// a context of type `L` and painted in one of type `P`.
pub trait Element<V, L, P: PaintContext>: Sized {
    /// What the element keeps from layout for painting.
    type Layout;

    /// What one call of `layout` may do: the element, the view and the
    /// context before it, the three after it, and what it returned.
    open spec fn laid_out(
        self,
        view: V,
        cx: L,
        after: Self,
        view_after: V,
        cx_after: L,
        outcome: Result<Layout<V, Self::Layout>, anyhow::Error>,
    ) -> bool {
        true
    }

    /// What one call of `paint` may do: the element, the view, the layout
    /// record and the context before it, and the four after it.
    open spec fn painted(
        self,
        view: V,
        layout: Layout<V, Self::Layout>,
        cx: P,
        after: Self,
        view_after: V,
        layout_after: Layout<V, Self::Layout>,
        cx_after: P,
    ) -> bool {
        true
    }

    /// Registers the element with the engine and returns the record of it.
    fn layout(&mut self, view: &mut V, cx: &mut L) -> (outcome: Result<
        Layout<V, Self::Layout>,
        anyhow::Error,
    >)
        ensures
            old(self).laid_out(
                *old(view),
                *old(cx),
                *final(self),
                *final(view),
                *final(cx),
                outcome,
            ),
    ;

    /// Paints the element from the record its last layout made. The record
    /// arrives with its geometry fetched.
    fn paint(&mut self, view: &mut V, layout: &mut Layout<V, Self::Layout>, cx: &mut P)
        requires
            old(layout).geometry() is Some,
        ensures
            old(self).painted(
                *old(view),
                *old(layout),
                *old(cx),
                *final(self),
                *final(view),
                *final(layout),
                *final(cx),
            ),
    ;
}

/// One call on a handle as its caller sees it: the view and the context
/// before and after, and for a layout what it returned.
#[allow(inconsistent_fields)]
pub enum Step<V, L, P> {
    /// A call of `layout` in a layout context.
    Layout {
        view: V,
        cx: L,
        view_after: V,
        cx_after: L,
        outcome: Result<LayoutId, anyhow::Error>,
    },
    /// A call of `paint` in a paint context.
    Paint { view: V, cx: P, view_after: V, cx_after: P },
}

/// What a handle can do with the element it hides.
trait AnyStatefulElement<V, L, P: PaintContext> {
    spec fn stored_id(&self) -> Option<LayoutId>;

    spec fn stored_geometry(&self) -> Option<EngineLayout>;

    spec fn follows(&self, trace: Seq<Step<V, L, P>>) -> bool;

    fn layout(&mut self, view: &mut V, cx: &mut L) -> (outcome: Result<LayoutId, anyhow::Error>)
        ensures
            match outcome {
                Ok(id) => {
                    &&& final(self).stored_id() == Some(id)
                    &&& final(self).stored_geometry() is None
                },
                Err(_) => {
                    &&& final(self).stored_id() == old(self).stored_id()
                    &&& final(self).stored_geometry() == old(self).stored_geometry()
                },
            },
            final(self).follows(Seq::empty()),
            forall|rest: Seq<Step<V, L, P>>| #[trigger]
                final(self).follows(rest) ==> old(self).follows(
                    seq![
                        (Step::Layout {
                            view: *old(view),
                            cx: *old(cx),
                            view_after: *final(view),
                            cx_after: *final(cx),
                            outcome,
                        }),
                    ] + rest,
                ),
    ;

    fn paint(&mut self, view: &mut V, cx: &mut P)
        requires
            old(self).stored_id() is Some,
        ensures
            final(self).stored_id() is Some,
            final(self).follows(Seq::empty()),
            forall|rest: Seq<Step<V, L, P>>| #[trigger]
                final(self).follows(rest) ==> old(self).follows(
                    seq![
                        (Step::Paint {
                            view: *old(view),
                            cx: *old(cx),
                            view_after: *final(view),
                            cx_after: *final(cx),
                        }),
                    ] + rest,
                ),
    ;
}

/// An element together with the record of its last layout.
pub struct StatefulElement<V, L, P: PaintContext, E: Element<V, L, P>> {
    element: E,
    layout: Option<Layout<V, E::Layout>>,
    contexts: core::marker::PhantomData<(L, P)>,
}

/// The record as a handle keeps it after a layout: what the element `made`,
/// with no geometry remembered.
pub open spec fn fresh<V, D>(made: Layout<V, D>, kept: Layout<V, D>) -> bool {
    &&& kept.ident() == made.ident()
    &&& kept.payload() == made.payload()
    &&& kept.geometry() is None
}

/// What a handle does with the result `made` of an element's layout: from a
/// record it keeps a fresh copy and gives out the identifier, an error it
/// hands on while it keeps what it `held`.
pub open spec fn kept<V, D>(
    made: Result<Layout<V, D>, anyhow::Error>,
    held: Option<Layout<V, D>>,
    outcome: Result<LayoutId, anyhow::Error>,
    holds: Option<Layout<V, D>>,
) -> bool {
    match made {
        Ok(layout) => outcome == Ok::<LayoutId, anyhow::Error>(layout.ident()) && holds is Some
            && fresh(layout, holds.unwrap()),
        Err(error) => outcome == Err::<LayoutId, anyhow::Error>(error) && holds == held,
    }
}

/// The record as `paint` hands it to the element: `before` with its geometry
/// fetched. A record that had its geometry keeps it and leaves the context
/// alone; one that had none asks the context once.
pub open spec fn fetched<V, D, P: PaintContext>(
    before: Layout<V, D>,
    cx: P,
    ready: Layout<V, D>,
    cx_ready: P,
) -> bool {
    &&& ready.ident() == before.ident()
    &&& ready.payload() == before.payload()
    &&& ready.geometry() is Some
    &&& before.geometry() is Some ==> ready.geometry() == before.geometry() && cx_ready == cx
    &&& before.geometry() is None ==> asked_once(cx, before.ident(), cx_ready, ready.geometry())
}

/// Whether a layout that shows as `step` can take the pair of `element` and
/// its record `stored` to the pair of `after` and `holds`: the element's
/// `layout` ran once and `made` what the handle then kept.
pub open spec fn layout_step<V, L, P: PaintContext, E: Element<V, L, P>>(
    element: E,
    stored: Option<Layout<V, E::Layout>>,
    step: Step<V, L, P>,
    after: E,
    holds: Option<Layout<V, E::Layout>>,
    made: Result<Layout<V, E::Layout>, anyhow::Error>,
) -> bool {
    &&& step is Layout
    &&& element.laid_out(
        step->Layout_view,
        step->Layout_cx,
        after,
        step->Layout_view_after,
        step->Layout_cx_after,
        made,
    )
    &&& kept(made, stored, step->Layout_outcome, holds)
}

/// Whether a paint that shows as `step` can take the pair of `element` and
/// its record `stored` to the pair of `after` and `holds`: there was a
/// record, its geometry was fetched where it was missing, which gave `ready`
/// and `cx_ready`, and the element's `paint` ran once on those.
pub open spec fn paint_step<V, L, P: PaintContext, E: Element<V, L, P>>(
    element: E,
    stored: Option<Layout<V, E::Layout>>,
    step: Step<V, L, P>,
    after: E,
    holds: Option<Layout<V, E::Layout>>,
    ready: Layout<V, E::Layout>,
    cx_ready: P,
) -> bool {
    &&& step is Paint
    &&& stored is Some
    &&& holds is Some
    &&& fetched(stored.unwrap(), step->Paint_cx, ready, cx_ready)
    &&& element.painted(
        step->Paint_view,
        ready,
        cx_ready,
        after,
        step->Paint_view_after,
        holds.unwrap(),
        step->Paint_cx_after,
    )
}

/// Whether the calls in `trace`, made in that order on a handle that hides
/// `element` with the record `stored`, are what the element allows: every
/// layout is one run of the element's `layout`, every paint one run of its
/// `paint` on the record of the layout before it, and each call starts from
/// the element and the record that the call before it left.
pub open spec fn runs<V, L, P: PaintContext, E: Element<V, L, P>>(
    element: E,
    stored: Option<Layout<V, E::Layout>>,
    trace: Seq<Step<V, L, P>>,
) -> bool
    decreases trace.len(),
{
    if trace.len() == 0 {
        true
    } else {
        match trace.first() {
            Step::Layout { .. } => exists|
                after: E,
                holds: Option<Layout<V, E::Layout>>,
                made: Result<Layout<V, E::Layout>, anyhow::Error>,
            |
                #[trigger] layout_step(element, stored, trace.first(), after, holds, made) && runs(
                    after,
                    holds,
                    trace.drop_first(),
                ),
            Step::Paint { .. } => exists|
                after: E,
                holds: Option<Layout<V, E::Layout>>,
                ready: Layout<V, E::Layout>,
                cx_ready: P,
            |
                #[trigger] paint_step(element, stored, trace.first(), after, holds, ready, cx_ready)
                    && runs(after, holds, trace.drop_first()),
        }
    }
}

/// A paint cannot be the first call on a fresh handle: no run starts with
/// one.
pub proof fn lemma_paint_needs_layout<V, L, P: PaintContext, E: Element<V, L, P>>(
    element: E,
    trace: Seq<Step<V, L, P>>,
)
    requires
        trace.len() > 0,
        trace.first() is Paint,
    ensures
        !runs(element, None, trace),
{
}

/// A layout and then a paint on a fresh handle are one run of the element's
/// `layout` followed by one run of its `paint`, and the paint works on the
/// element and the record that the layout left.
pub proof fn lemma_one_pass<V, L, P: PaintContext, E: Element<V, L, P>>(
    element: E,
    first: Step<V, L, P>,
    second: Step<V, L, P>,
)
    requires
        first is Layout,
        second is Paint,
        runs(element, None, seq![first, second]),
    ensures
        exists|
            after: E,
            holds: Option<Layout<V, E::Layout>>,
            made: Result<Layout<V, E::Layout>, anyhow::Error>,
            last: E,
            left: Option<Layout<V, E::Layout>>,
            ready: Layout<V, E::Layout>,
            cx_ready: P,
        |
            #![trigger
                layout_step(element, None, first, after, holds, made),
                paint_step(after, holds, second, last, left, ready, cx_ready)
            ]
            layout_step(element, None, first, after, holds, made) && paint_step(
                after,
                holds,
                second,
                last,
                left,
                ready,
                cx_ready,
            ),
{
    let trace = seq![first, second];
    assert(trace.first() == first);
    assert(trace.drop_first() == seq![second]);
    let (after, holds, made) = choose|
        after: E,
        holds: Option<Layout<V, E::Layout>>,
        made: Result<Layout<V, E::Layout>, anyhow::Error>,
    |
        #[trigger] layout_step(element, None, trace.first(), after, holds, made) && runs(
            after,
            holds,
            trace.drop_first(),
        );
    let rest = seq![second];
    assert(rest.first() == second);
    let (last, left, ready, cx_ready) = choose|
        last: E,
        left: Option<Layout<V, E::Layout>>,
        ready: Layout<V, E::Layout>,
        cx_ready: P,
    |
        #[trigger] paint_step(after, holds, rest.first(), last, left, ready, cx_ready) && runs(
            last,
            left,
            rest.drop_first(),
        );
    assert(layout_step(element, None, first, after, holds, made) && paint_step(
        after,
        holds,
        second,
        last,
        left,
        ready,
        cx_ready,
    ));
}

/// A record that a handle kept from a layout has no geometry, so the paint
/// that follows asks the engine for it, under the identifier that the layout
/// gave, whatever an earlier layout had remembered.
pub proof fn lemma_paint_after_layout_asks<V, D, P: PaintContext>(
    made: Layout<V, D>,
    held: Layout<V, D>,
    cx: P,
    ready: Layout<V, D>,
    cx_ready: P,
)
    requires
        fresh(made, held),
        fetched(held, cx, ready, cx_ready),
    ensures
        asked_once(cx, made.ident(), cx_ready, ready.geometry()),
{
}

/// A record whose geometry is remembered is handed to `paint` as it is, and
/// the context is not asked again.
pub proof fn lemma_second_paint_asks_nothing<V, D, P: PaintContext>(
    held: Layout<V, D>,
    cx: P,
    ready: Layout<V, D>,
    cx_ready: P,
)
    requires
        held.geometry() is Some,
        fetched(held, cx, ready, cx_ready),
    ensures
        cx_ready == cx,
        ready.geometry() == held.geometry(),
{
}

impl<V, L, P: PaintContext, E: Element<V, L, P>> StatefulElement<V, L, P, E> {
    /// The element that is held.
    pub closed spec fn element(&self) -> E {
        self.element
    }

    /// The record of the last layout that succeeded, if there was one.
    pub closed spec fn stored(&self) -> Option<Layout<V, E::Layout>> {
        self.layout
    }

    /// Holds `element`, with no layout yet.
    pub fn new(element: E) -> (state: Self)
        ensures
            state.element() == element,
            state.stored() is None,
    {
        StatefulElement { element, layout: None, contexts: core::marker::PhantomData }
    }

    /// Takes in what the element's `layout` made. A record replaces the one
    /// held and starts without geometry, whatever was remembered before; its
    /// identifier is returned. An error is handed back and the record held
    /// stays.
    pub fn keep(&mut self, made: Result<Layout<V, E::Layout>, anyhow::Error>) -> (outcome: Result<
        LayoutId,
        anyhow::Error,
    >)
        ensures
            final(self).element() == old(self).element(),
            kept(made, old(self).stored(), outcome, final(self).stored()),
    {
        match made {
            Ok(mut layout) => {
                let layout_id = layout.id();
                layout.forget_geometry();
                self.layout = Some(layout);
                Ok(layout_id)
            },
            Err(error) => Err(error),
        }
    }

    /// Runs the element's `layout` once and keeps what it made.
    pub fn layout(&mut self, view: &mut V, cx: &mut L) -> (outcome: Result<LayoutId, anyhow::Error>)
        ensures
            exists|made: Result<Layout<V, E::Layout>, anyhow::Error>| #[trigger]
                layout_step(
                    old(self).element(),
                    old(self).stored(),
                    (Step::Layout {
                        view: *old(view),
                        cx: *old(cx),
                        view_after: *final(view),
                        cx_after: *final(cx),
                        outcome,
                    }),
                    final(self).element(),
                    final(self).stored(),
                    made,
                ),
    {
        let made = self.element.layout(view, cx);
        let ghost witness = made;
        let outcome = self.keep(made);
        proof {
            assert(layout_step(
                old(self).element(),
                old(self).stored(),
                (Step::Layout {
                    view: *old(view),
                    cx: *old(cx),
                    view_after: *view,
                    cx_after: *cx,
                    outcome,
                }),
                self.element(),
                self.stored(),
                witness,
            ));
        }
        outcome
    }

    /// Fetches the record's geometry if it has none yet, then runs the
    /// element's `paint` once on that record.
    pub fn paint(&mut self, view: &mut V, cx: &mut P)
        requires
            old(self).stored() is Some,
        ensures
            exists|ready: Layout<V, E::Layout>, cx_ready: P| #[trigger]
                paint_step(
                    old(self).element(),
                    old(self).stored(),
                    (Step::Paint {
                        view: *old(view),
                        cx: *old(cx),
                        view_after: *final(view),
                        cx_after: *final(cx),
                    }),
                    final(self).element(),
                    final(self).stored(),
                    ready,
                    cx_ready,
                ),
    {
        let ghost mut ready = old(self).layout.unwrap();
        let ghost mut cx_ready = *old(cx);
        let layout = self.layout.as_mut().expect("paint called before layout");
        let _ = layout.engine_layout(cx);
        proof {
            ready = *layout;
            cx_ready = *cx;
        }
        self.element.paint(view, layout, cx);
        proof {
            assert(paint_step(
                old(self).element(),
                old(self).stored(),
                (Step::Paint {
                    view: *old(view),
                    cx: *old(cx),
                    view_after: *view,
                    cx_after: *cx,
                }),
                self.element(),
                self.stored(),
                ready,
                cx_ready,
            ));
        }
    }
}

impl<V, L, P: PaintContext, E: Element<V, L, P>> AnyStatefulElement<V, L, P> for StatefulElement<
    V,
    L,
    P,
    E,
> {
    closed spec fn stored_id(&self) -> Option<LayoutId> {
        match self.layout {
            Some(layout) => Some(layout.ident()),
            None => None,
        }
    }

    closed spec fn stored_geometry(&self) -> Option<EngineLayout> {
        match self.layout {
            Some(layout) => layout.geometry(),
            None => None,
        }
    }

    closed spec fn follows(&self, trace: Seq<Step<V, L, P>>) -> bool {
        runs(self.element, self.layout, trace)
    }

    fn layout(&mut self, view: &mut V, cx: &mut L) -> (outcome: Result<LayoutId, anyhow::Error>) {
        let outcome = StatefulElement::layout(self, view, cx);
        proof {
            let step = Step::Layout {
                view: *old(view),
                cx: *old(cx),
                view_after: *view,
                cx_after: *cx,
                outcome,
            };
            let made = choose|made: Result<Layout<V, E::Layout>, anyhow::Error>|
                layout_step(old(self).element, old(self).layout, step, self.element, self.layout, made);
            assert forall|rest: Seq<Step<V, L, P>>| #[trigger]
                runs(self.element, self.layout, rest) implies runs(
                old(self).element,
                old(self).layout,
                seq![step] + rest,
            ) by {
                let trace = seq![step] + rest;
                assert(trace.first() == step);
                assert(trace.drop_first() == rest);
                assert(layout_step(
                    old(self).element,
                    old(self).layout,
                    trace.first(),
                    self.element,
                    self.layout,
                    made,
                ));
            }
        }
        outcome
    }

    fn paint(&mut self, view: &mut V, cx: &mut P) {
        StatefulElement::paint(self, view, cx);
        proof {
            let step = Step::Paint {
                view: *old(view),
                cx: *old(cx),
                view_after: *view,
                cx_after: *cx,
            };
            let (ready, cx_ready) = choose|ready: Layout<V, E::Layout>, cx_ready: P|
                paint_step(
                    old(self).element,
                    old(self).layout,
                    step,
                    self.element,
                    self.layout,
                    ready,
                    cx_ready,
                );
            assert forall|rest: Seq<Step<V, L, P>>| #[trigger]
                runs(self.element, self.layout, rest) implies runs(
                old(self).element,
                old(self).layout,
                seq![step] + rest,
            ) by {
                let trace = seq![step] + rest;
                assert(trace.first() == step);
                assert(trace.drop_first() == rest);
                assert(paint_step(
                    old(self).element,
                    old(self).layout,
                    trace.first(),
                    self.element,
                    self.layout,
                    ready,
                    cx_ready,
                ));
            }
        }
    }
}

/// An element whose type is hidden: whatever it is, it can be laid out and
/// painted.
#[verifier::reject_recursive_types(V)]
#[verifier::reject_recursive_types(L)]
#[verifier::reject_recursive_types(P)]
pub struct AnyElement<V, L, P: PaintContext>(Box<dyn AnyStatefulElement<V, L, P>>);

impl<V, L, P: PaintContext> AnyElement<V, L, P> {
    /// The identifier from the last layout that succeeded; `None` before the
    /// first.
    pub closed spec fn layout_id(&self) -> Option<LayoutId> {
        self.0.stored_id()
    }

    /// The geometry remembered for the last layout. A new layout starts
    /// without any.
    pub closed spec fn geometry(&self) -> Option<EngineLayout> {
        self.0.stored_geometry()
    }

    /// Whether the calls in `trace`, made in that order on this handle, are
    /// what the hidden element allows; `runs` says so in terms of the element.
    pub closed spec fn follows(&self, trace: Seq<Step<V, L, P>>) -> bool {
        self.0.follows(trace)
    }

    /// Lays the hidden element out and returns the identifier the engine
    /// gave it. The geometry remembered from an earlier layout is dropped. A
    /// failure of the element's layout is passed on and leaves the layout
    /// that the handle had. The call is one more step of the hidden element:
    /// whatever may follow from here may follow this call from where the
    /// handle was before.
    pub fn layout(&mut self, view: &mut V, cx: &mut L) -> (outcome: Result<LayoutId, anyhow::Error>)
        ensures
            match outcome {
                Ok(id) => {
                    &&& final(self).layout_id() == Some(id)
                    &&& final(self).geometry() is None
                },
                Err(_) => {
                    &&& final(self).layout_id() == old(self).layout_id()
                    &&& final(self).geometry() == old(self).geometry()
                },
            },
            final(self).follows(Seq::empty()),
            forall|rest: Seq<Step<V, L, P>>| #[trigger]
                final(self).follows(rest) ==> old(self).follows(
                    seq![
                        (Step::Layout {
                            view: *old(view),
                            cx: *old(cx),
                            view_after: *final(view),
                            cx_after: *final(cx),
                            outcome,
                        }),
                    ] + rest,
                ),
    {
        self.0.layout(view, cx)
    }

    /// Paints the hidden element from its last layout, which must exist.
    /// The call is one more step of the hidden element, as for `layout`.
    pub fn paint(&mut self, view: &mut V, cx: &mut P)
        requires
            old(self).layout_id() is Some,
        ensures
            final(self).layout_id() is Some,
            final(self).follows(Seq::empty()),
            forall|rest: Seq<Step<V, L, P>>| #[trigger]
                final(self).follows(rest) ==> old(self).follows(
                    seq![
                        (Step::Paint {
                            view: *old(view),
                            cx: *old(cx),
                            view_after: *final(view),
                            cx_after: *final(cx),
                        }),
                    ] + rest,
                ),
    {
        self.0.paint(view, cx)
    }
}

/// Whether `handle` is what `into_any` makes of `element`: nothing is laid
/// out, no geometry is remembered, and what can be done with the handle is
/// what the element allows, starting without a record.
pub open spec fn hides<V, L, P: PaintContext, E: Element<V, L, P>>(
    handle: AnyElement<V, L, P>,
    element: E,
) -> bool {
    &&& handle.layout_id() is None
    &&& handle.geometry() is None
    &&& forall|trace: Seq<Step<V, L, P>>| #[trigger]
        handle.follows(trace) == runs(element, None, trace)
}

/// Every element can be turned into a handle.
pub trait IntoAny<V, L, P: PaintContext>: Element<V, L, P> {
    /// Hides the element's type behind a handle that has no layout yet.
    fn into_any(self) -> (handle: AnyElement<V, L, P>)
        ensures
            hides(handle, self),
    ;
}

impl<V: 'static, L: 'static, P: PaintContext + 'static, E: Element<V, L, P> + 'static> IntoAny<
    V,
    L,
    P,
> for E {
    fn into_any(self) -> (handle: AnyElement<V, L, P>) {
        let state = StatefulElement::new(self);
        let handle = AnyElement(Box::new(state));
        assert(state.stored_id() is None && state.stored_geometry() is None);
        assert forall|trace: Seq<Step<V, L, P>>| #[trigger]
            handle.follows(trace) == runs(self, None, trace) by {
            assert(state.follows(trace) == runs(self, None, trace));
        }
        handle
    }
}

} // verus!
