//! Building a parent's list of children.
use crate::context::PaintContext;
use crate::element::{hides, AnyElement, Element, IntoAny};
use vstd::prelude::*;

verus! {

/// Whatever can be made into an element can stand where a child is expected.
pub trait IntoElement<V, L, P: PaintContext>: Sized {
    /// The element that comes of it.
    type Element: Element<V, L, P>;

    /// Whether `element` is what `into_element` may make of this. A type
    /// that states nothing of itself allows every element.
    open spec fn becomes(self, element: Self::Element) -> bool {
        true
    }

    /// Makes the element.
    fn into_element(self) -> (element: Self::Element)
        ensures
            self.becomes(element),
    ;
}

/// Whether `handle` is what a parent keeps of `child`: the handle of the
/// element that the child was made into, with nothing laid out yet.
pub open spec fn made_from<V, L, P: PaintContext, C: IntoElement<V, L, P>>(
    handle: AnyElement<V, L, P>,
    child: C,
) -> bool {
    exists|element: C::Element| #[trigger] child.becomes(element) && hides(handle, element)
}

/// Whether `after` is `before` with the handles of `children` behind it,
/// one for each and in their order. What `before` held keeps its place.
pub open spec fn appended<V, L, P: PaintContext, C: IntoElement<V, L, P>>(
    before: Seq<AnyElement<V, L, P>>,
    after: Seq<AnyElement<V, L, P>>,
    children: Seq<C>,
) -> bool {
    &&& after.len() == before.len() + children.len()
    &&& after.subrange(0, before.len() as int) == before
    &&& forall|i: int|
        0 <= i < children.len() ==> made_from(after[before.len() + i], #[trigger] children[i])
}

/// Appending in two steps is appending once: the children of the first step
/// stay in front of those of the second, and each keeps its handle.
pub proof fn lemma_appended_twice<V, L, P: PaintContext, C: IntoElement<V, L, P>>(
    first: Seq<AnyElement<V, L, P>>,
    second: Seq<AnyElement<V, L, P>>,
    third: Seq<AnyElement<V, L, P>>,
    early: Seq<C>,
    late: Seq<C>,
)
    requires
        appended(first, second, early),
        appended(second, third, late),
    ensures
        appended(first, third, early + late),
{
    let all = early + late;
    assert(third.subrange(0, first.len() as int) == second.subrange(0, first.len() as int)) by {
        assert(third.subrange(0, second.len() as int).subrange(0, first.len() as int)
            == third.subrange(0, first.len() as int));
    }
    assert forall|i: int| 0 <= i < all.len() implies made_from(
        third[first.len() + i],
        #[trigger] all[i],
    ) by {
        if i < early.len() {
            assert(third.subrange(0, second.len() as int)[first.len() + i] == second[first.len()
                + i]);
            assert(made_from(second[first.len() + i], early[i]));
        } else {
            assert(made_from(third[second.len() + (i - early.len())], late[i - early.len()]));
        }
    }
}

/// Appends `child`, made into a handle that has no layout yet, to `list`.
pub fn push_child<V: 'static, L: 'static, P: PaintContext + 'static, C: IntoElement<V, L, P>>(
    list: &mut Vec<AnyElement<V, L, P>>,
    child: C,
) where C::Element: 'static
    ensures
        appended(old(list)@, final(list)@, seq![child]),
{
    let element = child.into_element();
    let handle = element.into_any();
    list.push(handle);
    proof {
        assert(list@.subrange(0, old(list)@.len() as int) == old(list)@);
        assert(child.becomes(element) && hides(handle, element));
        assert(made_from(list@[old(list)@.len() as int], seq![child][0]));
    }
}

/// Appends the `children` to `list` in the order they come in.
pub fn push_children<V: 'static, L: 'static, P: PaintContext + 'static, C: IntoElement<V, L, P>>(
    list: &mut Vec<AnyElement<V, L, P>>,
    children: Vec<C>,
) where C::Element: 'static
    ensures
        appended(old(list)@, final(list)@, children@),
{
    let ghost all = children@;
    proof {
        assert(list@.subrange(0, old(list)@.len() as int) == old(list)@);
    }
    for child in iter: children
        invariant
            iter.seq() == all,
            appended(old(list)@, list@, all.take(iter.index())),
    {
        let ghost before = list@;
        let ghost taken = all.take(iter.index());
        push_child(list, child);
        proof {
            lemma_appended_twice(old(list)@, before, list@, taken, seq![child]);
            assert(taken + seq![child] == all.take(iter.index() + 1));
        }
    }
    proof {
        assert(all.take(all.len() as int) == all);
    }
}

/// An element that has children.
pub trait ParentElement<V: 'static, L: 'static, P: PaintContext + 'static>: Sized {
    /// Whether `list` is what this parent has for children, first child
    /// first. A parent that states nothing of itself allows every list.
    open spec fn has_children(self, list: Seq<AnyElement<V, L, P>>) -> bool {
        true
    }

    /// The parent's own list of children, to be added to.
    fn children_mut(&mut self) -> (list: &mut Vec<AnyElement<V, L, P>>)
        ensures
            old(self).has_children(list@),
            final(self).has_children(final(list)@),
    ;

    /// The parent with `child` as its last child.
    fn child<C: IntoElement<V, L, P>>(self, child: C) -> (parent: Self) where
        C::Element: 'static,

        ensures
            exists|before: Seq<AnyElement<V, L, P>>, after: Seq<AnyElement<V, L, P>>|
                {
                    &&& #[trigger] self.has_children(before)
                    &&& #[trigger] parent.has_children(after)
                    &&& appended(before, after, seq![child])
                },
    {
        let mut parent = self;
        let list = parent.children_mut();
        let ghost before = list@;
        push_child(list, child);
        let ghost after = list@;
        proof {
            assert(parent.has_children(after));
        }
        parent
    }

    /// The parent with `children` as its last children, in their order.
    fn children<C: IntoElement<V, L, P>>(self, children: Vec<C>) -> (parent: Self) where
        C::Element: 'static,

        ensures
            exists|before: Seq<AnyElement<V, L, P>>, after: Seq<AnyElement<V, L, P>>|
                {
                    &&& #[trigger] self.has_children(before)
                    &&& #[trigger] parent.has_children(after)
                    &&& appended(before, after, children@)
                },
    {
        let mut parent = self;
        let list = parent.children_mut();
        let ghost before = list@;
        push_children(list, children);
        let ghost after = list@;
        proof {
            assert(parent.has_children(after));
        }
        parent
    }
}

} // verus!
