use element::{
    AnyElement, Element, EngineLayout, IntoAny, IntoElement, Layout, LayoutId, PaintContext,
    ParentElement, RectF, SolvedGeometry,
};

type View = Vec<String>;

struct Ids {
    next: u64,
    fail: bool,
}

struct Surface {
    geometry: SolvedGeometry,
    painted: Vec<u32>,
}

impl PaintContext for Surface {
    fn computed_layout(&mut self, id: LayoutId) -> Result<EngineLayout, anyhow::Error> {
        self.geometry.computed_layout(id)
    }
}

struct Leaf {
    tag: u32,
}

impl Element<View, Ids, Surface> for Leaf {
    type Layout = u32;

    fn layout(&mut self, view: &mut View, cx: &mut Ids) -> Result<Layout<View, u32>, anyhow::Error> {
        if cx.fail {
            return Err(anyhow::Error::msg("engine refused"));
        }
        view.push(format!("layout {}", self.tag));
        let id = LayoutId(cx.next);
        cx.next += 1;
        Ok(Layout::new(id, self.tag))
    }

    fn paint(&mut self, view: &mut View, layout: &mut Layout<View, u32>, cx: &mut Surface) {
        let bounds = layout.bounds(cx);
        let order = layout.order(cx);
        assert_eq!(layout.bounds(cx), bounds);
        assert_eq!(layout.order(cx), order);
        view.push(format!(
            "paint {} id {} at {} {} {} {} order {}",
            self.tag,
            layout.id().0,
            f32::from_bits(bounds.origin_x),
            f32::from_bits(bounds.origin_y),
            f32::from_bits(bounds.width),
            f32::from_bits(bounds.height),
            order
        ));
        cx.painted.push(self.tag);
    }
}

impl IntoElement<View, Ids, Surface> for u32 {
    type Element = Leaf;

    fn into_element(self) -> Leaf {
        Leaf { tag: self }
    }
}

impl IntoElement<View, Ids, Surface> for Leaf {
    type Element = Leaf;

    fn into_element(self) -> Leaf {
        self
    }
}

struct Stack {
    children: Vec<AnyElement<View, Ids, Surface>>,
}

impl ParentElement<View, Ids, Surface> for Stack {
    fn children_mut(&mut self) -> &mut Vec<AnyElement<View, Ids, Surface>> {
        &mut self.children
    }
}

impl Element<View, Ids, Surface> for Stack {
    type Layout = Vec<LayoutId>;

    fn layout(
        &mut self,
        view: &mut View,
        cx: &mut Ids,
    ) -> Result<Layout<View, Vec<LayoutId>>, anyhow::Error> {
        let mut ids = Vec::new();
        for child in self.children.iter_mut() {
            ids.push(child.layout(view, cx)?);
        }
        let id = LayoutId(cx.next);
        cx.next += 1;
        Ok(Layout::new(id, ids))
    }

    fn paint(&mut self, view: &mut View, _layout: &mut Layout<View, Vec<LayoutId>>, cx: &mut Surface) {
        for child in self.children.iter_mut() {
            child.paint(view, cx);
        }
    }
}

fn rect(x: f32, y: f32, width: f32, height: f32) -> RectF {
    RectF {
        origin_x: x.to_bits(),
        origin_y: y.to_bits(),
        width: width.to_bits(),
        height: height.to_bits(),
    }
}

fn surface(entries: Vec<(u64, EngineLayout)>) -> Surface {
    let mut geometry = SolvedGeometry::new();
    for (id, solved) in entries {
        geometry.record(LayoutId(id), solved);
    }
    Surface { geometry, painted: Vec::new() }
}

#[test]
fn layout_then_paint_runs_each_once_in_order() {
    let mut view: View = Vec::new();
    let mut ids = Ids { next: 7, fail: false };
    let mut cx = surface(vec![(7, EngineLayout { bounds: rect(0.0, 0.0, 10.0, 20.0), order: 1 })]);
    let mut handle = Leaf { tag: 3 }.into_any();
    let id = handle.layout(&mut view, &mut ids).unwrap();
    assert_eq!(id, LayoutId(7));
    handle.paint(&mut view, &mut cx);
    assert_eq!(
        view,
        vec!["layout 3".to_string(), "paint 3 id 7 at 0 0 10 20 order 1".to_string()]
    );
    assert_eq!(cx.painted, vec![3]);
}

#[test]
fn leaf_geometry_is_asked_for_once() {
    let mut view: View = Vec::new();
    let mut ids = Ids { next: 7, fail: false };
    let mut cx = surface(vec![(7, EngineLayout { bounds: rect(0.0, 0.0, 10.0, 20.0), order: 1 })]);
    let mut handle = Leaf { tag: 1 }.into_any();
    assert_eq!(handle.layout(&mut view, &mut ids).unwrap(), LayoutId(7));
    handle.paint(&mut view, &mut cx);
    assert_eq!(cx.geometry.queries(), 1);
    assert_eq!(view[1], "paint 1 id 7 at 0 0 10 20 order 1");
}

#[test]
fn second_layout_drops_the_remembered_geometry() {
    let mut view: View = Vec::new();
    let mut ids = Ids { next: 7, fail: false };
    let mut cx = surface(vec![
        (7, EngineLayout { bounds: rect(0.0, 0.0, 10.0, 20.0), order: 1 }),
        (8, EngineLayout { bounds: rect(1.0, 2.0, 30.0, 40.0), order: 5 }),
    ]);
    let mut handle = Leaf { tag: 1 }.into_any();
    handle.layout(&mut view, &mut ids).unwrap();
    handle.paint(&mut view, &mut cx);
    assert_eq!(cx.geometry.queries(), 1);
    assert_eq!(handle.layout(&mut view, &mut ids).unwrap(), LayoutId(8));
    handle.paint(&mut view, &mut cx);
    assert_eq!(cx.geometry.queries(), 2);
    assert_eq!(view[3], "paint 1 id 8 at 1 2 30 40 order 5");
}

#[test]
fn same_identifier_is_asked_again_after_a_new_layout() {
    let mut view: View = Vec::new();
    let mut ids = Ids { next: 7, fail: false };
    let mut cx = surface(vec![(7, EngineLayout { bounds: rect(0.0, 0.0, 10.0, 20.0), order: 1 })]);
    let mut handle = Leaf { tag: 1 }.into_any();
    handle.layout(&mut view, &mut ids).unwrap();
    handle.paint(&mut view, &mut cx);
    ids.next = 7;
    cx.geometry.record(LayoutId(7), EngineLayout { bounds: rect(0.0, 0.0, 50.0, 60.0), order: 2 });
    handle.layout(&mut view, &mut ids).unwrap();
    handle.paint(&mut view, &mut cx);
    assert_eq!(cx.geometry.queries(), 2);
    assert_eq!(view[3], "paint 1 id 7 at 0 0 50 60 order 2");
}

#[test]
fn failed_layout_is_passed_on() {
    let mut view: View = Vec::new();
    let mut ids = Ids { next: 7, fail: true };
    let mut handle = Leaf { tag: 1 }.into_any();
    let error = handle.layout(&mut view, &mut ids).unwrap_err();
    assert_eq!(format!("{}", error), "engine refused");
    assert!(view.is_empty());
}

#[test]
fn failed_layout_keeps_the_earlier_one() {
    let mut view: View = Vec::new();
    let mut ids = Ids { next: 7, fail: false };
    let mut cx = surface(vec![(7, EngineLayout { bounds: rect(0.0, 0.0, 10.0, 20.0), order: 1 })]);
    let mut handle = Leaf { tag: 1 }.into_any();
    handle.layout(&mut view, &mut ids).unwrap();
    ids.fail = true;
    assert!(handle.layout(&mut view, &mut ids).is_err());
    handle.paint(&mut view, &mut cx);
    assert_eq!(view[1], "paint 1 id 7 at 0 0 10 20 order 1");
}

#[test]
fn missing_geometry_paints_with_zero() {
    let mut view: View = Vec::new();
    let mut ids = Ids { next: 7, fail: false };
    let mut cx = surface(Vec::new());
    let mut handle = Leaf { tag: 4 }.into_any();
    handle.layout(&mut view, &mut ids).unwrap();
    handle.paint(&mut view, &mut cx);
    assert_eq!(view[1], "paint 4 id 7 at 0 0 0 0 order 0");
    assert_eq!(cx.geometry.queries(), 1);
}

#[test]
fn children_paint_in_the_order_they_were_added() {
    let mut view: View = Vec::new();
    let mut ids = Ids { next: 1, fail: false };
    let mut cx = surface(Vec::new());
    let stack = Stack { children: Vec::new() }
        .child(Leaf { tag: 10 })
        .child(Leaf { tag: 20 })
        .child(Leaf { tag: 30 });
    assert_eq!(stack.children.len(), 3);
    let mut handle = stack.into_any();
    assert_eq!(handle.layout(&mut view, &mut ids).unwrap(), LayoutId(4));
    handle.paint(&mut view, &mut cx);
    assert_eq!(cx.painted, vec![10, 20, 30]);
    assert_eq!(&view[..3], &["layout 10".to_string(), "layout 20".to_string(), "layout 30".to_string()]);
}

#[test]
fn children_keeps_the_order_of_the_sequence() {
    let mut view: View = Vec::new();
    let mut ids = Ids { next: 1, fail: false };
    let mut cx = surface(Vec::new());
    let stack = Stack { children: Vec::new() }.child(1u32).children(vec![2u32, 3, 4]).child(5u32);
    assert_eq!(stack.children.len(), 5);
    let mut handle = stack.into_any();
    handle.layout(&mut view, &mut ids).unwrap();
    handle.paint(&mut view, &mut cx);
    assert_eq!(cx.painted, vec![1, 2, 3, 4, 5]);
}

#[test]
fn children_of_nothing_adds_nothing() {
    let stack = Stack { children: Vec::new() }.child(1u32).children(Vec::<u32>::new());
    assert_eq!(stack.children.len(), 1);
}

#[test]
fn nested_parents_lay_out_children_first() {
    let mut view: View = Vec::new();
    let mut ids = Ids { next: 1, fail: false };
    let mut cx = surface(Vec::new());
    let inner = Stack { children: Vec::new() }.child(1u32).child(2u32);
    let outer = Stack { children: Vec::new() };
    let mut outer = outer;
    outer.children_mut().push(inner.into_any());
    outer.children_mut().push(Leaf { tag: 3 }.into_any());
    let mut handle = outer.into_any();
    assert_eq!(handle.layout(&mut view, &mut ids).unwrap(), LayoutId(5));
    handle.paint(&mut view, &mut cx);
    assert_eq!(cx.painted, vec![1, 2, 3]);
}
