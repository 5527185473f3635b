//! Rendered elements: the immutable, already-laid-out tree produced by
//! rendering components, able to draw itself and to route key events.

use vstd::prelude::*;
use crate::backend::{
    block_rendered, buffer_area, buffer_cells, buffer_wf, lemma_masked_mono, masked_cells,
    render_block,
};
use crate::event::{KeyEvent, KeyHandler};
use crate::flex::{child_rect, stack_fits, Flex};
use crate::rect::Rect;
use crate::spans::{SpanModel, Spans};
use crate::style::Style;

verus! {

broadcast use vstd::std_specs::vec::axiom_vec_decreases_to_view, vstd::seq::axiom_seq_index_decreases;

/// The rendered form of a section: its frozen decoration, the rendered
/// single child, and the node's key-dispatch policy.
pub struct SectionElement {
    pub title: Spans,
    pub border: Style,
    pub content: AnyElement,
    pub on_key: KeyHandler,
}

/// The rendered form of a stack: the flex specs and the rendered
/// children, one spec per child.
pub struct StackElement {
    pub flex: Vec<Flex>,
    pub children: Vec<AnyElement>,
}

/// A type-erased rendered element, the node of the element tree.
pub enum AnyElement {
    /// Draws nothing and ignores events.
    Null,
    Section(Box<SectionElement>),
    Stack(Box<StackElement>),
}

/// The value an element tree stands for; contracts speak of this mirror.
pub enum ElemModel {
    Null,
    Section {
        title: Seq<SpanModel>,
        border: Style,
        content: Box<ElemModel>,
        on_key: KeyHandler,
    },
    Stack { flex: Seq<Flex>, children: Seq<ElemModel> },
}

impl AnyElement {
    /// The value this element stands for.
    pub open spec fn model(self) -> ElemModel
        decreases self,
    {
        match self {
            AnyElement::Null => ElemModel::Null,
            AnyElement::Section(sec) => ElemModel::Section {
                title: sec.title@,
                border: sec.border,
                content: Box::new(sec.content.model()),
                on_key: sec.on_key,
            },
            AnyElement::Stack(st) => ElemModel::Stack {
                flex: st.flex@,
                children: children_model(st.children@),
            },
        }
    }
}

/// The values a row of rendered children stands for, in order.
pub open spec fn children_model(s: Seq<AnyElement>) -> Seq<ElemModel>
    decreases s,
{
    if s.len() == 0 {
        Seq::empty()
    } else {
        children_model(s.drop_last()).push(s.last().model())
    }
}

/// A row's model has one entry per child: the child's own model.
pub proof fn lemma_children_model(s: Seq<AnyElement>)
    ensures
        children_model(s).len() == s.len(),
        forall|i: int| 0 <= i < s.len() ==> children_model(s)[i] == s[i].model(),
    decreases s,
{
    if s.len() > 0 {
        lemma_children_model(s.drop_last());
    }
}

impl View for AnyElement {
    type V = ElemModel;

    open spec fn view(&self) -> ElemModel {
        self.model()
    }
}

/// The handler invocations a key event produces on an element: pairs of
/// bound-handler identifier and the event it receives, in dispatch
/// order. A node with no handler passes the event to its child; one
/// whose handler consumes it stops there; one whose handler forwards is
/// invoked and then lets the child see the event. A stack, whose
/// multi-child focus policy lives outside this engine, ignores events,
/// as does the empty element.
pub open spec fn dispatch(e: ElemModel, ev: KeyEvent) -> Seq<(u64, KeyEvent)>
    decreases e,
{
    match e {
        ElemModel::Null => Seq::empty(),
        ElemModel::Section { content, on_key, .. } => match on_key {
            KeyHandler::Propagate => dispatch(*content, ev),
            KeyHandler::Consume(id) => seq![(id, ev)],
            KeyHandler::Forward(id) => seq![(id, ev)] + dispatch(*content, ev),
        },
        ElemModel::Stack { .. } => Seq::empty(),
    }
}

impl AnyElement {
    /// Routes a key event through the element tree, returning every
    /// bound handler the event reaches, in order, with the event each
    /// receives. The surrounding application runs the named callbacks.
    pub fn on_key(&self, event: KeyEvent) -> (calls: Vec<(u64, KeyEvent)>)
        ensures
            calls@ == dispatch(self@, event),
        decreases *self,
    {
        match self {
            AnyElement::Null => Vec::new(),
            AnyElement::Section(sec) => {
                match sec.on_key {
                    KeyHandler::Propagate => sec.content.on_key(event),
                    KeyHandler::Consume(id) => {
                        let mut calls: Vec<(u64, KeyEvent)> = Vec::new();
                        calls.push((id, event));
                        proof {
                            assert(calls@ =~= seq![(id, event)]);
                        }
                        calls
                    },
                    KeyHandler::Forward(id) => {
                        let mut calls: Vec<(u64, KeyEvent)> = Vec::new();
                        calls.push((id, event));
                        let mut rest = sec.content.on_key(event);
                        calls.append(&mut rest);
                        proof {
                            assert(calls@ =~= seq![(id, event)] + dispatch(sec.content@, event));
                        }
                        calls
                    },
                }
            },
            AnyElement::Stack(_) => Vec::new(),
        }
    }
}

/// Law (single-child routing): a section with no handler bound hands a
/// key event to its child exactly once — its dispatch is precisely the
/// child's own. A section whose handler consumes the event dispatches
/// only that one handler invocation, and the child never sees the event.
pub proof fn lemma_section_dispatch(
    title: Seq<SpanModel>,
    border: Style,
    content: Box<ElemModel>,
    id: u64,
    ev: KeyEvent,
)
    ensures
        dispatch(
            ElemModel::Section { title, border, content, on_key: KeyHandler::Propagate },
            ev,
        ) == dispatch(*content, ev),
        dispatch(
            ElemModel::Section { title, border, content, on_key: KeyHandler::Consume(id) },
            ev,
        ) == seq![(id, ev)],
{
}

/// The first bound handler below a node: the walk follows the
/// single-child chain through sections with no handler bound and stops
/// at the first section that has one, yielding the handler and the
/// child the dispatch would continue into. Stacks and the empty element
/// end the walk.
pub open spec fn handler_search(e: ElemModel) -> Option<(u64, ElemModel)>
    decreases e,
{
    match e {
        ElemModel::Section { content, on_key, .. } => match on_key {
            KeyHandler::Propagate => handler_search(*content),
            KeyHandler::Consume(id) => Some((id, *content)),
            KeyHandler::Forward(id) => Some((id, *content)),
        },
        ElemModel::Null => None,
        ElemModel::Stack { .. } => None,
    }
}

impl AnyElement {
    /// One step of an application-driven dispatch, the general form of
    /// handler routing: finds the first bound handler below this node
    /// and hands back its identifier with the child subtree the event
    /// would continue into. The application runs the handler's callback
    /// with the event; the callback decides, per event, whether the
    /// child sees anything at all — and with what event — by calling
    /// this again on the returned child, so a node can swallow,
    /// transform, or pass an event through at its own discretion.
    pub fn next_handler(&self) -> (r: Option<(u64, &AnyElement)>)
        ensures
            match r {
                Some(found) => handler_search(self@) == Some((found.0, found.1@)),
                None => handler_search(self@) is None,
            },
        decreases *self,
    {
        match self {
            AnyElement::Null => None,
            AnyElement::Stack(_) => None,
            AnyElement::Section(sec) => match sec.on_key {
                KeyHandler::Propagate => sec.content.next_handler(),
                KeyHandler::Consume(id) => Some((id, &sec.content)),
                KeyHandler::Forward(id) => Some((id, &sec.content)),
            },
        }
    }
}

/// Whether every rectangle the element will paint lies inside the
/// buffer area `area`, so that the backend never indexes outside it;
/// stacks must also keep their sub-rectangles on the 16-bit grid.
pub open spec fn draw_fits(e: ElemModel, rect: Rect, area: Rect) -> bool
    decreases e,
{
    match e {
        ElemModel::Null => true,
        ElemModel::Section { content, .. } => {
            &&& rect.wf()
            &&& area.covers(rect)
            &&& draw_fits(*content, rect.inner_spec(), area)
        },
        ElemModel::Stack { flex, children } => {
            &&& children.len() == flex.len()
            &&& stack_fits(rect, flex)
            &&& stack_children_fit(children, flex, rect, area)
        },
    }
}

/// The stack condition of [`draw_fits`], child by child.
pub open spec fn stack_children_fit(
    children: Seq<ElemModel>,
    flex: Seq<Flex>,
    rect: Rect,
    area: Rect,
) -> bool
    decreases children,
{
    if children.len() == 0 {
        true
    } else {
        stack_children_fit(children.drop_last(), flex, rect, area) && draw_fits(
            children.last(),
            child_rect(rect, flex, children.len() - 1),
            area,
        )
    }
}

/// A stack's children fit exactly when each child fits its own
/// sub-rectangle.
pub proof fn lemma_stack_children_fit(
    children: Seq<ElemModel>,
    flex: Seq<Flex>,
    rect: Rect,
    area: Rect,
)
    ensures
        stack_children_fit(children, flex, rect, area) <==> (forall|i: int|
            0 <= i < children.len() ==> draw_fits(children[i], child_rect(rect, flex, i), area)),
    decreases children,
{
    if children.len() > 0 {
        lemma_stack_children_fit(children.drop_last(), flex, rect, area);
        let pre = children.drop_last();
        if stack_children_fit(children, flex, rect, area) {
            assert forall|i: int| 0 <= i < children.len() implies draw_fits(
                children[i],
                child_rect(rect, flex, i),
                area,
            ) by {
                if i < children.len() - 1 {
                    assert(pre[i] == children[i]);
                    assert(draw_fits(pre[i], child_rect(rect, flex, i), area));
                } else {
                    assert(children[i] == children.last());
                }
            }
        } else {
            if forall|i: int|
                0 <= i < children.len() ==> #[trigger] draw_fits(
                    children[i],
                    child_rect(rect, flex, i),
                    area,
                ) {
                assert forall|i: int| 0 <= i < pre.len() implies draw_fits(
                    pre[i],
                    child_rect(rect, flex, i),
                    area,
                ) by {
                    assert(pre[i] == children[i]);
                }
                assert(stack_children_fit(pre, flex, rect, area));
                assert(draw_fits(children.last(), child_rect(rect, flex, children.len() - 1), area));
                assert(stack_children_fit(children, flex, rect, area));
            }
        }
    }
}

/// The cells of the drawing target after an element paints itself into
/// `rect`: the empty element leaves them unchanged; a section first
/// draws its child into the 1-cell-border content rectangle, then the
/// bordered, titled block over the outer rectangle, so the decoration
/// is never occluded; a stack draws each child, in spec order, into the
/// sub-rectangle the flex algorithm assigns it.
pub open spec fn drawn_cells(
    e: ElemModel,
    rect: Rect,
    cells: Map<(int, int), (Seq<char>, int)>,
) -> Map<(int, int), (Seq<char>, int)>
    decreases e,
{
    match e {
        ElemModel::Null => cells,
        ElemModel::Section { title, border, content, .. } => block_rendered(
            drawn_cells(*content, rect.inner_spec(), cells),
            title,
            border,
            rect,
        ),
        ElemModel::Stack { flex, children } => drawn_children(children, flex, rect, cells),
    }
}

/// The cells after the first `children.len()` children of a stack have
/// painted, in order.
pub open spec fn drawn_children(
    children: Seq<ElemModel>,
    flex: Seq<Flex>,
    rect: Rect,
    cells: Map<(int, int), (Seq<char>, int)>,
) -> Map<(int, int), (Seq<char>, int)>
    decreases children,
{
    if children.len() == 0 {
        cells
    } else {
        drawn_cells(
            children.last(),
            child_rect(rect, flex, children.len() - 1),
            drawn_children(children.drop_last(), flex, rect, cells),
        )
    }
}

impl AnyElement {
    /// Paints the element and all its descendants into `rect` of the
    /// buffer. The buffer afterwards holds exactly
    /// [`drawn_cells`]`(self@, rect, ..)` of what it held before; its
    /// area never changes, and drawing is local: every cell outside any
    /// rectangle that the whole painting provably stays inside keeps
    /// its prior value.
    pub fn draw(&self, rect: Rect, buf: &mut tui::buffer::Buffer)
        requires
            buffer_wf(*old(buf)),
            draw_fits(self@, rect, buffer_area(*old(buf))),
        ensures
            buffer_cells(*final(buf)) == drawn_cells(self@, rect, buffer_cells(*old(buf))),
            buffer_area(*final(buf)) == buffer_area(*old(buf)),
            buffer_wf(*final(buf)),
            forall|bound: Rect|
                #[trigger] draw_fits(self@, rect, bound) ==> masked_cells(
                    buffer_cells(*final(buf)),
                    bound,
                ) == masked_cells(buffer_cells(*old(buf)), bound),
        decreases *self,
    {
        match self {
            AnyElement::Null => {},
            AnyElement::Section(sec) => {
                let inner = rect.inner();
                sec.content.draw(inner, buf);
                let ghost mid = buffer_cells(*buf);
                render_block(&sec.title, &sec.border, rect, buf);
                proof {
                    assert forall|bound: Rect| #[trigger] draw_fits(self@, rect, bound) implies
                        masked_cells(buffer_cells(*buf), bound) == masked_cells(
                            buffer_cells(*old(buf)),
                            bound,
                        ) by {
                        assert(draw_fits(sec.content@, inner, bound));
                        assert(masked_cells(mid, bound) == masked_cells(
                            buffer_cells(*old(buf)),
                            bound,
                        ));
                        lemma_masked_mono(buffer_cells(*buf), mid, rect, bound);
                    }
                }
            },
            AnyElement::Stack(st) => {
                proof {
                    lemma_children_model(st.children@);
                }
                st.draw_into(rect, buf);
                proof {
                    assert forall|bound: Rect| #[trigger] draw_fits(self@, rect, bound) implies
                        masked_cells(buffer_cells(*buf), bound) == masked_cells(
                            buffer_cells(*old(buf)),
                            bound,
                        ) by {
                        assert(stack_children_fit(
                            children_model(st.children@),
                            st.flex@,
                            rect,
                            bound,
                        ));
                    }
                }
            },
        }
    }
}

impl StackElement {
    /// Lays the children out over `rect` with the flex algorithm and
    /// draws each into its sub-rectangle, in spec order.
    fn draw_into(&self, rect: Rect, buf: &mut tui::buffer::Buffer)
        requires
            buffer_wf(*old(buf)),
            self.children@.len() == self.flex@.len(),
            stack_fits(rect, self.flex@),
            stack_children_fit(
                children_model(self.children@),
                self.flex@,
                rect,
                buffer_area(*old(buf)),
            ),
        ensures
            buffer_cells(*final(buf)) == drawn_children(
                children_model(self.children@),
                self.flex@,
                rect,
                buffer_cells(*old(buf)),
            ),
            buffer_area(*final(buf)) == buffer_area(*old(buf)),
            buffer_wf(*final(buf)),
            forall|bound: Rect|
                #[trigger] stack_children_fit(
                    children_model(self.children@),
                    self.flex@,
                    rect,
                    bound,
                ) ==> masked_cells(buffer_cells(*final(buf)), bound) == masked_cells(
                    buffer_cells(*old(buf)),
                    bound,
                ),
        decreases *self,
    {
        let ghost models = children_model(self.children@);
        proof {
            lemma_children_model(self.children@);
            lemma_stack_children_fit(models, self.flex@, rect, buffer_area(*buf));
        }
        let rects = crate::flex::layout(rect, &self.flex);
        let mut i: usize = 0;
        while i < self.children.len()
            invariant
                0 <= i <= self.children@.len(),
                models == children_model(self.children@),
                models.len() == self.children@.len(),
                forall|j: int|
                    0 <= j < self.children@.len() ==> models[j] == self.children@[j].model(),
                self.children@.len() == self.flex@.len(),
                rects@.len() == self.flex@.len(),
                forall|j: int|
                    0 <= j < self.flex@.len() ==> rects@[j] == child_rect(rect, self.flex@, j),
                forall|j: int|
                    0 <= j < models.len() ==> draw_fits(
                        models[j],
                        child_rect(rect, self.flex@, j),
                        buffer_area(*buf),
                    ),
                buffer_area(*buf) == buffer_area(*old(buf)),
                buffer_wf(*buf),
                buffer_cells(*buf) == drawn_children(
                    models.take(i as int),
                    self.flex@,
                    rect,
                    buffer_cells(*old(buf)),
                ),
                forall|bound: Rect|
                    #[trigger] stack_children_fit(
                        models.take(i as int),
                        self.flex@,
                        rect,
                        bound,
                    ) ==> masked_cells(buffer_cells(*buf), bound) == masked_cells(
                        buffer_cells(*old(buf)),
                        bound,
                    ),
            decreases self.children@.len() - i,
        {
            proof {
                assert(decreases_to!(self.children => self.children@));
                assert(decreases_to!(self.children@ => self.children@[i as int]));
                assert(decreases_to!(*self => self.children@[i as int]));
            }
            let child = &self.children[i];
            proof {
                assert(child@ == models[i as int]);
                assert(rects@[i as int] == child_rect(rect, self.flex@, i as int));
                assert(draw_fits(child@, rects@[i as int], buffer_area(*buf)));
            }
            let ghost pre = buffer_cells(*buf);
            child.draw(rects[i], buf);
            proof {
                let taken = models.take(i as int + 1);
                assert(taken.drop_last() =~= models.take(i as int));
                assert(taken.last() == models[i as int]);
                assert forall|bound: Rect| #[trigger] stack_children_fit(
                    models.take(i as int + 1),
                    self.flex@,
                    rect,
                    bound,
                ) implies masked_cells(buffer_cells(*buf), bound) == masked_cells(
                    buffer_cells(*old(buf)),
                    bound,
                ) by {
                    assert(stack_children_fit(models.take(i as int), self.flex@, rect, bound));
                    assert(draw_fits(
                        models[i as int],
                        child_rect(rect, self.flex@, i as int),
                        bound,
                    ));
                    assert(masked_cells(buffer_cells(*buf), bound) == masked_cells(pre, bound));
                    assert(masked_cells(pre, bound) == masked_cells(
                        buffer_cells(*old(buf)),
                        bound,
                    ));
                }
            }
            i = i + 1;
        }
        proof {
            assert(models.take(models.len() as int) =~= models);
        }
    }
}

/// Creates a blank buffer of the given size and lets the element paint
/// into its full rectangle; the result holds exactly the cells the
/// element draws over a blank background.
pub fn draw_to_buffer(e: &AnyElement, width: u16, height: u16) -> (b: tui::buffer::Buffer)
    requires
        width as int * height as int <= 0xFFFF,
        draw_fits(
            e@,
            (Rect { x: 0, y: 0, width, height }),
            (Rect { x: 0, y: 0, width, height }),
        ),
    ensures
        buffer_cells(b) == drawn_cells(
            e@,
            (Rect { x: 0, y: 0, width, height }),
            crate::backend::blank_cells(width as int, height as int),
        ),
        buffer_area(b) == (Rect { x: 0, y: 0, width, height }),
        buffer_wf(b),
{
    let mut buf = crate::backend::new_buffer(width, height);
    e.draw(Rect { x: 0, y: 0, width, height }, &mut buf);
    buf
}

/// Law (deterministic drawing): structurally equal elements paint the
/// same cells. With render pure — an element is a function of its
/// component's fields — two renders of equal components draw
/// pixel-identical output into the same rectangle of the same target.
pub proof fn lemma_draw_deterministic(
    e1: ElemModel,
    e2: ElemModel,
    rect: Rect,
    cells: Map<(int, int), (Seq<char>, int)>,
)
    requires
        e1 == e2,
    ensures
        drawn_cells(e1, rect, cells) == drawn_cells(e2, rect, cells),
{
}

} // verus!
