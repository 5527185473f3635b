//! Components: cloneable descriptions of desired interface, rendered
//! each frame into immutable element trees.

use vstd::prelude::*;
use crate::element::{children_model, lemma_children_model, AnyElement, ElemModel, SectionElement, StackElement};
use crate::event::KeyHandler;
use crate::flex::Flex;
use crate::section::Section;
use crate::spans::{Span, SpanModel, Spans};
use crate::style::Style;

verus! {

broadcast use vstd::std_specs::vec::axiom_vec_decreases_to_view, vstd::seq::axiom_seq_index_decreases;

/// A type-erased component: the storable form a container keeps its
/// heterogeneous children in.
pub enum AnyComponent {
    /// Describes nothing: renders to the empty element.
    Null,
    Section(Box<Section>),
    /// An erased stack: flex specs and children, one spec per child.
    Stack(Box<StackParts>),
}

/// The data of an erased stack component.
pub struct StackParts {
    pub flex: Vec<Flex>,
    pub children: Vec<AnyComponent>,
}

/// The value a component stands for; contracts speak of this mirror.
pub enum CompModel {
    Null,
    Section {
        title: Seq<SpanModel>,
        border: Style,
        children: Seq<CompModel>,
        on_key: KeyHandler,
    },
    Stack { flex: Seq<Flex>, children: Seq<CompModel> },
}

impl AnyComponent {
    /// The value this component stands for.
    pub open(crate) spec fn model(self) -> CompModel
        decreases self,
    {
        match self {
            AnyComponent::Null => CompModel::Null,
            AnyComponent::Section(sec) => CompModel::Section {
                title: sec.title@,
                border: sec.border,
                children: comp_children_model(sec.children.items@),
                on_key: sec.on_key,
            },
            AnyComponent::Stack(parts) => CompModel::Stack {
                flex: parts.flex@,
                children: comp_children_model(parts.children@),
            },
        }
    }
}

impl View for AnyComponent {
    type V = CompModel;

    open spec fn view(&self) -> CompModel {
        self.model()
    }
}

/// The values a row of components stands for, in order.
pub open spec fn comp_children_model(s: Seq<AnyComponent>) -> Seq<CompModel>
    decreases s,
{
    if s.len() == 0 {
        Seq::empty()
    } else {
        comp_children_model(s.drop_last()).push(s.last().model())
    }
}

/// A row's model has one entry per component: that component's model.
pub proof fn lemma_comp_children_model(s: Seq<AnyComponent>)
    ensures
        comp_children_model(s).len() == s.len(),
        forall|i: int| 0 <= i < s.len() ==> comp_children_model(s)[i] == s[i].model(),
    decreases s,
{
    if s.len() > 0 {
        lemma_comp_children_model(s.drop_last());
    }
}

/// The first rendered child, or the empty element where there is none.
pub open spec fn head_or_null(s: Seq<ElemModel>) -> ElemModel {
    if s.len() > 0 {
        s[0]
    } else {
        ElemModel::Null
    }
}

/// The element a component's value renders to: rendering is a pure
/// function from component values to element values.
pub open spec fn render_elem(c: CompModel) -> ElemModel
    decreases c,
{
    match c {
        CompModel::Null => ElemModel::Null,
        CompModel::Section { title, border, children, on_key } => ElemModel::Section {
            title,
            border,
            content: Box::new(head_or_null(render_children(children))),
            on_key,
        },
        CompModel::Stack { flex, children } => ElemModel::Stack {
            flex,
            children: render_children(children),
        },
    }
}

/// The elements a row of component values renders to, in order.
pub open spec fn render_children(cs: Seq<CompModel>) -> Seq<ElemModel>
    decreases cs,
{
    if cs.len() == 0 {
        Seq::empty()
    } else {
        render_children(cs.drop_last()).push(render_elem(cs.last()))
    }
}

/// A rendered row has one element per component: that component's
/// rendering.
pub proof fn lemma_render_children(cs: Seq<CompModel>)
    ensures
        render_children(cs).len() == cs.len(),
        forall|i: int| 0 <= i < cs.len() ==> render_children(cs)[i] == render_elem(cs[i]),
    decreases cs,
{
    if cs.len() > 0 {
        lemma_render_children(cs.drop_last());
    }
}

/// The capability every component offers: rendering itself into a
/// fresh, immutable element.
pub trait Component {
    /// The element value this component renders to.
    spec fn render_model(&self) -> ElemModel;

    /// Renders the component. Pure: the element is a function of the
    /// component's value alone, and the component is not consumed.
    fn render(&self) -> (e: AnyElement)
        ensures
            e@ == self.render_model(),
    ;
}

/// Duplicates a span; the copy stands for the same value.
pub(crate) fn copy_span(sp: &Span) -> (r: Span)
    ensures
        r@ == sp@,
{
    Span { text: sp.text.clone(), style: sp.style }
}

/// Duplicates a line of styled text; the copy stands for the same value.
pub(crate) fn copy_spans(spans: &Spans) -> (r: Spans)
    ensures
        r@ == spans@,
{
    let mut parts: Vec<Span> = Vec::new();
    let mut i: usize = 0;
    while i < spans.0.len()
        invariant
            0 <= i <= spans.0@.len(),
            parts@.len() == i,
            forall|j: int| 0 <= j < i ==> parts@[j]@ == spans.0@[j]@,
        decreases spans.0@.len() - i,
    {
        parts.push(copy_span(&spans.0[i]));
        i = i + 1;
    }
    let r = Spans(parts);
    proof {
        assert(r@ =~= spans@);
    }
    r
}

/// Duplicates a row of flex specs.
pub(crate) fn copy_flex(v: &Vec<Flex>) -> (r: Vec<Flex>)
    ensures
        r@ == v@,
{
    let mut r: Vec<Flex> = Vec::new();
    let mut i: usize = 0;
    while i < v.len()
        invariant
            0 <= i <= v@.len(),
            r@ =~= v@.take(i as int),
        decreases v@.len() - i,
    {
        r.push(v[i]);
        proof {
            assert(r@ =~= v@.take(i as int + 1));
        }
        i = i + 1;
    }
    proof {
        assert(v@.take(v@.len() as int) =~= v@);
    }
    r
}

impl AnyComponent {
    /// Renders the erased component: the element its value maps to.
    pub(crate) fn render_any(&self) -> (e: AnyElement)
        ensures
            e@ == render_elem(self@),
        decreases *self,
    {
        match self {
            AnyComponent::Null => AnyElement::Null,
            AnyComponent::Section(sec) => {
                proof {
                    use_type_invariant(&sec.children);
                    lemma_comp_children_model(sec.children.items@);
                    lemma_render_children(comp_children_model(sec.children.items@));
                }
                let mut rendered = render_all(&sec.children.items);
                let content = rendered.remove(0);
                proof {
                    lemma_children_model(rendered@);
                }
                AnyElement::Section(Box::new(SectionElement {
                    title: copy_spans(&sec.title),
                    border: sec.border,
                    content,
                    on_key: sec.on_key,
                }))
            },
            AnyComponent::Stack(parts) => {
                let es = render_all(&parts.children);
                AnyElement::Stack(Box::new(StackElement { flex: copy_flex(&parts.flex), children: es }))
            },
        }
    }
}

/// Renders every component of a row, preserving order.
pub(crate) fn render_all(items: &Vec<AnyComponent>) -> (es: Vec<AnyElement>)
    ensures
        es@.len() == items@.len(),
        children_model(es@) == render_children(comp_children_model(items@)),
        forall|j: int| 0 <= j < items@.len() ==> es@[j].model() == render_elem(items@[j].model()),
    decreases *items,
{
    let mut es: Vec<AnyElement> = Vec::new();
    let mut i: usize = 0;
    while i < items.len()
        invariant
            0 <= i <= items@.len(),
            es@.len() == i,
            forall|j: int| 0 <= j < i ==> es@[j].model() == render_elem(items@[j].model()),
        decreases items@.len() - i,
    {
        proof {
            assert(decreases_to!(*items => items@));
            assert(decreases_to!(items@ => items@[i as int]));
            assert(decreases_to!(*items => items@[i as int]));
        }
        let item = &items[i];
        es.push(item.render_any());
        i = i + 1;
    }
    proof {
        lemma_children_model(es@);
        lemma_comp_children_model(items@);
        lemma_render_children(comp_children_model(items@));
        assert(children_model(es@) =~= render_children(comp_children_model(items@)));
    }
    es
}

impl Default for AnyComponent {
    /// The default erased component describes nothing.
    fn default() -> (c: AnyComponent)
        ensures
            c == AnyComponent::Null,
    {
        AnyComponent::Null
    }
}

impl Component for AnyComponent {
    open spec fn render_model(&self) -> ElemModel {
        render_elem(self@)
    }

    fn render(&self) -> (e: AnyElement) {
        self.render_any()
    }
}

} // verus!
