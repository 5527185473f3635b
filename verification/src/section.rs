//! A component with a border and a title around a single child.

use vstd::prelude::*;
use crate::children::Children;
use crate::component::{
    copy_spans, head_or_null, render_children, Component, CompModel,
};
use crate::element::{AnyElement, ElemModel, SectionElement};
use crate::event::KeyHandler;
use crate::spans::Spans;
use crate::style::{Color, Style};

verus! {

/// A component wrapping its single child with a border on all four
/// sides and a title embedded in the top border line. An optional key
/// handler intercepts events before the child sees them.
pub struct Section {
    pub title: Spans,
    pub border: Style,
    pub children: Children<1>,
    pub on_key: KeyHandler,
}

impl Section {
    /// The value this section stands for.
    pub open spec fn model(self) -> CompModel {
        CompModel::Section {
            title: self.title@,
            border: self.border,
            children: self.children@,
            on_key: self.on_key,
        }
    }
}

impl Component for Section {
    open spec fn render_model(&self) -> ElemModel {
        ElemModel::Section {
            title: self.title@,
            border: self.border,
            content: Box::new(head_or_null(render_children(self.children@))),
            on_key: self.on_key,
        }
    }

    fn render(&self) -> (e: AnyElement) {
        let child = self.children.get(0);
        let content = child.render_any();
        proof {
            crate::component::lemma_render_children(self.children@);
        }
        AnyElement::Section(Box::new(SectionElement {
            title: copy_spans(&self.title),
            border: self.border,
            content,
            on_key: self.on_key,
        }))
    }
}

impl Default for Section {
    /// A section with no title, a white border, an empty child and no
    /// key handler bound.
    fn default() -> (s: Section)
        ensures
            s.title@ == Seq::<crate::spans::SpanModel>::empty(),
            s.border == (Style { fg: Some(Color { red: 255, green: 255, blue: 255 }) }),
            s.children@.len() == 1 && s.children@[0] == CompModel::Null,
            s.on_key == KeyHandler::Propagate,
    {
        Section {
            title: Spans::default(),
            border: Style::colored(Color::white()),
            children: Children::default(),
            on_key: KeyHandler::default(),
        }
    }
}

/// Law (render purity): two sections whose fields stand for the same
/// values render to the same element value, and therefore draw the same
/// cells wherever they are painted.
pub proof fn lemma_section_render_pure(a: Section, b: Section)
    requires
        a.title@ == b.title@,
        a.border == b.border,
        a.children@ == b.children@,
        a.on_key == b.on_key,
    ensures
        a.render_model() == b.render_model(),
{
}

} // verus!
