//! A container laying out `N` children along the vertical axis.

use vstd::prelude::*;
use crate::children::Children;
use crate::component::{render_children, Component};
use crate::element::{AnyElement, ElemModel, StackElement};
use crate::flex::Flex;

verus! {

/// A stack of exactly `N` children, one flex spec per child. Drawing
/// splits the assigned rectangle with the flex algorithm and paints
/// each child into its sub-rectangle, top to bottom in spec order.
pub struct Stack<const N: usize> {
    pub flex: [Flex; N],
    pub children: Children<N>,
}

impl<const N: usize> Component for Stack<N> {
    open spec fn render_model(&self) -> ElemModel {
        ElemModel::Stack { flex: self.flex@, children: render_children(self.children@) }
    }

    fn render(&self) -> (e: AnyElement) {
        let mut flex: Vec<Flex> = Vec::new();
        let mut i: usize = 0;
        while i < N
            invariant
                0 <= i <= N,
                self.flex@.len() == N,
                flex@ =~= self.flex@.take(i as int),
            decreases N - i,
        {
            flex.push(self.flex[i]);
            proof {
                assert(flex@ =~= self.flex@.take(i as int + 1));
            }
            i = i + 1;
        }
        proof {
            assert(self.flex@.take(N as int) =~= self.flex@);
        }
        let es = render_all_of(&self.children);
        AnyElement::Stack(Box::new(StackElement { flex, children: es }))
    }
}

/// Renders each child of a row in order.
fn render_all_of<const N: usize>(children: &Children<N>) -> (es: Vec<AnyElement>)
    ensures
        crate::element::children_model(es@) == render_children(children@),
{
    proof {
        use_type_invariant(children);
    }
    crate::component::render_all(&children.items)
}

} // verus!
